//! When the computer is put to sleep, and how the program stops.

use vstd::prelude::*;

use crate::connection::MidiTickAction;
use crate::error::ErrorView;
use crate::laws::ending::{
    at_rest, awake_with_synthesizer, keys_sound, leads_to, lemma_kept_awake,
    lemma_terminate_and_wait, settled,
};
use crate::media;
use crate::midi_in::MidiMsg;
use crate::program::{AppView, RECEIVE_MILLIS, SETTLE_MILLIS};
use crate::protocol::{AskView, CommandView, ReplyView, Run, World};

verus! {

/// The asks that end in sleep.
pub open spec fn sleep_asks() -> Seq<AskView> {
    seq![
        AskView::CloseMidi,
        AskView::Sleep(SETTLE_MILLIS),
        AskView::Run(media::suspend_command()),
    ]
}

/// Sleep is asked for once, after a moment, and whatever keeps the computer from sleeping is to
/// be passed over. It succeeds where, and only where, the command ran and ended well.
pub proof fn sleep_is_asked_for_once(w: World<AppView>)
    ensures
        w.systemctl_suspend() matches Run::Returned(v, result) ==> {
            &&& v.state == w.state
            &&& v.asked == w.asked.push(AskView::Sleep(SETTLE_MILLIS)).push(
                AskView::Run(
                    CommandView {
                        program: "systemctl"@,
                        args: seq!["suspend"@, "--check-inhibitors=no"@],
                    },
                ),
            )
            &&& w.replies.len() > 1
            &&& w.replies[1] is Status || w.replies[1] is Failed
            &&& result == (match w.replies[1] {
                ReplyView::Status(status) => status.exit_ok(),
                ReplyView::Failed(t) => Err(ErrorView::IoError(t)),
                _ => Ok(()),
            })
        },
{
}

/// Once the synthesizer has ended, only a command that does not run is a failure. That the
/// computer stays awake is none.
pub proof fn a_computer_that_stays_awake_is_no_failure(w: World<AppView>)
    ensures
        w.close_and_sleep(Ok(())) matches Run::Returned(v, result) ==> {
            &&& v.asked == w.asked + sleep_asks()
            &&& w.replies.len() > 2
            &&& result is Ok <==> w.replies[2] is Status
            &&& result is Err <==> w.replies[2] is Failed
        },
{
    let u = w.ask(AskView::CloseMidi).taken();
    sleep_is_asked_for_once(u);
    if let Run::Returned(v, _) = w.close_and_sleep(Ok(())) {
        assert(u.replies[1] == w.replies[2]);
        assert(v.asked =~= w.asked + sleep_asks());
    }
}

/// Sleep ends the synthesizer, leaves the standard volume set, and gives the connection up even
/// where it fails. Where the piano can be reached, its keys are let sound by themselves before
/// that, whether a synthesizer was running or not. The last thing that is asked for is that the
/// computer sleeps.
pub proof fn sleep_comes_last(w: World<AppView>)
    ensures
        w.suspend() matches Run::Returned(v, _) ==> v.state.midi is None,
        w.suspend() matches Run::Returned(v, Ok(_)) ==> {
            &&& at_rest(v.state)
            &&& exists|asked: Seq<AskView>| v.asked == #[trigger] (asked + sleep_asks())
            &&& w.state.midi_out() matches Some(midi_out) ==> exists|asked: Seq<AskView>|
                v.asked == (#[trigger] asked.push(
                    AskView::SendMidi(midi_out.local_control(true)),
                )) + sleep_asks()
        },
{
    lemma_suspend(w);
}

pub(crate) proof fn lemma_suspend(w: World<AppView>)
    ensures
        w.suspend() matches Run::Returned(v, result) ==> {
            &&& leads_to(w, v)
            &&& settled(w.state) ==> settled(v.state)
            &&& awake_with_synthesizer(w) ==> awake_with_synthesizer(v)
            &&& v.state.midi is None
            &&& result is Ok ==> {
                &&& at_rest(v.state)
                &&& exists|asked: Seq<AskView>| v.asked == #[trigger] (asked + sleep_asks())
                &&& w.state.midi_out() matches Some(midi_out) ==> exists|asked: Seq<AskView>|
                    v.asked == (#[trigger] asked.push(
                        AskView::SendMidi(midi_out.local_control(true)),
                    )) + sleep_asks()
            }
        },
{
    broadcast use lemma_kept_awake;

    lemma_terminate_and_wait(w);
    if let Run::Returned(y, result) = w.terminate_and_wait() {
        a_computer_that_stays_awake_is_no_failure(y.with_midi(None));
        if let Run::Returned(v, Ok(_)) = w.suspend() {
            assert(v.asked == y.asked + sleep_asks());
            if let Some(midi_out) = w.state.midi_out() {
                assert(y.asked =~= y.asked.drop_last().push(y.asked.last()));
            }
        }
    }
}

/// When nobody plays for longer than the timeout, the synthesizer is ended, the keys of the
/// piano sound by themselves, and then the computer sleeps.
pub proof fn the_timeout_puts_the_computer_to_sleep(
    w: World<AppView>,
    v: World<AppView>,
    u: World<AppView>,
    shutdown: bool,
    now: u128,
    again: bool,
)
    requires
        w.maybe_cleanup_process() == Run::Returned(v, Ok::<(), ErrorView>(())),
        v.replies.len() > 0,
        v.replies[0] == (ReplyView::Observed { shutdown, now }),
        v.state.is_idle(now),
        w.tick_main() == Run::Returned(u, Ok::<bool, ErrorView>(again)),
    ensures
        u.state.midi is None,
        at_rest(u.state),
        again == !shutdown,
        v.state.midi_out() matches Some(midi_out) ==> exists|asked: Seq<AskView>|
            u.asked == (#[trigger] asked.push(AskView::SendMidi(midi_out.local_control(true))))
                + sleep_asks(),
        exists|asked: Seq<AskView>| u.asked == #[trigger] (asked + sleep_asks()),
{
    let x = v.ask(AskView::Observe).taken();
    lemma_terminate_and_wait(x);
    assert(w.tick_main() == x.terminate_and_wait().then_stopped(shutdown, true));
    if let Run::Returned(y, Ok(_)) = x.terminate_and_wait() {
        lemma_suspend(y);
        assert(y.state.midi_out() == v.state.midi_out());
    }
}

/// Where the program is told to stop while somebody plays, the synthesizer is ended, the
/// keys of the piano sound by themselves, and there is no other tick.
pub proof fn the_program_stops_when_told_to(
    w: World<AppView>,
    v: World<AppView>,
    u: World<AppView>,
    now: u128,
    again: bool,
)
    requires
        w.maybe_cleanup_process() == Run::Returned(v, Ok::<(), ErrorView>(())),
        v.replies.len() > 0,
        v.replies[0] == (ReplyView::Observed { shutdown: true, now }),
        !v.state.is_idle(now),
        w.tick_main() == Run::Returned(u, Ok::<bool, ErrorView>(again)),
    ensures
        at_rest(u.state),
        keys_sound(u),
        !again,
{
    let x = v.ask(AskView::Observe).taken();
    lemma_terminate_and_wait(x);
    assert(w.tick_main() == x.terminate_and_wait().then_stopped(true, false));
}

/// The gesture puts the computer to sleep. The keys of the piano are let sound by themselves
/// before that, whether a synthesizer was running or not.
pub proof fn the_gesture_puts_the_computer_to_sleep(
    w: World<AppView>,
    v: World<AppView>,
    u: World<AppView>,
    observed: u128,
    msg: MidiMsg,
    now: u128,
    again: bool,
)
    requires
        w.maybe_cleanup_process() == Run::Returned(v, Ok::<(), ErrorView>(())),
        v.replies.len() > 1,
        v.replies[0] == (ReplyView::Observed { shutdown: false, now: observed }),
        !v.state.is_idle(observed),
        v.replies[1] == (ReplyView::Message { msg, now }),
        v.state.midi matches Some(midi) && midi.calls_for(msg) == Some(MidiTickAction::Suspend),
        w.tick_main() == Run::Returned(u, Ok::<bool, ErrorView>(again)),
    ensures
        u.state.midi is None,
        at_rest(u.state),
        again,
        v.state.midi_out() matches Some(midi_out) ==> exists|asked: Seq<AskView>|
            u.asked == (#[trigger] asked.push(AskView::SendMidi(midi_out.local_control(true))))
                + sleep_asks(),
        exists|asked: Seq<AskView>| u.asked == #[trigger] (asked + sleep_asks()),
{
    let midi = v.state.midi->0;
    let x = v.ask(AskView::Observe).taken();
    let y = x.ask(AskView::Receive(RECEIVE_MILLIS)).taken().with_midi(Some(midi.after(msg, now)));
    assert(x.replies[0] == v.replies[1]);
    assert(w.tick_main() == x.listen());
    assert(x.listen() == y.suspend().then_end(true));
    lemma_suspend(y);
    assert(y.state.midi_out() == v.state.midi_out());
}

} // verus!
