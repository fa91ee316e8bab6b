//! What every tick keeps.

use vstd::prelude::*;

use crate::connection::{MidiConnection, MidiTickAction, TRIGGER_NOTE};
use crate::error::ErrorView;
use crate::laws::ending::{
    at_rest, awake_with_synthesizer, grew, keys_sound, leads_to, lemma_kept_awake,
    lemma_maybe_cleanup,
    lemma_terminate_and_wait, same_connection, same_settings, settled,
};
use crate::laws::gesture::{
    after_all, ends_in_rightmost, only_the_gesture_means_sleep, strikes,
};
use crate::laws::ports::lemma_start_midi;
use crate::laws::sleep::lemma_suspend;
use crate::laws::start::{
    a_start_comes_in_order, greeting, lemma_start_asks_first, lemma_start_process,
};
use crate::midi_in::MidiMsg;
use crate::process::PianoteqProcess;
use crate::program::{AppView, RECEIVE_MILLIS};
use crate::protocol::{AskView, CommandView, ReplyView, Run, WakeLockView, World};

verus! {

/// The messages that were heard are counted in the connection.
pub open spec fn has_heard(midi: MidiConnection, msgs: Seq<(MidiMsg, u128)>) -> bool {
    midi.rightmost_count == after_all(MidiConnection::fresh(None, 0), msgs).rightmost_count
}

/// The messages heard when one more reply has come.
pub open spec fn heard_with(msgs: Seq<(MidiMsg, u128)>, reply: ReplyView) -> Seq<(MidiMsg, u128)> {
    match reply {
        ReplyView::Message { msg, now } => msgs.push((msg, now)),
        _ => msgs,
    }
}

/// What a message leads to.
proof fn lemma_receive(w: World<AppView>)
    requires
        w.state.midi is Some,
    ensures
        w.receive() matches Run::Returned(v, result) ==> {
            &&& leads_to(w, v)
            &&& settled(w.state) ==> settled(v.state)
            &&& result is Ok && awake_with_synthesizer(w) ==> awake_with_synthesizer(v)
            &&& result is Ok ==> result->Ok_0
            &&& w.replies.len() > 0
            &&& v.state.midi matches Some(midi) ==> midi.rightmost_count == (match w.replies[0] {
                ReplyView::Message { msg, now } => w.state.midi->0.after(msg, now).rightmost_count,
                _ => w.state.midi->0.rightmost_count,
            })
        },
{
    broadcast use lemma_kept_awake;

    let u = w.ask(AskView::Receive(RECEIVE_MILLIS));
    if w.replies.len() > 0 {
        if let ReplyView::Message { msg, now } = w.replies[0] {
            let v = u.taken().with_midi(Some(w.state.midi->0.after(msg, now)));
            lemma_start_process(v);
            lemma_suspend(v);
        }
    }
}

/// A message that is received counts once, however the program acts on it, and what is no
/// message does not count.
pub proof fn a_message_counts_once(
    w: World<AppView>,
    v: World<AppView>,
    result: Result<bool, ErrorView>,
    msgs: Seq<(MidiMsg, u128)>,
)
    requires
        w.state.midi matches Some(midi) && has_heard(midi, msgs),
        w.receive() == Run::Returned(v, result),
    ensures
        v.state.midi matches Some(midi) ==> has_heard(midi, heard_with(msgs, w.replies[0])),
{
    lemma_receive(w);
    if let ReplyView::Message { msg, now } = w.replies[0] {
        assert(msgs.push((msg, now)).drop_last() =~= msgs);
    }
}

proof fn lemma_listen(w: World<AppView>)
    ensures
        w.listen() matches Run::Returned(v, result) ==> {
            &&& leads_to(w, v)
            &&& settled(w.state) ==> settled(v.state)
            &&& result is Ok && awake_with_synthesizer(w) ==> awake_with_synthesizer(v)
            &&& result is Ok ==> result->Ok_0
        },
{
    broadcast use lemma_kept_awake;

    lemma_start_midi(w);
    if let Run::Returned(u, Ok(_)) = w.start_midi_if_needed() {
        lemma_receive(u);
    }
}

proof fn lemma_stop(w: World<AppView>, shutdown: bool, idle: bool)
    ensures
        w.stop(shutdown, idle) matches Run::Returned(v, result) ==> {
            &&& leads_to(w, v)
            &&& settled(w.state) ==> settled(v.state)
            &&& result is Ok && awake_with_synthesizer(w) ==> awake_with_synthesizer(v)
            &&& result is Ok ==> result->Ok_0 == !shutdown && at_rest(v.state)
            &&& v.state.midi is Some ==> same_connection(w.state.midi, v.state.midi)
        },
{
    lemma_terminate_and_wait(w);
    if let Run::Returned(u, Ok(_)) = w.terminate_and_wait() {
        lemma_suspend(u);
    }
}

proof fn lemma_observe(w: World<AppView>)
    ensures
        w.observe() matches Run::Returned(v, result) ==> {
            &&& leads_to(w, v)
            &&& settled(w.state) ==> settled(v.state)
            &&& result is Ok && awake_with_synthesizer(w) ==> awake_with_synthesizer(v)
            &&& w.replies.len() > 0
            &&& w.replies[0] is Observed
            &&& result is Ok ==> result->Ok_0 == !w.replies[0]->shutdown
        },
{
    broadcast use lemma_kept_awake;

    if w.replies.len() > 0 {
        if let ReplyView::Observed { shutdown, now } = w.replies[0] {
            let u = w.ask(AskView::Observe).taken();
            if shutdown || w.state.is_idle(now) {
                lemma_stop(u, shutdown, w.state.is_idle(now));
            } else {
                lemma_listen(u);
            }
        }
    }
}

/// The messages heard after a tick that has a connection: one more, where the tick listened to
/// the piano and a message came.
pub open spec fn heard_in_tick(w: World<AppView>, msgs: Seq<(MidiMsg, u128)>) -> Seq<
    (MidiMsg, u128),
> {
    match w.maybe_cleanup_process() {
        Run::Returned(u, Ok(_)) => match u.reply() {
            Some(ReplyView::Observed { shutdown, now }) => if shutdown || u.state.is_idle(now)
                || u.replies.len() < 2 {
                msgs
            } else {
                heard_with(msgs, u.replies[1])
            },
            _ => msgs,
        },
        _ => msgs,
    }
}

/// What the keys said so far is remembered from tick to tick, as long as the connection lasts:
/// after a tick the connection has heard what it had before, and the message of this tick, if
/// one came. Nothing else that the tick does, whether it fails or not, makes a difference.
pub proof fn a_tick_remembers_what_was_heard(
    w: World<AppView>,
    v: World<AppView>,
    result: Result<bool, ErrorView>,
    msgs: Seq<(MidiMsg, u128)>,
)
    requires
        w.state.midi matches Some(midi) && has_heard(midi, msgs),
        w.tick_main() == Run::Returned(v, result),
    ensures
        v.state.midi matches Some(midi) ==> has_heard(midi, heard_in_tick(w, msgs)),
{
    lemma_maybe_cleanup(w);
    if let Run::Returned(u, Ok(_)) = w.maybe_cleanup_process() {
        let x = u.ask(AskView::Observe).taken();
        if let Some(ReplyView::Observed { shutdown, now }) = u.reply() {
            if shutdown || u.state.is_idle(now) {
                lemma_stop(x, shutdown, u.state.is_idle(now));
                assert(w.tick_main() == x.stop(shutdown, u.state.is_idle(now)));
            } else {
                assert(w.tick_main() == x.receive());
                lemma_receive(x);
                assert(x.replies[0] == u.replies[1]);
                a_message_counts_once(x, v, result, msgs);
            }
        }
    }
}

/// What a connection has heard, in however many ticks, decides whether the next message means
/// sleep: where it ends the gesture, and only there.
pub proof fn what_was_heard_decides_on_sleep(
    midi: MidiConnection,
    msgs: Seq<(MidiMsg, u128)>,
    msg: MidiMsg,
)
    requires
        has_heard(midi, msgs),
    ensures
        midi.calls_for(msg) == Some(MidiTickAction::Suspend) <==> {
            &&& msg matches MidiMsg::NoteOn { note, velocity } && note == TRIGGER_NOTE && velocity
                > 0
            &&& ends_in_rightmost(strikes(msgs), 5)
        },
{
    only_the_gesture_means_sleep(MidiConnection::fresh(None, 0), msgs, msg);
}

/// A connection that has just come about has heard the first message, if one came, and no
/// other.
pub proof fn a_new_connection_hears_its_first_message(
    w: World<AppView>,
    u: World<AppView>,
    v: World<AppView>,
    result: Result<bool, ErrorView>,
)
    requires
        w.state.midi is None,
        w.start_midi_if_needed() == Run::Returned(u, Ok::<(), ErrorView>(())),
        w.listen() == Run::Returned(v, result),
    ensures
        v.state.midi matches Some(midi) ==> has_heard(midi, heard_with(seq![], u.replies[0])),
{
    lemma_start_midi(w);
    a_message_counts_once(u, v, result, seq![]);
}

/// After every tick, whatever the system answered and whether the tick failed, the volume for
/// playing is set only while there is a synthesizer, and then the standard one is known. What
/// the program was told when it started does not change.
pub proof fn every_tick_leaves_the_program_settled(w: World<AppView>)
    requires
        settled(w.state),
    ensures
        w.tick_main() matches Run::Returned(v, _) ==> settled(v.state) && same_settings(
            w.state,
            v.state,
        ),
{
    lemma_maybe_cleanup(w);
    if let Run::Returned(u, Ok(_)) = w.maybe_cleanup_process() {
        lemma_observe(u);
    }
}

/// Between two ticks, the computer is kept awake while there is a synthesizer, and no longer.
pub proof fn the_computer_is_awake_with_the_synthesizer(w: World<AppView>)
    requires
        awake_with_synthesizer(w),
    ensures
        w.tick_main() matches Run::Returned(v, Ok(_)) ==> awake_with_synthesizer(v),
{
    lemma_maybe_cleanup(w);
    if let Run::Returned(u, Ok(_)) = w.maybe_cleanup_process() {
        lemma_observe(u);
    }
}

/// A tick that does not fail is followed by another unless the program was told to stop.
pub proof fn only_a_stop_ends_the_ticks(w: World<AppView>, v: World<AppView>, again: bool)
    requires
        w.tick_main() == Run::Returned(v, Ok::<bool, ErrorView>(again)),
    ensures
        w.maybe_cleanup_process() matches Run::Returned(u, Ok(_)) && u.replies.len() > 0 && (
        u.replies[0] matches ReplyView::Observed { shutdown, .. } && again == !shutdown),
{
    if let Run::Returned(u, Ok(_)) = w.maybe_cleanup_process() {
        lemma_observe(u);
    }
}

/// A message of a key: it ends the gesture where the closest B flat is struck after five
/// strikes of the rightmost C.
pub open spec fn ends_the_gesture(midi: MidiConnection, msg: MidiMsg) -> bool {
    msg matches MidiMsg::NoteOn { note, velocity } && note == 106 && velocity > 0
        && midi.rightmost_count >= 5
}

/// The connection when a key has been touched.
pub open spec fn touched(midi: MidiConnection, note: u8, velocity: u8, now: u128) -> MidiConnection {
    MidiConnection {
        midi_out: midi.midi_out,
        last_note_instant: Some(now),
        last_update_instant: now,
        rightmost_count: if velocity == 0 {
            midi.rightmost_count
        } else if note != 108 {
            0
        } else if midi.rightmost_count == 255 {
            255
        } else {
            (midi.rightmost_count + 1) as u8
        },
    }
}

/// Where no synthesizer is running, every key starts one, struck or let go, wherever on the
/// keyboard it is, unless it ends the sleep gesture. A tick that does so ends with the program
/// started and the computer kept awake, or fails and leaves nothing behind.
pub proof fn any_key_starts_the_synthesizer(
    w: World<AppView>,
    v: World<AppView>,
    u: World<AppView>,
    observed: u128,
    note: u8,
    velocity: u8,
    now: u128,
    result: Result<bool, ErrorView>,
)
    requires
        w.maybe_cleanup_process() == Run::Returned(v, Ok::<(), ErrorView>(())),
        v.state.process is None,
        v.state.midi is Some,
        v.replies.len() > 1,
        v.replies[0] == (ReplyView::Observed { shutdown: false, now: observed }),
        v.replies[1] == (ReplyView::Message { msg: MidiMsg::NoteOn { note, velocity }, now }),
        !ends_the_gesture(v.state.midi->0, MidiMsg::NoteOn { note, velocity }),
        w.tick_main() == Run::Returned(u, result),
    ensures
        result is Ok ==> {
            &&& result->Ok_0
            &&& u.state.process == Some(PianoteqProcess { has_exited: false })
            &&& u.state.midi == Some(touched(v.state.midi->0, note, velocity, now))
            &&& u.asked.len() >= v.asked.len() + 5
            &&& grew(
                v.asked.push(AskView::Observe).push(AskView::Receive(10_000)) + greeting(v.state),
                u.asked,
            )
            &&& u.asked[(v.asked.len() + 2 + greeting(v.state).len()) as int] == AskView::Capture(
                CommandView { program: "playerctl"@, args: seq!["pause"@] },
            )
            &&& u.asked[u.asked.len() - 2] == AskView::Spawn(w.state.program)
            &&& u.asked.last() == AskView::StayAwake(
                WakeLockView {
                    sleep: true,
                    reason: "Playing piano"@,
                    app_name: "Auto-Pianoteq"@,
                    app_reverse_domain: "pianoteq.auto"@,
                },
            )
        },
        result is Err ==> at_rest(u.state) && keys_sound(u) && u.asked.len() > v.asked.len() + 2,
{
    let x = v.ask(AskView::Observe).taken();
    let msg = MidiMsg::NoteOn { note, velocity };
    let midi = v.state.midi->0;
    let y = x.ask(AskView::Receive(RECEIVE_MILLIS)).taken().with_midi(Some(midi.after(msg, now)));
    lemma_maybe_cleanup(w);
    assert(x.replies[0] == v.replies[1]);
    assert(w.tick_main() == x.receive());
    assert(x.receive() == y.start_process().then_end(true));
    assert(greeting(y.state) == greeting(v.state));
    lemma_start_process(y);
    a_start_comes_in_order(y);
    lemma_start_asks_first(y);
}

/// While a synthesizer is running, a key is only taken notice of, unless it ends the gesture.
pub proof fn a_key_is_taken_notice_of(
    w: World<AppView>,
    v: World<AppView>,
    observed: u128,
    note: u8,
    velocity: u8,
    now: u128,
)
    requires
        w.maybe_cleanup_process() == Run::Returned(v, Ok::<(), ErrorView>(())),
        v.state.process is Some,
        v.state.midi is Some,
        v.replies.len() > 1,
        v.replies[0] == (ReplyView::Observed { shutdown: false, now: observed }),
        !v.state.midi->0.idle(observed, v.state.idle_timeout),
        v.replies[1] == (ReplyView::Message { msg: MidiMsg::NoteOn { note, velocity }, now }),
        !ends_the_gesture(v.state.midi->0, MidiMsg::NoteOn { note, velocity }),
    ensures
        w.tick_main() == Run::Returned(
            World {
                state: AppView {
                    midi: Some(touched(v.state.midi->0, note, velocity, now)),
                    ..v.state
                },
                asked: v.asked.push(AskView::Observe).push(AskView::Receive(10_000)),
                replies: v.replies.skip(2),
            },
            Ok::<bool, ErrorView>(true),
        ),
{
    let x = v.ask(AskView::Observe).taken();
    assert(x.replies[0] == v.replies[1]);
    assert(x.replies.skip(1) =~= v.replies.skip(2));
    assert(w.tick_main() == x.receive());
}

} // verus!
