//! What is left when the synthesizer has ended.

use vstd::prelude::*;

use crate::connection::MidiConnection;
use crate::error::ErrorView;
use crate::process::{self, PianoteqProcess};
use crate::program::{AppView, RETRY_MILLIS};
use crate::protocol::{AskView, ReplyView, Run, World};

verus! {

/// `b` is `a` and what was asked for since.
pub open spec fn grew(a: Seq<AskView>, b: Seq<AskView>) -> bool {
    a.len() <= b.len() && forall|i: int| 0 <= i < a.len() ==> #[trigger] b[i] == a[i]
}

/// What the program was told when it started is the same in both states.
pub open spec fn same_settings(a: AppView, b: AppView) -> bool {
    &&& a.program == b.program
    &&& a.device_prefix == b.device_prefix
    &&& a.idle_timeout == b.idle_timeout
    &&& a.volume.volume_path == b.volume.volume_path
}

/// The program comes from `w` to `v`.
pub open spec fn leads_to(w: World<AppView>, v: World<AppView>) -> bool {
    &&& same_settings(w.state, v.state)
    &&& grew(w.asked, v.asked)
    &&& v.replies.len() <= w.replies.len()
}

/// Everything is as it is without a synthesizer.
pub open spec fn at_rest(state: AppView) -> bool {
    &&& state.process is None
    &&& !state.volume.swapped
    &&& state.midi matches Some(midi) ==> midi.last_note_instant is None
}

/// Whether the computer is kept awake: it is, from when that is asked for until the
/// synthesizer is let go of.
pub open spec fn kept_awake(asked: Seq<AskView>) -> bool
    decreases asked.len(),
{
    if asked.len() == 0 {
        false
    } else {
        match asked.last() {
            AskView::StayAwake(_) => true,
            AskView::ReleaseProcess => false,
            _ => kept_awake(asked.drop_last()),
        }
    }
}

/// What one more ask makes of it.
pub(crate) broadcast proof fn lemma_kept_awake(asked: Seq<AskView>, ask: AskView)
    ensures
        #[trigger] kept_awake(asked.push(ask)) == (match ask {
            AskView::StayAwake(_) => true,
            AskView::ReleaseProcess => false,
            _ => kept_awake(asked),
        }),
{
    assert(asked.push(ask).drop_last() =~= asked);
}

/// The computer is kept awake where, and only where, there is a synthesizer.
pub open spec fn awake_with_synthesizer(w: World<AppView>) -> bool {
    kept_awake(w.asked) <==> w.state.process is Some
}

/// The same connection, but for when a key was last touched.
pub open spec fn same_connection(a: Option<MidiConnection>, b: Option<MidiConnection>) -> bool {
    match (a, b) {
        (None, None) => true,
        (Some(x), Some(y)) => y == MidiConnection { last_note_instant: y.last_note_instant, ..x },
        _ => false,
    }
}

/// The last thing that was asked for is to let the keys of the piano sound by themselves,
/// where the piano can be reached.
pub open spec fn keys_sound(v: World<AppView>) -> bool {
    v.state.midi_out() matches Some(midi_out) ==> v.asked.len() > 0 && v.asked.last()
        == AskView::SendMidi(midi_out.local_control(true))
}

pub(crate) proof fn lemma_swap_volume(w: World<AppView>, swapped: bool)
    ensures
        w.swap_volume(swapped) matches Run::Returned(v, _) ==> {
            &&& leads_to(w, v)
            &&& kept_awake(v.asked) == kept_awake(w.asked)
            &&& v.state == AppView { volume: v.state.volume, ..w.state }
            &&& v.state.volume.swapped == swapped
        },
        w.swap_volume(swapped) matches Run::Returned(v, Ok(_)) ==> (swapped
            && !w.state.volume.swapped ==> v.state.volume.standard_volume is Some),
        w.swap_volume(swapped) matches Run::Returned(v, _) ==> (
        w.state.volume.standard_volume is Some ==> v.state.volume.standard_volume is Some),
{
    broadcast use lemma_kept_awake;

}

pub(crate) proof fn lemma_cleanup(w: World<AppView>)
    ensures
        w.do_process_cleanup() matches Run::Returned(v, _) ==> {
            &&& leads_to(w, v)
            &&& kept_awake(v.asked) == kept_awake(w.asked)
            &&& !v.state.volume.swapped
            &&& v.state.midi matches Some(midi) ==> midi.last_note_instant is None
            &&& same_connection(w.state.midi, v.state.midi)
            &&& keys_sound(v)
            &&& v.state.process == w.state.process
        },
{
    broadcast use lemma_kept_awake;

    lemma_swap_volume(w, false);
}

/// The cleanup leaves the standard volume set, no touch of a key remembered, and the keys
/// sounding by themselves, even where a part of it fails. Nothing else of the synthesizer or
/// the connection changes.
pub proof fn the_cleanup_does_everything(w: World<AppView>)
    ensures
        w.do_process_cleanup() matches Run::Returned(v, _) ==> {
            &&& !v.state.volume.swapped
            &&& v.state.midi matches Some(midi) ==> midi.last_note_instant is None
            &&& keys_sound(v)
            &&& v.state.process == w.state.process
            &&& same_connection(w.state.midi, v.state.midi)
        },
{
    lemma_cleanup(w);
}

/// The volume for playing is set only while there is a synthesizer, and then the standard
/// one is known.
pub open spec fn settled(state: AppView) -> bool {
    state.volume.swapped ==> state.process is Some && state.volume.standard_volume is Some
}

/// What a look at the synthesizer comes to.
pub open spec fn looked(w: World<AppView>, v: World<AppView>, result: Result<(), ErrorView>) -> bool {
    &&& leads_to(w, v)
    &&& same_connection(w.state.midi, v.state.midi)
    &&& settled(w.state) ==> settled(v.state)
    &&& awake_with_synthesizer(w) ==> awake_with_synthesizer(v)
    &&& result is Ok && v.state.process is None ==> at_rest(v.state) && keys_sound(v)
    &&& result is Ok && v.state.process is Some ==> v.state == AppView {
        process: Some(PianoteqProcess { has_exited: false }),
        ..w.state
    }
}

pub(crate) proof fn lemma_maybe_cleanup(w: World<AppView>)
    ensures
        w.maybe_cleanup_process() matches Run::Returned(v, result) ==> looked(w, v, result),
{
    broadcast use lemma_kept_awake;

    match w.state.process {
        None => {
            lemma_cleanup(w);
        },
        Some(_) => {
            if let Run::Returned(v, Ok(true)) = w.check_has_exited() {
                let u = v.with_process(None);
                lemma_cleanup(u.ask(AskView::ReleaseProcess).taken());
            }
        },
    }
}

/// When the synthesizer has ended, it and what kept the computer awake for it are let go of
/// before anything else is asked for. Then the standard volume is set, and the keys of the
/// piano sound by themselves.
pub proof fn an_ended_synthesizer_is_let_go_of(w: World<AppView>)
    requires
        w.state.process == Some(PianoteqProcess { has_exited: false }),
        w.replies.len() > 0,
        w.replies[0] == ReplyView::Exited(true),
    ensures
        w.maybe_cleanup_process() matches Run::Returned(v, result) ==> {
            &&& v.asked.len() >= w.asked.len() + 2
            &&& v.asked[w.asked.len() as int] == AskView::TryWait
            &&& v.asked[w.asked.len() as int + 1] == AskView::ReleaseProcess
            &&& at_rest(v.state)
            &&& keys_sound(v)
        },
{
    let u = w.ask(AskView::TryWait).taken().with_process(None).ask(AskView::ReleaseProcess);
    lemma_cleanup(u.taken());
    if let Run::Returned(v, _) = w.maybe_cleanup_process() {
        assert(w.maybe_cleanup_process() == u.taken().do_process_cleanup());
        assert(grew(u.asked, v.asked));
        assert(u.asked[w.asked.len() as int] == AskView::TryWait);
        assert(u.asked[w.asked.len() as int + 1] == AskView::ReleaseProcess);
    }
}

/// Without a synthesizer nobody counts as idle, so that the computer is not put to sleep for
/// want of playing.
pub proof fn without_a_synthesizer_nobody_is_idle(w: World<AppView>, now: u128)
    ensures
        w.maybe_cleanup_process() matches Run::Returned(v, Ok(_)) ==> (v.state.process is None
            ==> !v.state.is_idle(now)),
{
    lemma_maybe_cleanup(w);
}

/// What the end of the synthesizer comes to.
pub open spec fn ended(w: World<AppView>, v: World<AppView>, result: Result<(), ErrorView>) -> bool {
    &&& leads_to(w, v)
    &&& same_connection(w.state.midi, v.state.midi)
    &&& settled(w.state) ==> settled(v.state)
    &&& awake_with_synthesizer(w) ==> awake_with_synthesizer(v)
    &&& result is Ok ==> at_rest(v.state) && keys_sound(v)
}

proof fn lemma_wait_for_exit(w: World<AppView>)
    ensures
        w.wait_for_exit() matches Run::Returned(v, result) ==> ended(w, v, result),
    decreases w.replies.len(),
{
    broadcast use lemma_kept_awake;

    match w.state.process {
        None => {
            lemma_maybe_cleanup(w);
        },
        Some(_) => {
            if let Run::Returned(v, Ok(exited)) = w.check_has_exited() {
                lemma_maybe_cleanup(v);
                if !exited {
                    if let Run::Returned(u, Ok(_)) = v.maybe_cleanup_process() {
                        let x = u.ask(AskView::Sleep(RETRY_MILLIS));
                        if x.replies.len() > 0 {
                            lemma_wait_for_exit(x.taken());
                        }
                    }
                }
            }
        },
    }
}

/// The end of the synthesizer begins with a signal to it, where there is one. Once it has
/// ended, the standard volume is set, and the keys of the piano sound by themselves.
pub proof fn the_synthesizer_is_ended(w: World<AppView>)
    ensures
        w.terminate_and_wait() matches Run::Returned(v, result) ==> {
            &&& w.state.process is Some ==> v.asked.len() > w.asked.len()
                && v.asked[w.asked.len() as int] == AskView::Signal(process::SIGTERM)
            &&& result is Ok ==> at_rest(v.state) && keys_sound(v)
        },
{
    lemma_terminate_and_wait(w);
}

pub(crate) proof fn lemma_terminate_and_wait(w: World<AppView>)
    ensures
        w.terminate_and_wait() matches Run::Returned(v, result) ==> ended(w, v, result) && (
        w.state.process is Some ==> v.asked.len() > w.asked.len() && v.asked[w.asked.len() as int]
            == AskView::Signal(process::SIGTERM)),
{
    broadcast use lemma_kept_awake;

    match w.state.process {
        None => {
            lemma_wait_for_exit(w);
        },
        Some(_) => {
            let u = w.ask(AskView::Signal(process::SIGTERM));
            lemma_wait_for_exit(u.taken());
            assert(u.asked[w.asked.len() as int] == AskView::Signal(process::SIGTERM));
        },
    }
}

/// The replies while the synthesizer goes on running for a number of rounds: it is looked at
/// twice, and then there is a moment's rest.
pub open spec fn still_running(rounds: nat) -> Seq<ReplyView>
    decreases rounds,
{
    if rounds == 0 {
        seq![]
    } else {
        seq![ReplyView::Exited(false), ReplyView::Exited(false), ReplyView::Done] + still_running(
            (rounds - 1) as nat,
        )
    }
}

/// What is asked for in these rounds.
pub open spec fn rounds_of_waiting(rounds: nat) -> Seq<AskView>
    decreases rounds,
{
    if rounds == 0 {
        seq![]
    } else {
        seq![AskView::TryWait, AskView::TryWait, AskView::Sleep(400)] + rounds_of_waiting(
            (rounds - 1) as nat,
        )
    }
}

/// A synthesizer that has been told to end is waited for as long as it takes: after any number
/// of rounds in which it was still running, the program waits just as it did at first, with the
/// synthesizer still its own.
pub proof fn a_running_synthesizer_is_waited_for(
    w: World<AppView>,
    rounds: nat,
    rest: Seq<ReplyView>,
)
    requires
        w.state.process == Some(PianoteqProcess { has_exited: false }),
        w.replies == still_running(rounds) + rest,
    ensures
        w.wait_for_exit() == (World {
            state: w.state,
            asked: w.asked + rounds_of_waiting(rounds),
            replies: rest,
        }).wait_for_exit(),
        rest.len() == 0 ==> w.wait_for_exit() == Run::<AppView, Result<(), ErrorView>>::Waiting(
            World {
                state: w.state,
                asked: (w.asked + rounds_of_waiting(rounds)).push(AskView::TryWait),
                replies: rest,
            },
        ),
    decreases rounds,
{
    if rounds == 0 {
        assert(w.asked + rounds_of_waiting(0) =~= w.asked);
        assert(still_running(0) + rest =~= rest);
    } else {
        let fewer = (rounds - 1) as nat;
        let later = still_running(fewer) + rest;
        assert(w.replies =~= seq![
            ReplyView::Exited(false),
            ReplyView::Exited(false),
            ReplyView::Done,
        ] + later);
        let a = w.ask(AskView::TryWait).taken();
        let b = a.ask(AskView::TryWait).taken();
        let c = b.ask(AskView::Sleep(400)).taken();
        assert(a.with_process(w.state.process) == a);
        assert(b.with_process(w.state.process) == b);
        assert(w.check_has_exited() == Run::Returned(a, Ok::<bool, ErrorView>(false)));
        assert(a.maybe_cleanup_process() == Run::Returned(b, Ok::<(), ErrorView>(())));
        assert(w.wait_for_exit() == c.wait_for_exit());
        assert(c.replies =~= later);
        a_running_synthesizer_is_waited_for(c, fewer, rest);
        assert(c.asked + rounds_of_waiting(fewer) =~= w.asked + rounds_of_waiting(rounds));
    }
}

/// No reply says that the synthesizer has ended.
pub open spec fn never_ended(replies: Seq<ReplyView>) -> bool {
    forall|i: int| 0 <= i < replies.len() ==> #[trigger] replies[i] != ReplyView::Exited(true)
}

/// All that was asked for since is what is asked for while the synthesizer is waited for.
pub open spec fn only_waits(asked: Seq<AskView>, now: Seq<AskView>) -> bool {
    grew(asked, now) && forall|i: int|
        asked.len() <= i < now.len() ==> #[trigger] now[i] == AskView::Signal(15) || now[i]
            == AskView::TryWait || now[i] == AskView::Sleep(400)
}

proof fn lemma_wait_without_end(w: World<AppView>)
    requires
        w.state.process == Some(PianoteqProcess { has_exited: false }),
        never_ended(w.replies),
    ensures
        w.wait_for_exit() matches Run::Returned(v, result) ==> result is Err && v.state == w.state
            && only_waits(w.asked, v.asked),
        w.wait_for_exit() matches Run::Waiting(v) ==> v.state == w.state && only_waits(
            w.asked,
            v.asked,
        ),
    decreases w.replies.len(),
{
    if w.replies.len() > 0 && w.replies[0] == ReplyView::Exited(false) {
        let a = w.ask(AskView::TryWait).taken();
        assert(a.with_process(w.state.process) == a);
        if a.replies.len() > 0 {
            assert(a.replies[0] == w.replies[1]);
            if a.replies[0] == ReplyView::Exited(false) {
                let b = a.ask(AskView::TryWait).taken();
                assert(b.with_process(w.state.process) == b);
                assert(a.maybe_cleanup_process() == Run::Returned(b, Ok::<(), ErrorView>(())));
                if b.replies.len() > 0 {
                    let c = b.ask(AskView::Sleep(400)).taken();
                    assert forall|i: int| 0 <= i < c.replies.len() implies #[trigger] c.replies[i]
                        != ReplyView::Exited(true) by {
                        assert(c.replies[i] == w.replies[i + 3]);
                    }
                    lemma_wait_without_end(c);
                }
            }
        }
    }
}

/// As long as no look at the synthesizer finds that it has ended, it stays the program's own:
/// whatever else the system answers, it is not let go of, nothing else is asked for, and the
/// wait does not succeed.
pub proof fn only_an_ended_synthesizer_is_let_go_of(w: World<AppView>)
    requires
        w.state.process == Some(PianoteqProcess { has_exited: false }),
        never_ended(w.replies),
    ensures
        w.terminate_and_wait() matches Run::Returned(v, result) ==> result is Err && v.state
            == w.state && only_waits(w.asked, v.asked),
        w.terminate_and_wait() matches Run::Waiting(v) ==> v.state == w.state && only_waits(
            w.asked,
            v.asked,
        ),
        w.maybe_cleanup_process() matches Run::Returned(v, _) ==> v.state == w.state && v.asked
            == w.asked.push(AskView::TryWait),
{
    let u = w.ask(AskView::Signal(15)).taken();
    if w.replies.len() > 0 {
        assert forall|i: int| 0 <= i < u.replies.len() implies #[trigger] u.replies[i]
            != ReplyView::Exited(true) by {
            assert(u.replies[i] == w.replies[i + 1]);
        }
        lemma_wait_without_end(u);
        assert(w.replies[0] != ReplyView::Exited(true));
        let a = w.ask(AskView::TryWait).taken();
        assert(a.with_process(w.state.process) == a);
    }
}

} // verus!
