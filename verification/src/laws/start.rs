//! How the synthesizer is started.

use vstd::prelude::*;

use crate::error::ErrorView;
use crate::laws::ending::{
    at_rest, awake_with_synthesizer, grew, keys_sound, leads_to, lemma_cleanup, lemma_swap_volume,
    same_connection, settled,
};
use crate::media;
use crate::process::{self, PianoteqProcess};
use crate::program::{AppView, START_NOTE, START_VELOCITY};
use crate::protocol::{AskView, ReplyView, Run, World};

verus! {

/// A synthesizer that is running is not started again.
pub proof fn a_running_synthesizer_is_left_alone(w: World<AppView>)
    requires
        w.state.process is Some,
    ensures
        w.start_process() == Run::Returned(w, Ok::<(), ErrorView>(())),
{
}

/// What is asked for before the media are paused: a note as a confirmation, struck and let
/// go, and that the keys do not sound by themselves any more, where the piano can be reached.
pub open spec fn greeting(state: AppView) -> Seq<AskView> {
    match state.midi_out() {
        Some(midi_out) => seq![
            AskView::SendMidi(midi_out.note(60, 80, true)),
            AskView::SendMidi(midi_out.note(60, 80, false)),
            AskView::SendMidi(midi_out.local_control(false)),
        ],
        None => seq![],
    }
}

/// The media were paused, says the reply to the request.
pub open spec fn says_paused(reply: ReplyView) -> bool {
    reply matches ReplyView::Output { status, stderr, .. } && media::media_paused(
        status.success,
        stderr,
    )
}

/// What the start from the pause of the media on comes to.
spec fn started(w: World<AppView>, v: World<AppView>, result: Result<(), ErrorView>) -> bool {
    &&& leads_to(w, v)
    &&& v.asked.len() > w.asked.len()
    &&& v.asked[w.asked.len() as int] == AskView::Capture(media::pause_command())
    &&& v.state.midi == w.state.midi
    &&& result is Err ==> v.state.process == w.state.process
    &&& result is Ok ==> {
        &&& v.state.process == Some(PianoteqProcess { has_exited: false })
        &&& v.asked.len() >= w.asked.len() + 3
        &&& v.asked[v.asked.len() - 2] == AskView::Spawn(w.state.program)
        &&& v.asked.last() == AskView::StayAwake(process::wake_lock())
        &&& w.replies.len() > 0
        &&& v.state.volume.swapped == (w.state.volume.swapped || says_paused(w.replies[0]))
        &&& !w.state.volume.swapped && v.state.volume.swapped
            ==> v.state.volume.standard_volume is Some
    }
}

proof fn lemma_spawn(w: World<AppView>)
    ensures
        w.spawn() matches Run::Returned(v, result) ==> {
            &&& leads_to(w, v)
            &&& v.state.midi == w.state.midi
            &&& v.state.volume == w.state.volume
            &&& result is Err ==> v.state.process == w.state.process
            &&& result is Ok ==> {
                &&& v.state.process == Some(PianoteqProcess { has_exited: false })
                &&& v.asked == w.asked.push(AskView::Spawn(w.state.program)).push(
                    AskView::StayAwake(process::wake_lock()),
                )
            }
        },
{
}

proof fn lemma_pause_media(w: World<AppView>)
    ensures
        w.pause_media() matches Run::Returned(v, result) ==> started(w, v, result),
{
    let u = w.ask(AskView::Capture(media::pause_command()));
    let x = u.taken();
    assert(u.asked[w.asked.len() as int] == AskView::Capture(media::pause_command()));
    if w.replies.len() > 0 {
        lemma_spawn(x);
        if says_paused(w.replies[0]) {
            lemma_swap_volume(x, true);
            if let Run::Returned(y, Ok(_)) = x.swap_volume(true) {
                lemma_spawn(y);
            }
        }
    }
}

/// What a first start comes to.
spec fn first_started(w: World<AppView>, v: World<AppView>, result: Result<(), ErrorView>) -> bool {
    &&& leads_to(w, v)
    &&& v.state.midi == w.state.midi
    &&& result is Err ==> v.state.process == w.state.process
    &&& result is Ok ==> {
        let n = w.asked.len() as int;
        let k = greeting(w.state).len() as int;
        &&& v.state.process == Some(PianoteqProcess { has_exited: false })
        &&& v.asked.len() >= n + k + 3
        &&& v.asked.subrange(n, n + k) == greeting(w.state)
        &&& v.asked[n + k] == AskView::Capture(media::pause_command())
        &&& v.asked[v.asked.len() - 2] == AskView::Spawn(w.state.program)
        &&& v.asked.last() == AskView::StayAwake(process::wake_lock())
        &&& w.replies.len() > k
        &&& v.state.volume.swapped == (w.state.volume.swapped || says_paused(w.replies[k]))
        &&& !w.state.volume.swapped && v.state.volume.swapped
            ==> v.state.volume.standard_volume is Some
    }
}

proof fn lemma_touch_on(w: World<AppView>)
    ensures
        w.touch_on() matches Run::Returned(v, result) ==> first_started(w, v, result),
{
    match w.state.midi_out() {
        None => {
            lemma_pause_media(w);
            if let Run::Returned(v, Ok(_)) = w.touch_on() {
                let n = w.asked.len() as int;
                assert(v.asked.subrange(n, n) =~= seq![]);
            }
        },
        Some(midi_out) => {
            let a = w.ask(AskView::SendMidi(midi_out.note(START_NOTE, START_VELOCITY, true))).taken();
            let b = a.ask(
                AskView::SendMidi(midi_out.note(START_NOTE, START_VELOCITY, false)),
            ).taken();
            let c = b.ask(AskView::SendMidi(midi_out.local_control(false))).taken();
            lemma_pause_media(c);
            if let Run::Returned(v, Ok(_)) = w.touch_on() {
                let n = w.asked.len() as int;
                assert(w.touch_on() == c.pause_media());
                assert(c.asked[n] == greeting(w.state)[0]);
                assert(c.asked[n + 1] == greeting(w.state)[1]);
                assert(c.asked[n + 2] == greeting(w.state)[2]);
                assert(v.asked.subrange(n, n + 3) =~= greeting(w.state));
                assert(c.replies[0] == w.replies[3]);
            }
        },
    }
}

/// A start that succeeds begins with the confirmation, pauses the media, and ends with the
/// program running and the computer kept awake. The volume for playing is set where, and only
/// where, the media were paused.
pub proof fn a_start_comes_in_order(w: World<AppView>)
    requires
        w.state.process is None,
        settled(w.state),
    ensures
        w.start_process() matches Run::Returned(v, Ok(_)) ==> {
            let n = w.asked.len() as int;
            let k = greeting(w.state).len() as int;
            &&& v.state.process == Some(PianoteqProcess { has_exited: false })
            &&& v.state.midi == w.state.midi
            &&& grew(w.asked + greeting(w.state), v.asked)
            &&& v.asked.len() >= n + k + 3
            &&& v.asked[n + k] == AskView::Capture(media::pause_command())
            &&& v.asked[v.asked.len() - 2] == AskView::Spawn(w.state.program)
            &&& v.asked.last() == AskView::StayAwake(process::wake_lock())
            &&& w.replies.len() > k
            &&& v.state.volume.swapped <==> says_paused(w.replies[k])
        },
{
    lemma_touch_on(w);
    if let Run::Returned(v, Ok(_)) = w.start_process() {
        let n = w.asked.len() as int;
        let k = greeting(w.state).len() as int;
        assert(w.start_process() == w.touch_on());
        let said = w.asked + greeting(w.state);
        assert forall|i: int| 0 <= i < said.len() implies #[trigger] v.asked[i] == said[i] by {
            if i >= n {
                assert(v.asked.subrange(n, n + k)[i - n] == v.asked[i]);
            }
        }
    }
}

pub(crate) proof fn lemma_start_process(w: World<AppView>)
    ensures
        w.start_process() matches Run::Returned(v, result) ==> {
            &&& leads_to(w, v)
            &&& same_connection(w.state.midi, v.state.midi)
            &&& settled(w.state) ==> settled(v.state)
            &&& result is Ok ==> v.state.process is Some && v.state.midi == w.state.midi
            &&& result is Ok && awake_with_synthesizer(w) ==> awake_with_synthesizer(v)
            &&& result is Err ==> at_rest(v.state) && keys_sound(v)
        },
{
    if w.state.process is None {
        lemma_touch_on(w);
        if let Run::Returned(v, Err(e)) = w.touch_on() {
            lemma_cleanup(v);
        }
    }
}

/// A start that is over has asked for something.
pub(crate) proof fn lemma_start_asks_first(w: World<AppView>)
    requires
        w.state.process is None,
    ensures
        w.start_process() matches Run::Returned(v, _) ==> v.asked.len() > w.asked.len(),
{
    lemma_pause_media(w);
    if let Run::Returned(v, _) = w.touch_on() {
        lemma_cleanup(v);
        if let Some(midi_out) = w.state.midi_out() {
            let a = w.ask(
                AskView::SendMidi(midi_out.note(START_NOTE, START_VELOCITY, true)),
            ).taken();
            let b = a.ask(
                AskView::SendMidi(midi_out.note(START_NOTE, START_VELOCITY, false)),
            ).taken();
            lemma_pause_media(b.ask(AskView::SendMidi(midi_out.local_control(false))).taken());
        }
    }
}

/// A start that fails is undone: there is no synthesizer, the standard volume is set, and the
/// keys of the piano sound by themselves.
pub proof fn a_failed_start_is_undone(w: World<AppView>)
    ensures
        w.start_process() matches Run::Returned(v, Err(_)) ==> at_rest(v.state) && keys_sound(v),
{
    lemma_start_process(w);
}

} // verus!
