//! The program as it waits for one reply after another.

use vstd::prelude::*;

use crate::connection::{MidiConnection, MidiTickAction};
use crate::error::{viewed, ErrorView, MidiStartPrgError};
use crate::media::{self, PauseOutcome};
use crate::midi_in::MidiMsg;
use crate::midi_out::{MidiOut, OpenTurn, Opening};
use crate::process::{self, PianoteqProcess};
use crate::program::{
    self, AppView, Outcome, TickOutcome, RECEIVE_MILLIS, RETRY_MILLIS, SETTLE_MILLIS, START_NOTE,
    START_VELOCITY,
};
use crate::protocol::{fits, followed, lemma_followed, Ask, AskView, Reply, ReplyView, Run, World};
use crate::text;
use crate::volume::{Volume, VolumeStep, VolumeTurn, VolumeView};

verus! {

/// What the program is told when it starts.
#[derive(Debug)]
pub struct Args {
    /// How the names of the piano's ports begin.
    pub device_prefix: String,
    /// The synthesizer to start.
    pub program: String,
    /// The seconds after which the computer sleeps.
    pub idle: u64,
}

/// What comes after the end of the synthesizer.
enum TerminateThen {
    Stop { shutdown: bool, idle: bool },
    Sleep { again: bool },
}

/// What comes after a look at the synthesizer.
enum MaybeThen {
    Tick,
    Loop(TerminateThen),
    Last(TerminateThen),
}

/// What comes after a cleanup.
enum CleanupThen {
    Fail(MidiStartPrgError),
    Maybe(MaybeThen),
}

/// What comes after a change of the volume.
enum VolumeThen {
    Start,
    Cleanup(CleanupThen),
}

impl TerminateThen {
    /// How often the end of the synthesizer is waited for after this.
    spec fn rank(self) -> nat {
        match self {
            TerminateThen::Stop { .. } => 1,
            TerminateThen::Sleep { .. } => 0,
        }
    }

    #[verifier::opaque]
    spec fn goes_on(self, run: Outcome) -> TickOutcome {
        match self {
            TerminateThen::Stop { shutdown, idle } => run.then_stopped(shutdown, idle),
            TerminateThen::Sleep { again } => run.then_sleep().then_end(again),
        }
    }
}

impl MaybeThen {
    /// How often the end of the synthesizer is waited for after this, before the next reply.
    spec fn rank(self) -> nat {
        match self {
            MaybeThen::Tick => 0,
            MaybeThen::Loop(k) => k.rank(),
            MaybeThen::Last(k) => k.rank(),
        }
    }

    #[verifier::opaque]
    spec fn goes_on(self, run: Outcome) -> TickOutcome {
        match self {
            MaybeThen::Tick => run.then_observe(),
            MaybeThen::Loop(k) => k.goes_on(run.then_wait_longer()),
            MaybeThen::Last(k) => k.goes_on(run),
        }
    }
}

impl CleanupThen {
    /// How often the end of the synthesizer is waited for after this, before the next reply.
    spec fn rank(self) -> nat {
        match self {
            CleanupThen::Fail(_) => 0,
            CleanupThen::Maybe(k) => k.rank(),
        }
    }

    #[verifier::opaque]
    spec fn goes_on(self, run: Outcome) -> TickOutcome {
        match self {
            CleanupThen::Fail(e) => run.then_fail(e@).then_end(true),
            CleanupThen::Maybe(k) => k.goes_on(run),
        }
    }
}

impl VolumeThen {
    #[verifier::opaque]
    spec fn goes_on(self, run: Outcome) -> TickOutcome {
        match self {
            VolumeThen::Start => run.then_spawn().or_undo().then_end(true),
            VolumeThen::Cleanup(k) => k.goes_on(run.then_restore()),
        }
    }
}

/// How a procedure goes with the reply to the first thing that it asks for, and no other:
/// it is stuck where the reply is no answer, and else it has taken it.
spec fn tried<T>(run: Run<AppView, T>, answered: bool) -> bool {
    match run {
        Run::Waiting(_) => answered,
        Run::Stuck => !answered,
        Run::Returned(w, _) => answered && w.replies.len() == 0,
    }
}

impl TerminateThen {
    proof fn lemma_tried(self, run: Outcome)
        requires
            tried(run, !(run is Stuck)),
        ensures
            self.goes_on(run) is Stuck <==> run is Stuck,
    {
        reveal(TerminateThen::goes_on);
    }
}

impl MaybeThen {
    proof fn lemma_tried(self, run: Outcome)
        requires
            tried(run, !(run is Stuck)),
        ensures
            self.goes_on(run) is Stuck <==> run is Stuck,
    {
        reveal(MaybeThen::goes_on);
        match self {
            MaybeThen::Tick => {},
            MaybeThen::Loop(k) => {
                k.lemma_tried(run.then_wait_longer());
            },
            MaybeThen::Last(k) => {
                k.lemma_tried(run);
            },
        }
    }
}

impl CleanupThen {
    proof fn lemma_tried(self, run: Outcome)
        requires
            tried(run, !(run is Stuck)),
        ensures
            self.goes_on(run) is Stuck <==> run is Stuck,
    {
        reveal(CleanupThen::goes_on);
        match self {
            CleanupThen::Fail(_) => {},
            CleanupThen::Maybe(k) => {
                k.lemma_tried(run);
            },
        }
    }
}

impl VolumeThen {
    proof fn lemma_tried(self, run: Outcome)
        requires
            tried(run, !(run is Stuck)),
        ensures
            self.goes_on(run) is Stuck <==> run is Stuck,
    {
        reveal(VolumeThen::goes_on);
        match self {
            VolumeThen::Start => {},
            VolumeThen::Cleanup(k) => {
                k.lemma_tried(run.then_restore());
            },
        }
    }
}

/// What the program waits for, and what comes then.
enum Step {
    /// Nothing: it is between two ticks.
    Ready,
    /// Whether the synthesizer has ended.
    Exit(MaybeThen),
    /// The release of the synthesizer.
    Release(MaybeThen),
    /// The volume.
    Volume(VolumeStep, VolumeThen),
    /// The message that lets the keys sound by themselves.
    LocalControl(Result<(), MidiStartPrgError>, CleanupThen),
    /// The signal to the synthesizer.
    Signal(TerminateThen),
    /// Whether the synthesizer has ended, since it was told to.
    LoopExit(TerminateThen),
    /// A moment, before the next look at the synthesizer.
    LoopSleep(TerminateThen),
    /// The end of the connection, before the computer sleeps.
    Close { result: Result<(), MidiStartPrgError>, again: bool },
    /// A moment, before the computer sleeps.
    Settle { again: bool },
    /// Sleep.
    Suspend { again: bool },
    /// The note that confirms the start.
    TouchOn,
    /// Its end.
    TouchOff(MidiOut),
    /// The message that keeps the keys from sounding by themselves.
    LocalOff(MidiOut),
    /// A pause of what is playing.
    Pause,
    /// The start of the synthesizer.
    Spawn,
    /// The lock that keeps the computer awake.
    Awake,
    /// The time, and whether to stop.
    Observe,
    /// The number of input ports.
    OpenInputs,
    /// The name of an input port.
    InputName { port: usize, count: usize },
    /// The output that goes with an input port.
    OpenOutput { port: usize, name: String, opening: Opening },
    /// The connection to an input port.
    ConnectInput { port: usize, input: Ghost<Seq<char>>, midi_out: Option<MidiOut> },
    /// A moment, before the next search for the piano.
    Retry,
    /// A message.
    Receive,
    /// The end of a silent connection.
    GiveUp,
}

impl Step {
    /// What is left to do of the tick, from what is waited for on.
    spec fn rest(self, w: World<AppView>) -> TickOutcome {
        match self {
            Step::Ready => Run::Stuck,
            Step::Exit(k) => k.goes_on(w.maybe_cleanup_process()),
            Step::Release(k) => k.goes_on(w.release_process()),
            Step::Volume(step, k) => k.goes_on(w.on_volume(step.rest(w.with(w.state.volume)))),
            Step::LocalControl(swapped, k) => k.goes_on(w.restore_local_control(viewed(swapped))),
            Step::Signal(k) => k.goes_on(w.terminate_and_wait()),
            Step::LoopExit(k) => k.goes_on(w.wait_for_exit()),
            Step::LoopSleep(k) => k.goes_on(w.wait_longer()),
            Step::Close { result, again } => w.close_and_sleep(viewed(result)).then_end(again),
            Step::Settle { again } => w.systemctl_suspend().or_stay_awake().then_end(again),
            Step::Suspend { again } => w.run_suspend().or_stay_awake().then_end(again),
            Step::TouchOn => w.touch_on().or_undo().then_end(true),
            Step::TouchOff(midi_out) => w.touch_off(midi_out).or_undo().then_end(true),
            Step::LocalOff(midi_out) => w.release_local_control(midi_out).or_undo().then_end(true),
            Step::Pause => w.pause_media().or_undo().then_end(true),
            Step::Spawn => w.spawn().or_undo().then_end(true),
            Step::Awake => w.stay_awake().or_undo().then_end(true),
            Step::Observe => w.observe(),
            Step::OpenInputs => w.open_inputs().then_receive(),
            Step::InputName { port, count } => w.find_input(port, count).then_receive(),
            Step::OpenOutput { port, name, opening } => w.on_nothing(
                opening.rest(w.with(())),
            ).then_connect(port, name@).then_receive(),
            Step::ConnectInput { port, input, midi_out } => w.connect_input(
                port,
                input@,
                midi_out,
            ).then_receive(),
            Step::Retry => w.retry_later(),
            Step::Receive => w.receive(),
            Step::GiveUp => w.give_up_midi(),
        }
    }

    /// What is waited for.
    spec fn pending(self, state: AppView) -> AskView {
        match self {
            Step::Ready => arbitrary(),
            Step::Exit(_) => AskView::TryWait,
            Step::Release(_) => AskView::ReleaseProcess,
            Step::Volume(step, _) => step.pending(state.volume),
            Step::LocalControl(..) => AskView::SendMidi(state.midi_out()->0.local_control(true)),
            Step::Signal(_) => AskView::Signal(process::SIGTERM),
            Step::LoopExit(_) => AskView::TryWait,
            Step::LoopSleep(_) => AskView::Sleep(RETRY_MILLIS),
            Step::Close { .. } => AskView::CloseMidi,
            Step::Settle { .. } => AskView::Sleep(SETTLE_MILLIS),
            Step::Suspend { .. } => AskView::Run(media::suspend_command()),
            Step::TouchOn => AskView::SendMidi(
                state.midi_out()->0.note(START_NOTE, START_VELOCITY, true),
            ),
            Step::TouchOff(midi_out) => AskView::SendMidi(
                midi_out.note(START_NOTE, START_VELOCITY, false),
            ),
            Step::LocalOff(midi_out) => AskView::SendMidi(midi_out.local_control(false)),
            Step::Pause => AskView::Capture(media::pause_command()),
            Step::Spawn => AskView::Spawn(state.program),
            Step::Awake => AskView::StayAwake(process::wake_lock()),
            Step::Observe => AskView::Observe,
            Step::OpenInputs => AskView::OpenInputs(program::input_client()),
            Step::InputName { port, .. } => AskView::InputName(port),
            Step::OpenOutput { opening, .. } => opening.pending(),
            Step::ConnectInput { port, input, .. } => AskView::ConnectInput(port, input@),
            Step::Retry => AskView::Sleep(RETRY_MILLIS),
            Step::Receive => AskView::Receive(RECEIVE_MILLIS),
            Step::GiveUp => AskView::CloseMidi,
        }
    }

    /// The step belongs to the state.
    spec fn wf(self, state: AppView) -> bool {
        match self {
            Step::Exit(_) | Step::LoopExit(_) => state.process matches Some(process)
                && !process.has_exited,
            Step::Volume(step, _) => step.wf(state.volume),
            Step::LocalControl(..) | Step::TouchOn => state.midi_out() is Some,
            Step::Signal(_) => state.process is Some,
            Step::InputName { port, count } => port < count,
            Step::OpenOutput { opening, .. } => opening.wf(),
            Step::Receive => state.midi is Some,
            _ => true,
        }
    }

    /// The reply is an answer that the step can go on from.
    spec fn answered_by(self, state: AppView, reply: ReplyView) -> bool {
        match self {
            Step::Ready => false,
            Step::Exit(_) | Step::LoopExit(_) => reply is Exited || reply is Failed,
            Step::Release(_)
            | Step::LoopSleep(_)
            | Step::Close { .. }
            | Step::Settle { .. }
            | Step::Retry
            | Step::GiveUp => reply is Done,
            Step::Volume(step, _) => step.accepts(state.volume, reply),
            Step::LocalControl(..)
            | Step::Signal(_)
            | Step::TouchOn
            | Step::TouchOff(_)
            | Step::LocalOff(_)
            | Step::Spawn
            | Step::Awake => reply is Done || reply is Failed,
            Step::Suspend { .. } => reply is Status || reply is Failed,
            Step::Pause => reply is Output || reply is Failed,
            Step::Observe => reply is Observed,
            Step::OpenInputs => reply is Ports || reply is Failed,
            Step::InputName { .. } => reply is Name || reply is Failed,
            Step::OpenOutput { opening, .. } => opening.accepts(reply),
            Step::ConnectInput { .. } => reply is Connected || reply is Failed,
            Step::Receive => reply is Message || reply is Garbled || reply is Silence,
        }
    }
}

/// With no reply, a cleanup is not stuck.
proof fn lemma_cleanup_unanswered(w: World<AppView>)
    requires
        w.replies.len() == 0,
    ensures
        tried(w.do_process_cleanup(), true),
        tried(w.maybe_cleanup_process(), true),
        tried(w.wait_for_exit(), true),
{
    assert(tried(w.do_process_cleanup(), true));
    assert(tried(w.release_process(), true));
    assert(tried(w.maybe_cleanup_process(), true));
}

impl Step {
    /// A step that has to do with the end of the synthesizer.
    proof fn lemma_end_answered_by(self, w: World<AppView>, reply: ReplyView)
        requires
            self is Exit || self is Release || self is Signal || self is LoopExit
                || self is LoopSleep,
            self.wf(w.state),
            w.replies == seq![reply],
        ensures
            self.rest(w) is Stuck <==> !self.answered_by(w.state, reply),
    {
        let answered = self.answered_by(w.state, reply);
        assert(w.replies.skip(1) =~= seq![]);
        let v = w.ask(self.pending(w.state)).taken();
        match self {
            Step::Exit(k) => {
                lemma_cleanup_unanswered(v.with_process(None));
                assert(tried(w.maybe_cleanup_process(), answered));
                k.lemma_tried(w.maybe_cleanup_process());
            },
            Step::Release(k) => {
                lemma_cleanup_unanswered(v);
                assert(tried(w.release_process(), answered));
                k.lemma_tried(w.release_process());
            },
            Step::Signal(k) => {
                lemma_cleanup_unanswered(v);
                assert(tried(w.terminate_and_wait(), answered));
                k.lemma_tried(w.terminate_and_wait());
            },
            Step::LoopExit(k) => {
                if let ReplyView::Exited(has_exited) = reply {
                    lemma_cleanup_unanswered(
                        v.with_process(Some(PianoteqProcess { has_exited })),
                    );
                }
                assert(tried(w.wait_for_exit(), answered));
                k.lemma_tried(w.wait_for_exit());
            },
            Step::LoopSleep(k) => {
                lemma_cleanup_unanswered(v);
                assert(tried(w.wait_longer(), answered));
                k.lemma_tried(w.wait_longer());
            },
            _ => {},
        }
    }

    /// A step that has to do with the start of the synthesizer.
    proof fn lemma_start_answered_by(self, w: World<AppView>, reply: ReplyView)
        requires
            self is TouchOn || self is TouchOff || self is LocalOff || self is Pause || self
                is Spawn || self is Awake,
            self.wf(w.state),
            w.replies == seq![reply],
        ensures
            self.rest(w) is Stuck <==> !self.answered_by(w.state, reply),
    {
        let answered = self.answered_by(w.state, reply);
        assert(w.replies.skip(1) =~= seq![]);
        let v = w.ask(self.pending(w.state)).taken();
        lemma_cleanup_unanswered(v);
        match self {
            Step::TouchOn => {
                assert(tried(w.touch_on(), answered));
            },
            Step::TouchOff(midi_out) => {
                assert(tried(w.touch_off(midi_out), answered));
            },
            Step::LocalOff(midi_out) => {
                assert(tried(w.release_local_control(midi_out), answered));
            },
            Step::Pause => {
                assert(tried(v.swap_volume(true), true));
                assert(tried(v.swap_volume(true).then_spawn(), true));
                assert(!(v.swap_volume(true).then_spawn().or_undo() is Stuck));
                assert(tried(w.pause_media(), answered));
            },
            Step::Spawn => {
                assert(tried(w.spawn(), answered));
            },
            Step::Awake => {
                assert(tried(w.stay_awake(), answered));
            },
            _ => {},
        }
    }

    /// A step goes on from a reply where it is an answer, and only there.
    proof fn lemma_answered_by(self, w: World<AppView>, reply: ReplyView)
        requires
            !(self is Ready),
            self.wf(w.state),
            w.replies == seq![reply],
        ensures
            self.rest(w) is Stuck <==> !self.answered_by(w.state, reply),
    {
        let answered = self.answered_by(w.state, reply);
        assert(w.replies.skip(1) =~= seq![]);
        let v = w.ask(self.pending(w.state)).taken();
        match self {
            Step::Exit(_)
            | Step::Release(_)
            | Step::Signal(_)
            | Step::LoopExit(_)
            | Step::LoopSleep(_) => {
                self.lemma_end_answered_by(w, reply);
            },
            Step::TouchOn
            | Step::TouchOff(_)
            | Step::LocalOff(_)
            | Step::Pause
            | Step::Spawn
            | Step::Awake => {
                self.lemma_start_answered_by(w, reply);
            },
            Step::Volume(step, k) => {
                let run = step.rest(w.with(w.state.volume));
                step.lemma_accepts(w.with(w.state.volume), reply);
                k.lemma_tried(w.on_volume(run));
            },
            Step::LocalControl(swapped, k) => {
                assert(tried(w.restore_local_control(viewed(swapped)), answered));
                k.lemma_tried(w.restore_local_control(viewed(swapped)));
            },
            Step::Close { result, .. } => {
                assert(tried(w.close_and_sleep(viewed(result)), answered));
            },
            Step::InputName { .. } => {
                reveal_with_fuel(World::<_>::find_input, 2);
            },
            Step::OpenOutput { port, name, opening } => {
                let run = opening.rest(w.with(()));
                opening.lemma_accepts(w.with(()), reply);
            },
            _ => {},
        }
    }
}

/// The program.
pub struct App {
    program: String,
    device_prefix: String,
    idle_timeout: u128,
    process: Option<PianoteqProcess>,
    midi: Option<MidiConnection>,
    volume: Volume,
    step: Step,
}

/// What the program does next: it asks and waits, or the tick is over. Then it says whether
/// there is to be another.
#[derive(Debug)]
pub enum Turn {
    Asks(Ask),
    Returns(Result<bool, MidiStartPrgError>),
}

impl View for App {
    type V = AppView;

    closed spec fn view(&self) -> AppView {
        AppView {
            program: self.program@,
            device_prefix: self.device_prefix@,
            idle_timeout: self.idle_timeout,
            process: self.process,
            midi: self.midi,
            volume: self.volume@,
        }
    }
}

impl App {
    /// The program is between two ticks.
    pub closed spec fn ready(self) -> bool {
        self.step is Ready
    }

    /// The program waits for something that it can go on from.
    pub closed spec fn waiting(self) -> bool {
        !(self.step is Ready) && self.step.wf(self@)
    }

    /// What it waits for.
    pub closed spec fn pending(self) -> AskView {
        self.step.pending(self@)
    }

    /// What is left to do of the tick, from what is waited for on.
    pub closed spec fn rest(self, w: World<AppView>) -> TickOutcome {
        self.step.rest(w)
    }

    /// What is left to do of the tick after a turn.
    pub open spec fn after(self, turn: Turn, w: World<AppView>) -> TickOutcome {
        match turn {
            Turn::Asks(_) => self.rest(w),
            Turn::Returns(result) => Run::Returned(w, viewed(result)),
        }
    }

    /// After a turn, what was asked for is what is waited for.
    pub open spec fn took(self, turn: Turn) -> bool {
        match turn {
            Turn::Asks(ask) => self.waiting() && ask@ == self.pending(),
            Turn::Returns(_) => self.ready(),
        }
    }

    /// The reply is an answer that the program can go on from.
    pub open spec fn accepts(self, reply: ReplyView) -> bool {
        !(self.rest(World { state: self@, asked: seq![], replies: seq![reply] }) is Stuck)
    }

    /// The program goes on from every reply that answers what it waits for, and from no other.
    pub proof fn accepts_what_fits(self, reply: ReplyView)
        requires
            self.waiting(),
        ensures
            self.accepts(reply) <==> fits(self.pending(), reply),
    {
        self.lemma_accepts(reply);
        match self.step {
            Step::Volume(step, _) => {
                step.lemma_accepts_what_fits(self@.volume, reply);
            },
            Step::OpenOutput { opening, .. } => {
                opening.lemma_accepts_what_fits(reply);
            },
            _ => {},
        }
    }

    /// With no reply, all that is done of the rest is to ask for what is waited for.
    pub proof fn asks_for_pending(self, asked: Seq<AskView>)
        requires
            self.waiting(),
        ensures
            self.rest(World { state: self@, asked, replies: seq![] }) == Run::<
                AppView,
                Result<bool, ErrorView>,
            >::Waiting(
                World { state: self@, asked: asked.push(self.pending()), replies: seq![] },
            ),
    {
        reveal(TerminateThen::goes_on);
        reveal(MaybeThen::goes_on);
        reveal(CleanupThen::goes_on);
        reveal(VolumeThen::goes_on);
    }
}

impl App {
    /// Ends the tick.
    fn finish(&mut self, result: Result<bool, MidiStartPrgError>) -> (turn: Turn)
        ensures
            final(self).took(turn),
            forall|asked: Seq<AskView>, replies: Seq<ReplyView>| #[trigger]
                final(self).after(turn, World { state: final(self)@, asked, replies })
                    == Run::<AppView, Result<bool, ErrorView>>::Returned(
                    World { state: old(self)@, asked, replies },
                    viewed(result),
                ),
    {
        self.step = Step::Ready;
        Turn::Returns(result)
    }

    /// Waits for something.
    fn wait(&mut self, step: Step, ask: Ask) -> (turn: Turn)
        requires
            !(step is Ready),
            step.wf(old(self)@),
            ask@ == step.pending(old(self)@),
        ensures
            final(self).took(turn),
            forall|asked: Seq<AskView>, replies: Seq<ReplyView>| #[trigger]
                final(self).after(turn, World { state: final(self)@, asked, replies })
                    == step.rest(World { state: old(self)@, asked, replies }),
    {
        self.step = step;
        Turn::Asks(ask)
    }

    /// Ends the synthesizer, closes the connection to the piano, and puts the computer to sleep.
    fn suspend(&mut self, again: bool) -> (turn: Turn)
        ensures
            final(self).took(turn),
            forall|asked: Seq<AskView>, replies: Seq<ReplyView>| #[trigger]
                final(self).after(turn, World { state: final(self)@, asked, replies })
                    == (World { state: old(self)@, asked, replies }).suspend().then_end(again),
        decreases 0nat, 9nat,
    {
        proof {
            reveal(TerminateThen::goes_on);
        }
        self.terminate_and_wait(TerminateThen::Sleep { again })
    }

    /// Goes on after the end of the synthesizer.
    fn after_terminate(
        &mut self,
        k: TerminateThen,
        result: Result<(), MidiStartPrgError>,
    ) -> (turn: Turn)
        ensures
            final(self).took(turn),
            forall|asked: Seq<AskView>, replies: Seq<ReplyView>| #[trigger]
                final(self).after(turn, World { state: final(self)@, asked, replies })
                    == k.goes_on(
                    Run::Returned(World { state: old(self)@, asked, replies }, viewed(result)),
                ),
        decreases k.rank(), 1nat,
    {
        proof {
            reveal(TerminateThen::goes_on);
        }
        match (k, result) {
            (TerminateThen::Stop { .. }, Err(e)) => self.finish(Err(e)),
            (TerminateThen::Stop { shutdown, idle: true }, Ok(_)) => self.suspend(!shutdown),
            (TerminateThen::Stop { shutdown, idle: false }, Ok(_)) => self.finish(Ok(!shutdown)),
            (TerminateThen::Sleep { again }, result) => {
                self.midi = None;
                self.wait(Step::Close { result, again }, Ask::CloseMidi)
            },
        }
    }

    /// Goes on after a look at the synthesizer.
    fn after_maybe(
        &mut self,
        k: MaybeThen,
        result: Result<(), MidiStartPrgError>,
    ) -> (turn: Turn)
        ensures
            final(self).took(turn),
            forall|asked: Seq<AskView>, replies: Seq<ReplyView>| #[trigger]
                final(self).after(turn, World { state: final(self)@, asked, replies })
                    == k.goes_on(
                    Run::Returned(World { state: old(self)@, asked, replies }, viewed(result)),
                ),
        decreases k.rank(), 2nat,
    {
        proof {
            reveal(TerminateThen::goes_on);
            reveal(MaybeThen::goes_on);
        }
        match (k, result) {
            (MaybeThen::Tick, Ok(_)) => self.wait(Step::Observe, Ask::Observe),
            (MaybeThen::Tick, Err(e)) => self.finish(Err(e)),
            (MaybeThen::Loop(k), Ok(_)) => self.wait(Step::LoopSleep(k), Ask::Sleep(RETRY_MILLIS)),
            (MaybeThen::Loop(k), Err(e)) => self.after_terminate(k, Err(e)),
            (MaybeThen::Last(k), result) => self.after_terminate(k, result),
        }
    }

    /// Goes on after a cleanup.
    fn after_cleanup(
        &mut self,
        k: CleanupThen,
        result: Result<(), MidiStartPrgError>,
    ) -> (turn: Turn)
        ensures
            final(self).took(turn),
            forall|asked: Seq<AskView>, replies: Seq<ReplyView>| #[trigger]
                final(self).after(turn, World { state: final(self)@, asked, replies })
                    == k.goes_on(
                    Run::Returned(World { state: old(self)@, asked, replies }, viewed(result)),
                ),
        decreases k.rank(), 3nat,
    {
        proof {
            reveal(CleanupThen::goes_on);
        }
        match (k, result) {
            (CleanupThen::Fail(e), Ok(_)) => self.finish(Err(e)),
            (CleanupThen::Fail(_), Err(e)) => self.finish(Err(e)),
            (CleanupThen::Maybe(k), result) => self.after_maybe(k, result),
        }
    }

    /// Forgets when a key was last touched, and lets the keys of the piano sound by themselves.
    fn restore_local_control(
        &mut self,
        swapped: Result<(), MidiStartPrgError>,
        k: CleanupThen,
    ) -> (turn: Turn)
        ensures
            final(self).took(turn),
            forall|asked: Seq<AskView>, replies: Seq<ReplyView>| #[trigger]
                final(self).after(turn, World { state: final(self)@, asked, replies })
                    == k.goes_on(
                    Run::Returned(
                        World { state: old(self)@, asked, replies },
                        viewed(swapped),
                    ).then_restore(),
                ),
        decreases k.rank(), 4nat,
    {
        match self.midi {
            Some(midi) => {
                self.midi = Some(MidiConnection { last_note_instant: None, ..midi });
                match midi.midi_out {
                    Some(midi_out) => self.wait(
                        Step::LocalControl(swapped, k),
                        Ask::SendMidi(midi_out.set_local_control(true)),
                    ),
                    None => self.after_cleanup(k, swapped),
                }
            },
            None => self.after_cleanup(k, swapped),
        }
    }

    /// Undoes what was done for the synthesizer.
    fn do_process_cleanup(&mut self, k: CleanupThen) -> (turn: Turn)
        ensures
            final(self).took(turn),
            forall|asked: Seq<AskView>, replies: Seq<ReplyView>| #[trigger]
                final(self).after(turn, World { state: final(self)@, asked, replies })
                    == k.goes_on((World { state: old(self)@, asked, replies }).do_process_cleanup()),
        decreases k.rank(), 5nat,
    {
        let swap = self.volume.set_swapped(false);
        let ghost swapped = self@;
        match swap {
            VolumeTurn::Asks(step, ask) => {
                let turn = self.wait(Step::Volume(step, VolumeThen::Cleanup(k)), ask);
                assert forall|asked: Seq<AskView>, replies: Seq<ReplyView>| #[trigger]
                    self.after(turn, World { state: self@, asked, replies }) == k.goes_on(
                        (World { state: old(self)@, asked, replies }).do_process_cleanup(),
                    ) by {
                    reveal(VolumeThen::goes_on);
                    let w = World { state: old(self)@, asked, replies };
                    let v = World { state: swapped, asked, replies };
                    let r = swap.rest(World { state: swapped.volume, asked, replies });
                    assert(v.with(v.state.volume) == World { state: swapped.volume, asked, replies });
                    assert(r == w.with(w.state.volume).set_swapped(false));
                    assert(v.on_volume(r) == w.on_volume(r));
                }
                turn
            },
            VolumeTurn::Returns(result) => self.restore_local_control(result, k),
        }
    }

    /// Lets go of the synthesizer where it has ended.
    fn maybe_cleanup_process(&mut self, k: MaybeThen) -> (turn: Turn)
        ensures
            final(self).took(turn),
            forall|asked: Seq<AskView>, replies: Seq<ReplyView>| #[trigger]
                final(self).after(turn, World { state: final(self)@, asked, replies })
                    == k.goes_on((World { state: old(self)@, asked, replies }).maybe_cleanup_process()),
        decreases k.rank(), 6nat,
    {
        proof {
            reveal(CleanupThen::goes_on);
        }
        match self.process {
            Some(PianoteqProcess { has_exited: true }) => {
                self.process = None;
                self.wait(Step::Release(k), Ask::ReleaseProcess)
            },
            Some(PianoteqProcess { has_exited: false }) => self.wait(Step::Exit(k), Ask::TryWait),
            None => self.do_process_cleanup(CleanupThen::Maybe(k)),
        }
    }

    /// Waits until the synthesizer has ended.
    fn wait_for_exit(&mut self, k: TerminateThen) -> (turn: Turn)
        ensures
            final(self).took(turn),
            forall|asked: Seq<AskView>, replies: Seq<ReplyView>| #[trigger]
                final(self).after(turn, World { state: final(self)@, asked, replies })
                    == k.goes_on((World { state: old(self)@, asked, replies }).wait_for_exit()),
        decreases k.rank(), 7nat,
    {
        proof {
            reveal(MaybeThen::goes_on);
        }
        match self.process {
            Some(PianoteqProcess { has_exited: false }) => self.wait(
                Step::LoopExit(k),
                Ask::TryWait,
            ),
            _ => self.maybe_cleanup_process(MaybeThen::Last(k)),
        }
    }

    /// Asks the synthesizer to end, and waits until it has.
    fn terminate_and_wait(&mut self, k: TerminateThen) -> (turn: Turn)
        ensures
            final(self).took(turn),
            forall|asked: Seq<AskView>, replies: Seq<ReplyView>| #[trigger]
                final(self).after(turn, World { state: final(self)@, asked, replies })
                    == k.goes_on((World { state: old(self)@, asked, replies }).terminate_and_wait()),
        decreases k.rank(), 8nat,
    {
        if self.process.is_some() {
            self.wait(Step::Signal(k), Ask::Signal(process::SIGTERM))
        } else {
            self.wait_for_exit(k)
        }
    }

    /// Undoes what was done for a start that failed.
    fn start_failed(&mut self, e: MidiStartPrgError) -> (turn: Turn)
        ensures
            final(self).took(turn),
            forall|asked: Seq<AskView>, replies: Seq<ReplyView>| #[trigger]
                final(self).after(turn, World { state: final(self)@, asked, replies })
                    == Run::Returned(
                    World { state: old(self)@, asked, replies },
                    Err(e@),
                ).or_undo().then_end(true),
    {
        proof {
            reveal(CleanupThen::goes_on);
        }
        self.do_process_cleanup(CleanupThen::Fail(e))
    }

    /// Starts the program of the synthesizer.
    fn spawn(&mut self) -> (turn: Turn)
        ensures
            final(self).took(turn),
            forall|asked: Seq<AskView>, replies: Seq<ReplyView>| #[trigger]
                final(self).after(turn, World { state: final(self)@, asked, replies })
                    == (World { state: old(self)@, asked, replies }).spawn().or_undo().then_end(
                    true,
                ),
    {
        let program: String = self.program.clone();
        self.wait(Step::Spawn, Ask::Spawn(program))
    }

    /// Goes on after a turn of the volume.
    fn after_volume(&mut self, k: VolumeThen, swap: VolumeTurn) -> (turn: Turn)
        requires
            swap.wf(old(self)@.volume),
        ensures
            final(self).took(turn),
            forall|asked: Seq<AskView>, replies: Seq<ReplyView>| #[trigger]
                final(self).after(turn, World { state: final(self)@, asked, replies })
                    == k.goes_on(
                    (World { state: old(self)@, asked, replies }).on_volume(
                        swap.rest(World { state: old(self)@.volume, asked, replies }),
                    ),
                ),
    {
        proof {
            reveal(VolumeThen::goes_on);
        }
        match (k, swap) {
            (k, VolumeTurn::Asks(step, ask)) => self.wait(Step::Volume(step, k), ask),
            (VolumeThen::Start, VolumeTurn::Returns(Ok(_))) => self.spawn(),
            (VolumeThen::Start, VolumeTurn::Returns(Err(e))) => self.start_failed(e),
            (VolumeThen::Cleanup(k), VolumeTurn::Returns(result)) => self.restore_local_control(
                result,
                k,
            ),
        }
    }

    /// Starts the synthesizer, unless it is running.
    fn start_process(&mut self) -> (turn: Turn)
        ensures
            final(self).took(turn),
            forall|asked: Seq<AskView>, replies: Seq<ReplyView>| #[trigger]
                final(self).after(turn, World { state: final(self)@, asked, replies })
                    == (World { state: old(self)@, asked, replies }).start_process().then_end(true),
    {
        if self.process.is_some() {
            return self.finish(Ok(true));
        }
        match self.midi {
            Some(MidiConnection { midi_out: Some(midi_out), .. }) => self.wait(
                Step::TouchOn,
                Ask::SendMidi(midi_out.send_note(START_NOTE, START_VELOCITY, true)),
            ),
            _ => self.wait(Step::Pause, Ask::Capture(media::pause_line())),
        }
    }

    /// Listens to the piano.
    fn listen(&mut self) -> (turn: Turn)
        ensures
            final(self).took(turn),
            forall|asked: Seq<AskView>, replies: Seq<ReplyView>| #[trigger]
                final(self).after(turn, World { state: final(self)@, asked, replies })
                    == (World { state: old(self)@, asked, replies }).listen(),
    {
        if self.midi.is_some() {
            self.wait(Step::Receive, Ask::Receive(RECEIVE_MILLIS))
        } else {
            self.wait(Step::OpenInputs, Ask::OpenInputs("midi-start-program_input".to_string()))
        }
    }

    /// Goes on after a connection that failed.
    fn connect_failed(&mut self, e: MidiStartPrgError) -> (turn: Turn)
        ensures
            final(self).took(turn),
            forall|asked: Seq<AskView>, replies: Seq<ReplyView>| #[trigger]
                final(self).after(turn, World { state: final(self)@, asked, replies })
                    == Run::<AppView, Result<(), ErrorView>>::Returned(
                    World { state: old(self)@, asked, replies },
                    Err(e@),
                ).then_receive(),
    {
        match e {
            MidiStartPrgError::NoMatchingMidiPort => self.wait(
                Step::Retry,
                Ask::Sleep(RETRY_MILLIS),
            ),
            e => self.finish(Err(e)),
        }
    }

    /// Goes on to an input port, if there is one of that number.
    fn find_input(&mut self, port: usize, count: usize) -> (turn: Turn)
        ensures
            final(self).took(turn),
            forall|asked: Seq<AskView>, replies: Seq<ReplyView>| #[trigger]
                final(self).after(turn, World { state: final(self)@, asked, replies })
                    == (World { state: old(self)@, asked, replies }).find_input(
                    port,
                    count,
                ).then_receive(),
    {
        if port < count {
            self.wait(Step::InputName { port, count }, Ask::InputName(port))
        } else {
            self.connect_failed(MidiStartPrgError::NoMatchingMidiPort)
        }
    }

    /// Goes on after a turn of the search for an output.
    fn after_open(&mut self, port: usize, name: String, opened: OpenTurn) -> (turn: Turn)
        requires
            opened.wf(),
        ensures
            final(self).took(turn),
            forall|asked: Seq<AskView>, replies: Seq<ReplyView>| #[trigger]
                final(self).after(turn, World { state: final(self)@, asked, replies })
                    == (World { state: old(self)@, asked, replies }).on_nothing(
                    opened.rest((World { state: old(self)@, asked, replies }).with(())),
                ).then_connect(port, name@).then_receive(),
    {
        match opened {
            OpenTurn::Asks(opening, ask) => self.wait(
                Step::OpenOutput { port, name, opening },
                ask,
            ),
            OpenTurn::Returns(Ok(midi_out)) => self.wait(
                Step::ConnectInput { port, input: Ghost(name@), midi_out },
                Ask::ConnectInput(port, name),
            ),
            OpenTurn::Returns(Err(e)) => self.connect_failed(e),
        }
    }

    /// Says whether no key has been touched for longer than the timeout while the piano is
    /// there.
    pub fn is_idle(&self, now: u128) -> (answer: bool)
        ensures
            answer == self@.is_idle(now),
    {
        match &self.midi {
            Some(midi) => midi.is_idle(now, self.idle_timeout),
            None => false,
        }
    }

    /// Does what a message calls for.
    fn tick_midi(&mut self, msg: MidiMsg, now: u128) -> (turn: Turn)
        requires
            old(self)@.midi is Some,
        ensures
            final(self).took(turn),
            forall|asked: Seq<AskView>, replies: Seq<ReplyView>| #[trigger]
                final(self).after(turn, World { state: final(self)@, asked, replies })
                    == ({
                        let w = World { state: old(self)@, asked, replies };
                        let midi = w.state.midi->0;
                        let v = w.with_midi(Some(midi.after(msg, now)));
                        match midi.calls_for(msg) {
                            Some(MidiTickAction::StartProcess) => v.start_process().then_end(true),
                            Some(MidiTickAction::Suspend) => v.suspend().then_end(true),
                            None => Run::Returned(v, Ok(true)),
                        }
                    }),
    {
        match self.midi {
            Some(mut midi) => {
                let action = midi.tick_midi(msg, now);
                self.midi = Some(midi);
                match action {
                    Some(MidiTickAction::StartProcess) => self.start_process(),
                    Some(MidiTickAction::Suspend) => self.suspend(true),
                    None => self.finish(Ok(true)),
                }
            },
            None => self.finish(Ok(true)),
        }
    }

    /// Goes on with what became of the synthesizer.
    fn resume_end(&mut self, step: Step, reply: Reply) -> (turn: Turn)
        requires
            step is Exit || step is Release || step is Signal || step is LoopExit
                || step is LoopSleep,
            step.wf(old(self)@),
            step.answered_by(old(self)@, reply@),
        ensures
            final(self).took(turn),
            forall|asked: Seq<AskView>, replies: Seq<ReplyView>|
                #![trigger step.rest(
                    World { state: old(self)@, asked, replies: followed(reply@, replies) },
                )]
                final(self).after(
                    turn,
                    World {
                        state: final(self)@,
                        asked: asked.push(step.pending(old(self)@)),
                        replies,
                    },
                ) == step.rest(
                    World { state: old(self)@, asked, replies: followed(reply@, replies) },
                ),
    {
        broadcast use lemma_followed;

        match (step, reply) {
            (Step::Exit(k), Reply::Exited(has_exited)) => {
                self.process = Some(PianoteqProcess { has_exited });
                if has_exited {
                    self.maybe_cleanup_process(k)
                } else {
                    self.after_maybe(k, Ok(()))
                }
            },
            (Step::Exit(k), Reply::Failed(t)) => self.after_maybe(
                k,
                Err(MidiStartPrgError::IoError(t)),
            ),
            (Step::Release(k), _) => {
                proof {
                    reveal(CleanupThen::goes_on);
                }
                self.do_process_cleanup(CleanupThen::Maybe(k))
            },
            (Step::Signal(k), Reply::Failed(t)) => self.after_terminate(
                k,
                Err(MidiStartPrgError::IoError(t)),
            ),
            (Step::Signal(k), _) => self.wait_for_exit(k),
            (Step::LoopExit(k), Reply::Exited(has_exited)) => {
                self.process = Some(PianoteqProcess { has_exited });
                proof {
                    reveal(MaybeThen::goes_on);
                }
                self.maybe_cleanup_process(
                    if has_exited {
                        MaybeThen::Last(k)
                    } else {
                        MaybeThen::Loop(k)
                    },
                )
            },
            (Step::LoopExit(k), Reply::Failed(t)) => self.after_terminate(
                k,
                Err(MidiStartPrgError::IoError(t)),
            ),
            (Step::LoopSleep(k), _) => self.wait_for_exit(k),
            _ => self.finish(Ok(true)),
        }
    }

    /// Goes on with what became of the volume, and of the cleanup after it.
    fn resume_cleanup(&mut self, step: Step, reply: Reply) -> (turn: Turn)
        requires
            step is Volume || step is LocalControl,
            step.wf(old(self)@),
            step.answered_by(old(self)@, reply@),
        ensures
            final(self).took(turn),
            forall|asked: Seq<AskView>, replies: Seq<ReplyView>|
                #![trigger step.rest(
                    World { state: old(self)@, asked, replies: followed(reply@, replies) },
                )]
                final(self).after(
                    turn,
                    World {
                        state: final(self)@,
                        asked: asked.push(step.pending(old(self)@)),
                        replies,
                    },
                ) == step.rest(
                    World { state: old(self)@, asked, replies: followed(reply@, replies) },
                ),
    {
        broadcast use lemma_followed;

        match (step, reply) {
            (Step::Volume(step, k), reply) => {
                let swap = self.volume.resume(step, reply);
                self.after_volume(k, swap)
            },
            (Step::LocalControl(Err(e), k), _) => self.after_cleanup(k, Err(e)),
            (Step::LocalControl(Ok(_), k), Reply::Failed(t)) => self.after_cleanup(
                k,
                Err(MidiStartPrgError::MidiSend(t)),
            ),
            (Step::LocalControl(Ok(_), k), _) => self.after_cleanup(k, Ok(())),
            _ => self.finish(Ok(true)),
        }
    }

    /// Goes on towards sleep.
    fn resume_sleep(&mut self, step: Step, reply: Reply) -> (turn: Turn)
        requires
            step is Close || step is Settle || step is Suspend,
            step.wf(old(self)@),
            step.answered_by(old(self)@, reply@),
        ensures
            final(self).took(turn),
            forall|asked: Seq<AskView>, replies: Seq<ReplyView>|
                #![trigger step.rest(
                    World { state: old(self)@, asked, replies: followed(reply@, replies) },
                )]
                final(self).after(
                    turn,
                    World {
                        state: final(self)@,
                        asked: asked.push(step.pending(old(self)@)),
                        replies,
                    },
                ) == step.rest(
                    World { state: old(self)@, asked, replies: followed(reply@, replies) },
                ),
    {
        broadcast use lemma_followed;

        match (step, reply) {
            (Step::Close { result: Ok(_), again }, _) => self.wait(
                Step::Settle { again },
                Ask::Sleep(SETTLE_MILLIS),
            ),
            (Step::Close { result: Err(e), .. }, _) => self.finish(Err(e)),
            (Step::Settle { again }, _) => self.wait(
                Step::Suspend { again },
                Ask::Run(media::suspend_line()),
            ),
            (Step::Suspend { .. }, Reply::Failed(t)) => self.finish(
                Err(MidiStartPrgError::IoError(t)),
            ),
            (Step::Suspend { again }, _) => self.finish(Ok(again)),
            _ => self.finish(Ok(true)),
        }
    }

    /// Goes on with the start of the synthesizer.
    fn resume_start(&mut self, step: Step, reply: Reply) -> (turn: Turn)
        requires
            step is TouchOn || step is TouchOff || step is LocalOff || step is Pause
                || step is Spawn || step is Awake,
            step.wf(old(self)@),
            step.answered_by(old(self)@, reply@),
        ensures
            final(self).took(turn),
            forall|asked: Seq<AskView>, replies: Seq<ReplyView>|
                #![trigger step.rest(
                    World { state: old(self)@, asked, replies: followed(reply@, replies) },
                )]
                final(self).after(
                    turn,
                    World {
                        state: final(self)@,
                        asked: asked.push(step.pending(old(self)@)),
                        replies,
                    },
                ) == step.rest(
                    World { state: old(self)@, asked, replies: followed(reply@, replies) },
                ),
    {
        broadcast use lemma_followed;

        match (step, reply) {
            (Step::Pause, Reply::Output { status, stderr, .. }) => match media::pause_media(
                status,
                stderr.as_slice(),
            ) {
                PauseOutcome::Paused => {
                    let swap = self.volume.set_swapped(true);
                    proof {
                        reveal(VolumeThen::goes_on);
                    }
                    self.after_volume(VolumeThen::Start, swap)
                },
                PauseOutcome::Failed { .. } => self.spawn(),
            },
            (Step::Pause, _) => self.spawn(),
            (Step::Spawn, Reply::Failed(t)) => self.start_failed(MidiStartPrgError::IoError(t)),
            (Step::Spawn, _) => self.wait(
                Step::Awake,
                Ask::StayAwake(process::wake_lock_request()),
            ),
            (Step::Awake, Reply::Failed(t)) => self.start_failed(MidiStartPrgError::KeepAwake(t)),
            (Step::Awake, _) => {
                self.process = Some(PianoteqProcess { has_exited: false });
                self.finish(Ok(true))
            },
            (_, Reply::Failed(t)) => self.start_failed(MidiStartPrgError::MidiSend(t)),
            (Step::TouchOn, _) => match self.midi {
                Some(MidiConnection { midi_out: Some(midi_out), .. }) => self.wait(
                    Step::TouchOff(midi_out),
                    Ask::SendMidi(midi_out.send_note(START_NOTE, START_VELOCITY, false)),
                ),
                _ => self.finish(Ok(true)),
            },
            (Step::TouchOff(midi_out), _) => self.wait(
                Step::LocalOff(midi_out),
                Ask::SendMidi(midi_out.set_local_control(false)),
            ),
            (Step::LocalOff(_), _) => self.wait(Step::Pause, Ask::Capture(media::pause_line())),
            _ => self.finish(Ok(true)),
        }
    }

    /// Goes on with the connection.
    fn resume_connect(&mut self, step: Step, reply: Reply) -> (turn: Turn)
        requires
            step is OpenInputs || step is InputName || step is OpenOutput || step is ConnectInput,
            step.wf(old(self)@),
            step.answered_by(old(self)@, reply@),
        ensures
            final(self).took(turn),
            forall|asked: Seq<AskView>, replies: Seq<ReplyView>|
                #![trigger step.rest(
                    World { state: old(self)@, asked, replies: followed(reply@, replies) },
                )]
                final(self).after(
                    turn,
                    World {
                        state: final(self)@,
                        asked: asked.push(step.pending(old(self)@)),
                        replies,
                    },
                ) == step.rest(
                    World { state: old(self)@, asked, replies: followed(reply@, replies) },
                ),
    {
        broadcast use lemma_followed;

        match (step, reply) {
            (Step::OpenInputs, Reply::Ports(count)) => self.find_input(0, count),
            (Step::OpenInputs, Reply::Failed(t)) => self.finish(
                Err(MidiStartPrgError::MidiInit(t)),
            ),
            (Step::InputName { port, count }, Reply::Name(name)) => if text::starts_with(
                name.as_str(),
                self.device_prefix.as_str(),
            ) {
                let opened = MidiOut::open(self.device_prefix.as_str());
                self.after_open(port, name, opened)
            } else {
                self.find_input(port + 1, count)
            },
            (Step::InputName { .. }, Reply::Failed(t)) => self.finish(
                Err(MidiStartPrgError::MidiInitPort(t)),
            ),
            (Step::OpenOutput { port, name, opening }, reply) => {
                let opened = opening.resume(reply);
                self.after_open(port, name, opened)
            },
            (Step::ConnectInput { midi_out, .. }, Reply::Connected { now }) => {
                self.midi = Some(
                    MidiConnection {
                        midi_out,
                        last_note_instant: None,
                        last_update_instant: now,
                        rightmost_count: 0,
                    },
                );
                self.wait(Step::Receive, Ask::Receive(RECEIVE_MILLIS))
            },
            (Step::ConnectInput { .. }, Reply::Failed(t)) => self.finish(
                Err(MidiStartPrgError::MidiConnect(t)),
            ),
            _ => self.finish(Ok(true)),
        }
    }

    /// Goes on with the tick.
    fn resume_tick(&mut self, step: Step, reply: Reply) -> (turn: Turn)
        requires
            step is Observe || step is Retry || step is Receive || step is GiveUp,
            step.wf(old(self)@),
            step.answered_by(old(self)@, reply@),
        ensures
            final(self).took(turn),
            forall|asked: Seq<AskView>, replies: Seq<ReplyView>|
                #![trigger step.rest(
                    World { state: old(self)@, asked, replies: followed(reply@, replies) },
                )]
                final(self).after(
                    turn,
                    World {
                        state: final(self)@,
                        asked: asked.push(step.pending(old(self)@)),
                        replies,
                    },
                ) == step.rest(
                    World { state: old(self)@, asked, replies: followed(reply@, replies) },
                ),
    {
        broadcast use lemma_followed;

        match (step, reply) {
            (Step::Observe, Reply::Observed { shutdown, now }) => {
                let idle: bool = self.is_idle(now);
                if shutdown || idle {
                    proof {
                        reveal(TerminateThen::goes_on);
                    }
                    self.terminate_and_wait(TerminateThen::Stop { shutdown, idle })
                } else {
                    self.listen()
                }
            },
            (Step::Receive, Reply::Message { msg, now }) => self.tick_midi(msg, now),
            (Step::Receive, Reply::Silence) => {
                self.midi = None;
                self.wait(Step::GiveUp, Ask::CloseMidi)
            },
            _ => self.finish(Ok(true)),
        }
    }

    /// A step goes on from a reply where it is an answer, and only there.
    proof fn lemma_accepts(self, reply: ReplyView)
        requires
            self.waiting(),
        ensures
            self.accepts(reply) == self.step.answered_by(self@, reply),
    {
        self.step.lemma_answered_by(
            World { state: self@, asked: seq![], replies: seq![reply] },
            reply,
        );
    }

    /// The program before its first tick: there is no synthesizer and no connection, and the
    /// standard volume is set. The other volume is kept in the file at `volume_path`.
    pub fn new(args: Args, volume_path: Vec<u8>) -> (app: App)
        ensures
            app.ready(),
            app@ == (AppView {
                program: args.program@,
                device_prefix: args.device_prefix@,
                idle_timeout: (args.idle * 1_000_000_000) as u128,
                process: None,
                midi: None,
                volume: VolumeView {
                    volume_path: volume_path@,
                    standard_volume: None,
                    swapped: false,
                },
            }),
            app@ == AppView::beginning(
                args.program@,
                args.device_prefix@,
                args.idle,
                volume_path@,
            ),
    {
        App {
            program: args.program,
            device_prefix: args.device_prefix,
            idle_timeout: args.idle as u128 * 1_000_000_000,
            process: None,
            midi: None,
            volume: Volume::new(volume_path),
            step: Step::Ready,
        }
    }

    /// Begins a tick.
    pub fn tick_main(&mut self) -> (turn: Turn)
        requires
            old(self).ready(),
        ensures
            final(self).took(turn),
            forall|asked: Seq<AskView>, replies: Seq<ReplyView>| #[trigger]
                final(self).after(turn, World { state: final(self)@, asked, replies }) == (World {
                    state: old(self)@,
                    asked,
                    replies,
                }).tick_main(),
    {
        proof {
            reveal(MaybeThen::goes_on);
        }
        self.maybe_cleanup_process(MaybeThen::Tick)
    }

    /// Says whether the reply is an answer that [`App::resume`] can go on from.
    pub fn is_answered_by(&self, reply: &Reply) -> (answer: bool)
        requires
            self.waiting(),
        ensures
            answer == self.accepts(reply@),
    {
        proof {
            self.lemma_accepts(reply@);
        }
        match (&self.step, reply) {
            (Step::Volume(step, _), _) => self.volume.accepts(step, reply),
            (Step::OpenOutput { opening, .. }, _) => opening.answered_by(reply),
            (
                Step::Release(_)
                | Step::LoopSleep(_)
                | Step::Close { .. }
                | Step::Settle { .. }
                | Step::Retry
                | Step::GiveUp,
                _,
            ) => matches!(reply, Reply::Done),
            (Step::Observe, _) => matches!(reply, Reply::Observed { .. }),
            (Step::Receive, _) => matches!(
                reply,
                Reply::Message { .. } | Reply::Garbled | Reply::Silence
            ),
            (Step::Ready, _) => false,
            (_, Reply::Failed(_)) => true,
            (Step::Exit(_) | Step::LoopExit(_), _) => matches!(reply, Reply::Exited(_)),
            (Step::Suspend { .. }, _) => matches!(reply, Reply::Status(_)),
            (Step::Pause, _) => matches!(reply, Reply::Output { .. }),
            (Step::OpenInputs, _) => matches!(reply, Reply::Ports(_)),
            (Step::InputName { .. }, _) => matches!(reply, Reply::Name(_)),
            (Step::ConnectInput { .. }, _) => matches!(reply, Reply::Connected { .. }),
            _ => matches!(reply, Reply::Done),
        }
    }

    /// Goes on with the tick, with the reply to what was asked for last.
    pub fn resume(&mut self, reply: Reply) -> (turn: Turn)
        requires
            old(self).waiting(),
            old(self).accepts(reply@),
        ensures
            final(self).took(turn),
            forall|asked: Seq<AskView>, replies: Seq<ReplyView>|
                #![trigger old(self).rest(
                    World { state: old(self)@, asked, replies: followed(reply@, replies) },
                )]
                final(self).after(
                    turn,
                    World {
                        state: final(self)@,
                        asked: asked.push(old(self).pending()),
                        replies,
                    },
                ) == old(self).rest(
                    World { state: old(self)@, asked, replies: followed(reply@, replies) },
                ),
    {
        proof {
            self.lemma_accepts(reply@);
        }
        let mut step: Step = Step::Ready;
        std::mem::swap(&mut self.step, &mut step);
        match &step {
            Step::Ready => self.finish(Ok(true)),
            Step::Exit(_)
            | Step::Release(_)
            | Step::Signal(_)
            | Step::LoopExit(_)
            | Step::LoopSleep(_) => self.resume_end(step, reply),
            Step::Volume(..) | Step::LocalControl(..) => self.resume_cleanup(step, reply),
            Step::Close { .. } | Step::Settle { .. } | Step::Suspend { .. } => self.resume_sleep(
                step,
                reply,
            ),
            Step::TouchOn
            | Step::TouchOff(_)
            | Step::LocalOff(_)
            | Step::Pause
            | Step::Spawn
            | Step::Awake => self.resume_start(step, reply),
            Step::OpenInputs
            | Step::InputName { .. }
            | Step::OpenOutput { .. }
            | Step::ConnectInput { .. } => self.resume_connect(step, reply),
            Step::Observe | Step::Retry | Step::Receive | Step::GiveUp => self.resume_tick(
                step,
                reply,
            ),
        }
    }

    /// Says whether the synthesizer is to be killed when the program ends.
    pub fn kills_on_drop(&self) -> (answer: bool)
        ensures
            answer == (self@.process matches Some(process) && !process.has_exited),
            answer == self@.kills_on_drop(),
    {
        match &self.process {
            Some(process) => process.killed_on_drop(),
            None => false,
        }
    }
}

} // verus!
