//! What the program does, procedure by procedure.
//!
//! Each procedure is a function of the world it starts in. It returns, or waits for the
//! replies that are not there yet.

use vstd::prelude::*;

use crate::connection::{MidiConnection, MidiTickAction};
use crate::error::ErrorView;
use crate::media;
use crate::midi_out::MidiOut;
use crate::process::{self, PianoteqProcess};
use crate::protocol::{AskView, ReplyView, Run, World};
use crate::text;
use crate::volume::VolumeView;

verus! {

/// The note that confirms the start.
pub const START_NOTE: u8 = 60;

/// How hard it is struck.
pub const START_VELOCITY: u8 = 80;

/// Milliseconds between two looks at something that is not there yet.
pub const RETRY_MILLIS: u64 = 400;

/// Milliseconds for the last messages to reach the piano before the computer sleeps.
pub const SETTLE_MILLIS: u64 = 500;

/// Milliseconds for which a message of the piano is waited for.
pub const RECEIVE_MILLIS: u64 = 10_000;

/// The name under which the program connects to the piano's output.
pub open spec fn input_client() -> Seq<char> {
    "midi-start-program_input"@
}

/// The state of the program.
pub struct AppView {
    /// The synthesizer to start.
    pub program: Seq<char>,
    /// How the names of the piano's ports begin.
    pub device_prefix: Seq<char>,
    /// The time in nanoseconds after which the computer sleeps.
    pub idle_timeout: u128,
    /// The synthesizer that is running.
    pub process: Option<PianoteqProcess>,
    /// The connection to the piano.
    pub midi: Option<MidiConnection>,
    pub volume: VolumeView,
}

impl AppView {
    /// No key has been touched for longer than the timeout, but the piano is there.
    pub open spec fn is_idle(self, now: u128) -> bool {
        self.midi matches Some(midi) && midi.idle(now, self.idle_timeout)
    }

    /// The program before its first tick.
    pub open spec fn beginning(
        program: Seq<char>,
        device_prefix: Seq<char>,
        idle: u64,
        volume_path: Seq<u8>,
    ) -> AppView {
        AppView {
            program,
            device_prefix,
            idle_timeout: (idle * 1_000_000_000) as u128,
            process: None,
            midi: None,
            volume: VolumeView::beginning(volume_path),
        }
    }

    /// The synthesizer is to be killed when the program ends.
    pub open spec fn kills_on_drop(self) -> bool {
        self.process matches Some(process) && !process.has_exited
    }

    /// Where messages to the piano go, if there is such a way.
    pub open spec fn midi_out(self) -> Option<MidiOut> {
        match self.midi {
            Some(midi) => midi.midi_out,
            None => None,
        }
    }
}

/// What a procedure returns that can fail.
pub type Outcome = Run<AppView, Result<(), ErrorView>>;

/// What a tick returns: whether there is to be another.
pub type TickOutcome = Run<AppView, Result<bool, ErrorView>>;

impl World<AppView> {
    pub open spec fn with_process(self, process: Option<PianoteqProcess>) -> World<AppView> {
        self.with(AppView { process, ..self.state })
    }

    pub open spec fn with_midi(self, midi: Option<MidiConnection>) -> World<AppView> {
        self.with(AppView { midi, ..self.state })
    }

    /// A procedure of the volume, as a procedure of the program.
    pub open spec fn on_volume<T>(self, run: Run<VolumeView, T>) -> Run<AppView, T> {
        match run {
            Run::Waiting(w) => Run::Waiting(w.with(AppView { volume: w.state, ..self.state })),
            Run::Stuck => Run::Stuck,
            Run::Returned(w, value) => Run::Returned(
                w.with(AppView { volume: w.state, ..self.state }),
                value,
            ),
        }
    }

    /// A procedure that has no state, as a procedure of the program.
    pub open spec fn on_nothing<T>(self, run: Run<(), T>) -> Run<AppView, T> {
        match run {
            Run::Waiting(w) => Run::Waiting(w.with(self.state)),
            Run::Stuck => Run::Stuck,
            Run::Returned(w, value) => Run::Returned(w.with(self.state), value),
        }
    }

    /// Sets the volume for playing, or the standard one.
    pub open spec fn swap_volume(self, swapped: bool) -> Outcome {
        self.on_volume(self.with(self.state.volume).set_swapped(swapped))
    }

    // ---- The end of the synthesizer ----

    /// Looks whether the synthesizer has ended, unless that is known.
    pub open spec fn check_has_exited(self) -> Run<AppView, Result<bool, ErrorView>> {
        if self.state.process->0.has_exited {
            Run::Returned(self, Ok(true))
        } else {
            let w = self.ask(AskView::TryWait);
            match w.reply() {
                None => Run::Waiting(w),
                Some(ReplyView::Exited(has_exited)) => Run::Returned(
                    w.taken().with_process(Some(PianoteqProcess { has_exited })),
                    Ok(has_exited),
                ),
                Some(ReplyView::Failed(t)) => Run::Returned(w.taken(), Err(ErrorView::IoError(t))),
                Some(_) => Run::Stuck,
            }
        }
    }

    /// Lets go of the synthesizer where it has ended. Where there is none, sees to it that
    /// everything is as it is without one.
    pub open spec fn maybe_cleanup_process(self) -> Outcome {
        match self.state.process {
            None => self.do_process_cleanup(),
            Some(_) => match self.check_has_exited() {
                Run::Returned(w, Ok(true)) => w.with_process(None).release_process(),
                Run::Returned(w, Ok(false)) => Run::Returned(w, Ok(())),
                Run::Returned(w, Err(e)) => Run::Returned(w, Err(e)),
                Run::Waiting(w) => Run::Waiting(w),
                Run::Stuck => Run::Stuck,
            },
        }
    }

    /// Lets go of the synthesizer, and of what kept the computer awake, before anything else.
    pub open spec fn release_process(self) -> Outcome {
        match self.perform(AskView::ReleaseProcess) {
            Run::Returned(w, _) => w.do_process_cleanup(),
            Run::Waiting(w) => Run::Waiting(w),
            Run::Stuck => Run::Stuck,
        }
    }

    /// Sets the standard volume, forgets when a key was last touched, and lets the keys of
    /// the piano sound by themselves. A failure of the one does not keep it from the others.
    pub open spec fn do_process_cleanup(self) -> Outcome {
        self.swap_volume(false).then_restore()
    }

    /// Forgets when a key was last touched.
    pub open spec fn forget_note(self) -> World<AppView> {
        self.with_midi(
            match self.state.midi {
                Some(midi) => Some(MidiConnection { last_note_instant: None, ..midi }),
                None => None,
            },
        )
    }

    /// Lets the keys of the piano sound by themselves. The first failure counts.
    pub open spec fn restore_local_control(self, swapped: Result<(), ErrorView>) -> Outcome {
        match self.state.midi_out() {
            None => Run::Returned(self, swapped),
            Some(midi_out) => match self.attempt(AskView::SendMidi(midi_out.local_control(true))) {
                Run::Returned(w, restored) => Run::Returned(
                    w,
                    if swapped is Err {
                        swapped
                    } else {
                        restored
                    },
                ),
                other => other,
            },
        }
    }

    /// Asks the synthesizer to end, and waits until it has.
    pub open spec fn terminate_and_wait(self) -> Outcome {
        match self.state.process {
            None => self.wait_for_exit(),
            Some(_) => match self.attempt(AskView::Signal(process::SIGTERM)) {
                Run::Returned(w, Ok(_)) => w.wait_for_exit(),
                other => other,
            },
        }
    }

    /// Waits until the synthesizer has ended.
    pub open spec fn wait_for_exit(self) -> Outcome
        decreases self.replies.len(),
    {
        match self.state.process {
            None => self.maybe_cleanup_process(),
            Some(_) => match self.check_has_exited() {
                Run::Returned(w, Ok(true)) => w.maybe_cleanup_process(),
                Run::Returned(w, Ok(false)) => match w.maybe_cleanup_process() {
                    Run::Returned(v, Ok(_)) => match v.perform(AskView::Sleep(RETRY_MILLIS)) {
                        Run::Returned(x, _) => {
                            proof {
                                w.lemma_cleanup_takes_replies();
                            }
                            x.wait_for_exit()
                        },
                        Run::Waiting(x) => Run::Waiting(x),
                        Run::Stuck => Run::Stuck,
                    },
                    other => other,
                },
                Run::Returned(w, Err(e)) => Run::Returned(w, Err(e)),
                Run::Waiting(w) => Run::Waiting(w),
                Run::Stuck => Run::Stuck,
            },
        }
    }

    /// Waits a moment, and then for the end of the synthesizer.
    pub open spec fn wait_longer(self) -> Outcome {
        match self.perform(AskView::Sleep(RETRY_MILLIS)) {
            Run::Returned(w, _) => w.wait_for_exit(),
            Run::Waiting(w) => Run::Waiting(w),
            Run::Stuck => Run::Stuck,
        }
    }

    /// The cleanup takes replies and gives none.
    pub proof fn lemma_cleanup_takes_replies(self)
        ensures
            self.maybe_cleanup_process() matches Run::Returned(w, _) ==> w.replies.len()
                <= self.replies.len(),
    {
    }

    // ---- Sleep ----

    /// Ends the synthesizer while the piano can still be told, gives the connection to the
    /// piano up, and puts the computer to sleep.
    pub open spec fn suspend(self) -> Outcome {
        self.terminate_and_wait().then_sleep()
    }

    /// Closes the connection to the piano whatever came of the synthesizer. The computer sleeps
    /// where it has ended. That it stays awake is no failure.
    pub open spec fn close_and_sleep(self, result: Result<(), ErrorView>) -> Outcome {
        match self.perform(AskView::CloseMidi) {
            Run::Returned(w, _) => if result is Ok {
                w.systemctl_suspend().or_stay_awake()
            } else {
                Run::Returned(w, result)
            },
            Run::Waiting(w) => Run::Waiting(w),
            Run::Stuck => Run::Stuck,
        }
    }

    /// Puts the computer to sleep after a moment.
    pub open spec fn systemctl_suspend(self) -> Outcome {
        match self.perform(AskView::Sleep(SETTLE_MILLIS)) {
            Run::Returned(w, _) => w.run_suspend(),
            Run::Waiting(w) => Run::Waiting(w),
            Run::Stuck => Run::Stuck,
        }
    }

    /// Puts the computer to sleep.
    pub open spec fn run_suspend(self) -> Outcome {
        let w = self.ask(AskView::Run(media::suspend_command()));
        match w.reply() {
            None => Run::Waiting(w),
            Some(ReplyView::Status(status)) => Run::Returned(w.taken(), status.exit_ok()),
            Some(ReplyView::Failed(t)) => Run::Returned(w.taken(), Err(ErrorView::IoError(t))),
            Some(_) => Run::Stuck,
        }
    }

    // ---- The start of the synthesizer ----

    /// Starts the synthesizer, unless it is running. What was done for a start that fails is
    /// undone.
    pub open spec fn start_process(self) -> Outcome {
        match self.state.process {
            Some(_) => Run::Returned(self, Ok(())),
            None => self.touch_on().or_undo(),
        }
    }

    /// Has the piano sound a note, where it can be reached.
    pub open spec fn touch_on(self) -> Outcome {
        match self.state.midi_out() {
            None => self.pause_media(),
            Some(midi_out) => match self.attempt(
                AskView::SendMidi(midi_out.note(START_NOTE, START_VELOCITY, true)),
            ) {
                Run::Returned(w, Ok(_)) => w.touch_off(midi_out),
                other => other,
            },
        }
    }

    /// Ends that note.
    pub open spec fn touch_off(self, midi_out: MidiOut) -> Outcome {
        match self.attempt(AskView::SendMidi(midi_out.note(START_NOTE, START_VELOCITY, false))) {
            Run::Returned(w, Ok(_)) => w.release_local_control(midi_out),
            other => other,
        }
    }

    /// Keeps the keys of the piano from sounding by themselves.
    pub open spec fn release_local_control(self, midi_out: MidiOut) -> Outcome {
        match self.attempt(AskView::SendMidi(midi_out.local_control(false))) {
            Run::Returned(w, Ok(_)) => w.pause_media(),
            other => other,
        }
    }

    /// Pauses what is playing. Only where nothing else plays the volume for playing is set.
    pub open spec fn pause_media(self) -> Outcome {
        let w = self.ask(AskView::Capture(media::pause_command()));
        match w.reply() {
            None => Run::Waiting(w),
            Some(ReplyView::Output { status, stderr, .. }) => if media::media_paused(
                status.success,
                stderr,
            ) {
                w.taken().swap_volume(true).then_spawn()
            } else {
                w.taken().spawn()
            },
            Some(ReplyView::Failed(_)) => w.taken().spawn(),
            Some(_) => Run::Stuck,
        }
    }

    /// Starts the program of the synthesizer.
    pub open spec fn spawn(self) -> Outcome {
        match self.attempt(AskView::Spawn(self.state.program)) {
            Run::Returned(w, Ok(_)) => w.stay_awake(),
            other => other,
        }
    }

    /// Keeps the computer awake for it.
    pub open spec fn stay_awake(self) -> Outcome {
        match self.attempt(AskView::StayAwake(process::wake_lock())) {
            Run::Returned(w, Ok(_)) => Run::Returned(
                w.with_process(Some(PianoteqProcess { has_exited: false })),
                Ok(()),
            ),
            other => other,
        }
    }

    // ---- The connection ----

    /// Connects to the piano, unless the connection is there.
    pub open spec fn start_midi_if_needed(self) -> Outcome {
        match self.state.midi {
            Some(_) => Run::Returned(self, Ok(())),
            None => self.open_inputs(),
        }
    }

    /// Looks for input ports.
    pub open spec fn open_inputs(self) -> Outcome {
        let w = self.ask(AskView::OpenInputs(input_client()));
        match w.reply() {
            None => Run::Waiting(w),
            Some(ReplyView::Ports(count)) => w.taken().find_input(0, count),
            Some(ReplyView::Failed(t)) => Run::Returned(w.taken(), Err(ErrorView::MidiInit(t))),
            Some(_) => Run::Stuck,
        }
    }

    /// Takes the first input port from `port` on whose name begins with the prefix.
    pub open spec fn find_input(self, port: usize, count: usize) -> Outcome
        decreases count - port,
    {
        if port >= count {
            Run::Returned(self, Err(ErrorView::NoMatchingMidiPort))
        } else {
            let w = self.ask(AskView::InputName(port));
            match w.reply() {
                None => Run::Waiting(w),
                Some(ReplyView::Name(name)) => if text::begins_with(
                    name,
                    self.state.device_prefix,
                ) {
                    w.taken().open_output_for(port, name)
                } else {
                    w.taken().find_input((port + 1) as usize, count)
                },
                Some(ReplyView::Failed(t)) => Run::Returned(
                    w.taken(),
                    Err(ErrorView::MidiInitPort(t)),
                ),
                Some(_) => Run::Stuck,
            }
        }
    }

    /// Looks for an output to go with that input port.
    pub open spec fn open_output_for(self, port: usize, name: Seq<char>) -> Outcome {
        self.on_nothing(self.with(()).open_output(self.state.device_prefix)).then_connect(port, name)
    }

    /// Connects to the input port.
    pub open spec fn connect_input(
        self,
        port: usize,
        name: Seq<char>,
        midi_out: Option<MidiOut>,
    ) -> Outcome {
        let w = self.ask(AskView::ConnectInput(port, name));
        match w.reply() {
            None => Run::Waiting(w),
            Some(ReplyView::Connected { now }) => Run::Returned(
                w.taken().with_midi(Some(MidiConnection::fresh(midi_out, now))),
                Ok(()),
            ),
            Some(ReplyView::Failed(t)) => Run::Returned(w.taken(), Err(ErrorView::MidiConnect(t))),
            Some(_) => Run::Stuck,
        }
    }

    // ---- The tick ----

    /// One round of the program. Returns whether there is to be another.
    pub open spec fn tick_main(self) -> TickOutcome {
        self.maybe_cleanup_process().then_observe()
    }

    /// Looks whether it is time to stop: where the program is told to, or nobody plays.
    pub open spec fn observe(self) -> TickOutcome {
        let w = self.ask(AskView::Observe);
        match w.reply() {
            None => Run::Waiting(w),
            Some(ReplyView::Observed { shutdown, now }) => if shutdown || self.state.is_idle(now) {
                w.taken().stop(shutdown, self.state.is_idle(now))
            } else {
                w.taken().listen()
            },
            Some(_) => Run::Stuck,
        }
    }

    /// Ends the synthesizer, and, where nobody plays, puts the computer to sleep.
    pub open spec fn stop(self, shutdown: bool, idle: bool) -> TickOutcome {
        self.terminate_and_wait().then_stopped(shutdown, idle)
    }

    /// The same, once the synthesizer has ended.
    pub open spec fn stopped(self, shutdown: bool, idle: bool) -> TickOutcome {
        if idle {
            self.suspend().then_end(!shutdown)
        } else {
            Run::Returned(self, Ok(!shutdown))
        }
    }

    /// Listens to the piano. Where it is not there, that is no failure.
    pub open spec fn listen(self) -> TickOutcome {
        self.start_midi_if_needed().then_receive()
    }

    /// Leaves the search for the piano to another tick.
    pub open spec fn retry_later(self) -> TickOutcome {
        match self.perform(AskView::Sleep(RETRY_MILLIS)) {
            Run::Returned(w, _) => Run::Returned(w, Ok(true)),
            Run::Waiting(w) => Run::Waiting(w),
            Run::Stuck => Run::Stuck,
        }
    }

    /// Does what the next message calls for. A connection over which none comes is given up.
    pub open spec fn receive(self) -> TickOutcome {
        let w = self.ask(AskView::Receive(RECEIVE_MILLIS));
        match w.reply() {
            None => Run::Waiting(w),
            Some(ReplyView::Message { msg, now }) => {
                let midi = self.state.midi->0;
                let w = w.taken().with_midi(Some(midi.after(msg, now)));
                match midi.calls_for(msg) {
                    Some(MidiTickAction::StartProcess) => w.start_process().then_end(true),
                    Some(MidiTickAction::Suspend) => w.suspend().then_end(true),
                    None => Run::Returned(w, Ok(true)),
                }
            },
            Some(ReplyView::Garbled) => Run::Returned(w.taken(), Ok(true)),
            Some(ReplyView::Silence) => w.taken().with_midi(None).give_up_midi(),
            Some(_) => Run::Stuck,
        }
    }

    /// Closes the connection to the piano.
    pub open spec fn give_up_midi(self) -> TickOutcome {
        match self.perform(AskView::CloseMidi) {
            Run::Returned(w, _) => Run::Returned(w, Ok(true)),
            Run::Waiting(w) => Run::Waiting(w),
            Run::Stuck => Run::Stuck,
        }
    }
}

impl Run<AppView, Result<(), ErrorView>> {
    /// The cleanup after the volume.
    pub open spec fn then_restore(self) -> Outcome {
        match self {
            Run::Returned(w, swapped) => w.forget_note().restore_local_control(swapped),
            Run::Waiting(w) => Run::Waiting(w),
            Run::Stuck => Run::Stuck,
        }
    }

    /// The start after the volume.
    pub open spec fn then_spawn(self) -> Outcome {
        match self {
            Run::Returned(w, Ok(_)) => w.spawn(),
            other => other,
        }
    }

    /// What was done for a start that failed is undone.
    pub open spec fn or_undo(self) -> Outcome {
        match self {
            Run::Returned(w, Err(e)) => w.do_process_cleanup().then_fail(e),
            other => other,
        }
    }

    /// The failure of the start, unless undoing it failed too.
    pub open spec fn then_fail(self, e: ErrorView) -> Outcome {
        match self {
            Run::Returned(w, Ok(_)) => Run::Returned(w, Err(e)),
            other => other,
        }
    }

    /// The wait for the end of the synthesizer, after a look at it.
    pub open spec fn then_wait_longer(self) -> Outcome {
        match self {
            Run::Returned(w, Ok(_)) => w.wait_longer(),
            other => other,
        }
    }

    /// Sleep, after the end of the synthesizer.
    pub open spec fn then_sleep(self) -> Outcome {
        match self {
            Run::Returned(w, result) => w.with_midi(None).close_and_sleep(result),
            Run::Waiting(w) => Run::Waiting(w),
            Run::Stuck => Run::Stuck,
        }
    }

    /// That the computer does not sleep when it is told to is passed over.
    pub open spec fn or_stay_awake(self) -> Outcome {
        match self {
            Run::Returned(w, Err(ErrorView::ExitStatusError { .. })) => Run::Returned(w, Ok(())),
            other => other,
        }
    }

    /// The tick after the cleanup.
    pub open spec fn then_observe(self) -> TickOutcome {
        match self {
            Run::Returned(w, Ok(_)) => w.observe(),
            Run::Returned(w, Err(e)) => Run::Returned(w, Err(e)),
            Run::Waiting(w) => Run::Waiting(w),
            Run::Stuck => Run::Stuck,
        }
    }

    /// The tick after the end of the synthesizer.
    pub open spec fn then_stopped(self, shutdown: bool, idle: bool) -> TickOutcome {
        match self {
            Run::Returned(w, Ok(_)) => w.stopped(shutdown, idle),
            Run::Returned(w, Err(e)) => Run::Returned(w, Err(e)),
            Run::Waiting(w) => Run::Waiting(w),
            Run::Stuck => Run::Stuck,
        }
    }

    /// The tick after the connection.
    pub open spec fn then_receive(self) -> TickOutcome {
        match self {
            Run::Returned(w, Ok(_)) => w.receive(),
            Run::Returned(w, Err(ErrorView::NoMatchingMidiPort)) => w.retry_later(),
            Run::Returned(w, Err(e)) => Run::Returned(w, Err(e)),
            Run::Waiting(w) => Run::Waiting(w),
            Run::Stuck => Run::Stuck,
        }
    }

    /// A tick that ends with a procedure.
    pub open spec fn then_end(self, again: bool) -> TickOutcome {
        match self {
            Run::Returned(w, Ok(_)) => Run::Returned(w, Ok(again)),
            Run::Returned(w, Err(e)) => Run::Returned(w, Err(e)),
            Run::Waiting(w) => Run::Waiting(w),
            Run::Stuck => Run::Stuck,
        }
    }
}

impl Run<AppView, Result<Option<MidiOut>, ErrorView>> {
    /// The connection after the output.
    pub open spec fn then_connect(self, port: usize, name: Seq<char>) -> Outcome {
        match self {
            Run::Returned(w, Ok(midi_out)) => w.connect_input(port, name, midi_out),
            Run::Returned(w, Err(e)) => Run::Returned(w, Err(e)),
            Run::Waiting(w) => Run::Waiting(w),
            Run::Stuck => Run::Stuck,
        }
    }
}

} // verus!
