//! What is asked for in a tick has its reason in what came before, and so has the end of the
//! tick.
//!
//! The reasons are told from the asks and the replies alone, without the procedures of the
//! program.

use vstd::prelude::*;

use crate::connection::MidiConnection;
use crate::error::ErrorView;
use crate::laws::ending::{grew, same_connection, same_settings};
use crate::laws::ticks::{ends_the_gesture, touched};
use crate::laws::words;
use crate::media;
use crate::midi_in::MidiMsg;
use crate::midi_out::{self, MidiOut};
use crate::process::{self, PianoteqProcess};
use crate::program::{
    self, AppView, TickOutcome, RECEIVE_MILLIS, RETRY_MILLIS, SETTLE_MILLIS, START_NOTE,
    START_VELOCITY,
};
use crate::protocol::{AskView, CommandView, ReplyView, Run, WakeLockView, World};
use crate::text;
use crate::volume::{self, VolumeView};

verus! {

// ---- What the asks and replies are about ----

/// The request for the volume.
pub open spec fn get_volume() -> AskView {
    AskView::Capture(
        CommandView { program: "wpctl"@, args: seq!["get-volume"@, "@DEFAULT_AUDIO_SINK@"@] },
    )
}

/// The request to set the volume.
pub open spec fn set_volume(argument: Seq<char>) -> AskView {
    AskView::Run(
        CommandView {
            program: "wpctl"@,
            args: seq!["set-volume"@, "@DEFAULT_AUDIO_SINK@"@, argument],
        },
    )
}

/// The request to pause what is playing.
pub open spec fn pause() -> AskView {
    AskView::Capture(CommandView { program: "playerctl"@, args: seq!["pause"@] })
}

/// The request to sleep.
pub open spec fn go_to_sleep() -> AskView {
    AskView::Run(
        CommandView { program: "systemctl"@, args: seq!["suspend"@, "--check-inhibitors=no"@] },
    )
}

/// The confirming note is struck.
pub open spec fn note_on() -> AskView {
    AskView::SendMidi(seq![0x90u8, 60, 80])
}

/// It is let go.
pub open spec fn note_off() -> AskView {
    AskView::SendMidi(seq![0x80u8, 60, 80])
}

/// The keys are to sound by themselves no more.
pub open spec fn keys_off() -> AskView {
    AskView::SendMidi(seq![0xB0u8, 122, 0])
}

/// The keys are to sound by themselves.
pub open spec fn keys_on() -> AskView {
    AskView::SendMidi(seq![0xB0u8, 122, 127])
}

/// The request to keep the computer awake.
pub open spec fn stay_awake() -> AskView {
    AskView::StayAwake(
        WakeLockView {
            sleep: true,
            reason: "Playing piano"@,
            app_name: "Auto-Pianoteq"@,
            app_reverse_domain: "pianoteq.auto"@,
        },
    )
}

/// The words that were printed.
pub open spec fn printed_words(stdout: Seq<u8>) -> Seq<Seq<char>> {
    text::words(text::decoded(stdout))
}

/// What a text with two words or more is set to is its second word, and any other text itself.
pub open spec fn argument(volume: Seq<char>) -> Seq<char> {
    if text::words(volume).len() > 1 {
        text::words(volume)[1]
    } else {
        volume
    }
}

/// The reply says that nothing is playing any more.
pub open spec fn paused(reply: ReplyView) -> bool {
    reply matches ReplyView::Output { status, stderr, .. } && (status.success || text::occurs_in(
        "No players found"@,
        text::decoded(stderr),
    ))
}

/// The exchange failed, and that counts: that nothing could be paused does not, nor that the
/// computer stayed awake.
pub open spec fn fails(ask: AskView, reply: ReplyView) -> bool {
    match (ask, reply) {
        (AskView::Capture(_), ReplyView::Output { stdout, .. }) => ask == get_volume()
            && printed_words(stdout).len() < 2,
        (AskView::Capture(_), ReplyView::Failed(_)) => ask == get_volume(),
        (AskView::Run(_), ReplyView::Status(status)) => ask != go_to_sleep() && !status.success,
        (_, ReplyView::Failed(_)) => true,
        _ => false,
    }
}

/// The error that it is when an exchange failed.
pub open spec fn failure(ask: AskView, reply: ReplyView) -> ErrorView {
    match (ask, reply) {
        (AskView::SendMidi(_), ReplyView::Failed(t)) => ErrorView::MidiSend(t),
        (AskView::StayAwake(_), ReplyView::Failed(t)) => ErrorView::KeepAwake(t),
        (AskView::OpenInputs(_), ReplyView::Failed(t)) => ErrorView::MidiInit(t),
        (AskView::OpenOutputs(_), ReplyView::Failed(t)) => ErrorView::MidiInit(t),
        (AskView::InputName(_), ReplyView::Failed(t)) => ErrorView::MidiInitPort(t),
        (AskView::OutputName(_), ReplyView::Failed(t)) => ErrorView::MidiInitPort(t),
        (AskView::ConnectInput(..), ReplyView::Failed(t)) => ErrorView::MidiConnect(t),
        (AskView::ConnectOutput(..), ReplyView::Failed(t)) => ErrorView::MidiOutputConnect(t),
        (_, ReplyView::Failed(t)) => ErrorView::IoError(t),
        (_, ReplyView::Status(status)) => ErrorView::ExitStatusError {
            code: status.code,
            text: status.text,
        },
        (_, ReplyView::Output { stdout, .. }) => ErrorView::ParsingVolume(
            text::trimmed(text::decoded(stdout)),
        ),
        _ => arbitrary(),
    }
}

/// A connection when a message has come.
pub open spec fn heard(midi: MidiConnection, msg: MidiMsg, now: u128) -> MidiConnection {
    match msg {
        MidiMsg::NoteOn { note, velocity } => touched(midi, note, velocity, now),
        MidiMsg::Other => MidiConnection { last_update_instant: now, ..midi },
    }
}

// ---- The record of a tick ----

/// What can be told from the asks and the replies of a tick so far.
pub struct Record {
    /// The program when the tick began.
    pub start: AppView,
    /// The last exchange.
    pub last: Option<(AskView, ReplyView)>,
    /// The ask before that.
    pub before: Option<AskView>,
    /// A synthesizer is running.
    pub running: bool,
    /// The connection to the piano, with all that was heard over it.
    pub midi: Option<MidiConnection>,
    /// The output that was connected to in this tick.
    pub output: Option<MidiOut>,
    /// The volume for playing counts as set.
    pub swapped: bool,
    /// The standard volume that is remembered.
    pub standard: Option<Seq<char>>,
    /// It has been looked whether to stop.
    pub observed: bool,
    /// The program has been told to stop.
    pub told: bool,
    /// The computer is to sleep.
    pub sleepy: bool,
    /// How many input ports there are.
    pub inputs: usize,
    /// How many output ports there are.
    pub outputs: usize,
    /// The input port that matched, and its name.
    pub chosen: Option<(usize, Seq<char>)>,
    /// The volume that was told last.
    pub told_volume: Seq<char>,
    /// The failure that counts.
    pub fault: Option<ErrorView>,
    /// It came while the synthesizer was being started, and one while that is undone would
    /// count in its place.
    pub undoing: bool,
    /// Everything had its reason so far.
    pub reasoned: bool,
}

/// The record at the beginning of a tick.
pub open spec fn begun(start: AppView) -> Record {
    Record {
        start,
        last: None,
        before: None,
        running: start.process is Some,
        midi: start.midi,
        output: None,
        swapped: start.volume.swapped,
        standard: start.volume.standard_volume,
        observed: false,
        told: false,
        sleepy: false,
        inputs: 0,
        outputs: 0,
        chosen: None,
        told_volume: seq![],
        fault: None,
        undoing: false,
        reasoned: true,
    }
}

impl Record {
    /// The last ask was this.
    pub open spec fn just_asked(self, ask: AskView) -> bool {
        self.last matches Some((a, _)) && a == ask
    }

    /// The last ask was this, and it was done.
    pub open spec fn just_done(self, ask: AskView) -> bool {
        self.last == Some((ask, ReplyView::Done))
    }

    /// Where messages to the piano go.
    pub open spec fn way_out(self) -> Option<MidiOut> {
        match self.midi {
            Some(midi) => midi.midi_out,
            None => None,
        }
    }

    /// A name begins with the prefix.
    pub open spec fn matches(self, name: Seq<char>) -> bool {
        text::begins_with(name, self.start.device_prefix)
    }

    /// Somebody played, and nobody has for longer than the timeout, but the piano is there.
    pub open spec fn nobody_plays(self, now: u128) -> bool {
        self.running && self.midi is Some && self.midi->0.last_note_instant is Some && now
            > self.midi->0.last_note_instant->0 + self.start.idle_timeout && now
            < self.midi->0.last_update_instant + 1_000_000_000
    }

    /// The synthesizer is to end.
    pub open spec fn stopping(self) -> bool {
        self.told || self.sleepy
    }

    /// Everything is as it is without a synthesizer, and nothing has failed.
    pub open spec fn cleaned(self) -> bool {
        &&& !self.running
        &&& !self.swapped
        &&& self.fault is None
        &&& !self.amid_swap()
        &&& self.way_out() is Some ==> self.just_asked(keys_on())
    }

    /// The volumes are being swapped, and something is still to be done for it.
    pub open spec fn amid_swap(self) -> bool {
        match self.last {
            Some((AskView::Capture(_), ReplyView::Output { stdout, .. })) => self.just_asked(
                get_volume(),
            ) && printed_words(stdout).len() > 1,
            Some((AskView::ReadFile(_), ReplyView::Text(_))) => true,
            Some((AskView::WriteFile(..), ReplyView::Done)) => self.standard is Some,
            _ => false,
        }
    }

    /// A key that does not end the gesture has just been touched.
    pub open spec fn key_touched(self) -> bool {
        self.last matches Some((AskView::Receive(_), ReplyView::Message { msg, .. })) && msg
            is NoteOn && !self.sleepy
    }

    /// The ask belongs to the start of a synthesizer.
    pub open spec fn starts(self, ask: AskView) -> bool {
        match ask {
            AskView::SendMidi(_) => ask != keys_on(),
            AskView::Capture(_) => self.just_asked(pause()),
            AskView::ReadFile(_) => true,
            AskView::Run(_) => self.last matches Some((AskView::ReadFile(_), _)),
            AskView::Spawn(_) => true,
            AskView::StayAwake(_) => true,
            _ => false,
        }
    }

    /// The record after one more exchange.
    pub open spec fn step(self, ask: AskView, reply: ReplyView) -> Record {
        Record {
            start: self.start,
            last: Some((ask, reply)),
            before: match self.last {
                Some((a, _)) => Some(a),
                None => None,
            },
            running: match (ask, reply) {
                (AskView::StayAwake(_), ReplyView::Done) => true,
                (AskView::ReleaseProcess, _) => false,
                _ => self.running,
            },
            midi: match (ask, reply) {
                (AskView::ConnectInput(..), ReplyView::Connected { now }) => Some(
                    MidiConnection {
                        midi_out: self.output,
                        last_note_instant: None,
                        last_update_instant: now,
                        rightmost_count: 0,
                    },
                ),
                (AskView::Receive(_), ReplyView::Message { msg, now }) => match self.midi {
                    Some(midi) => Some(heard(midi, msg, now)),
                    None => None,
                },
                (AskView::CloseMidi, _) => None,
                _ => self.midi,
            },
            output: match (ask, reply) {
                (AskView::OpenOutputs(_), _) => None,
                (AskView::ConnectOutput(..), ReplyView::Done) => Some(MidiOut::first()),
                _ => self.output,
            },
            swapped: if ask == get_volume() {
                self.just_asked(pause())
            } else {
                self.swapped
            },
            standard: match (ask, reply) {
                (AskView::Run(_), ReplyView::Status(status)) => if status.success && (self.last
                    matches Some((AskView::ReadFile(_), _))) {
                    Some(self.told_volume)
                } else {
                    self.standard
                },
                _ => self.standard,
            },
            observed: self.observed || ask is Observe,
            told: match (ask, reply) {
                (AskView::Observe, ReplyView::Observed { shutdown, .. }) => shutdown,
                _ => self.told,
            },
            sleepy: match (ask, reply) {
                (AskView::Observe, ReplyView::Observed { now, .. }) => self.nobody_plays(now),
                (AskView::Receive(_), ReplyView::Message { msg, .. }) => self.midi is Some
                    && ends_the_gesture(self.midi->0, msg),
                _ => self.sleepy,
            },
            inputs: match (ask, reply) {
                (AskView::OpenInputs(_), ReplyView::Ports(count)) => count,
                _ => self.inputs,
            },
            outputs: match (ask, reply) {
                (AskView::OpenOutputs(_), ReplyView::Ports(count)) => count,
                _ => self.outputs,
            },
            chosen: match (ask, reply) {
                (AskView::InputName(port), ReplyView::Name(name)) => if self.matches(name) {
                    Some((port, name))
                } else {
                    self.chosen
                },
                _ => self.chosen,
            },
            told_volume: match (ask, reply) {
                (AskView::Capture(_), ReplyView::Output { stdout, .. }) => printed_words(stdout)[1],
                _ => self.told_volume,
            },
            fault: if fails(ask, reply) && (self.fault is None || self.undoing) {
                Some(failure(ask, reply))
            } else {
                self.fault
            },
            undoing: if fails(ask, reply) {
                self.fault is None && self.starts(ask)
            } else {
                self.undoing
            },
            reasoned: self.reasoned && self.has_reason(ask),
        }
    }

    /// There is a reason to ask for this now.
    pub open spec fn has_reason(self, ask: AskView) -> bool {
        match ask {
            // A running synthesizer is looked at when a tick begins, and when it is to end.
            AskView::TryWait => self.fault is None && self.running && match self.last {
                None => true,
                Some((AskView::Signal(_), ReplyView::Done)) => true,
                Some((AskView::Sleep(_), ReplyView::Done)) => self.stopping(),
                Some((AskView::TryWait, ReplyView::Exited(false))) => self.stopping()
                    && self.before != Some(AskView::TryWait),
                _ => false,
            },
            AskView::Signal(number) => number == 15 && self.fault is None && self.running
                && self.stopping() && (self.last matches Some((a, _)) && (a is Observe
                || a is Receive)),
            // It is let go of directly after it has been seen to have ended, and never else.
            AskView::ReleaseProcess => self.running && self.last == Some(
                (AskView::TryWait, ReplyView::Exited(true)),
            ),
            // The connection is given up when nothing comes over it, and before sleep.
            AskView::CloseMidi => self.midi is Some && (self.last matches Some(
                (AskView::Receive(_), ReplyView::Silence),
            ) || self.sleepy && (self.cleaned() || self.fault is Some)),
            AskView::Capture(_) => {
                ||| ask == pause() && self.fault is None && !self.running && (self.just_done(
                    keys_off(),
                ) || self.key_touched() && self.way_out() is None)
                ||| ask == get_volume() && !self.running && !self.swapped && self.fault is None && (
                self.last matches Some((a, reply)) && a == pause() && paused(reply))
                ||| ask == get_volume() && !self.running && self.swapped && !self.just_asked(
                    pause(),
                )
            },
            AskView::ReadFile(path) => path == self.start.volume.volume_path && self.swapped
                && self.fault is None && self.just_asked(get_volume()),
            AskView::WriteFile(path, text) => path == self.start.volume.volume_path
                && !self.swapped && text == self.told_volume && (self.last matches Some(
                (a, ReplyView::Output { stdout, .. }),
            ) && a == get_volume() && printed_words(stdout).len() > 1),
            AskView::Run(_) => {
                ||| ask == go_to_sleep() && self.fault is None && self.sleepy && !self.running
                    && self.just_done(AskView::Sleep(500))
                ||| self.last matches Some((AskView::ReadFile(_), ReplyView::Text(text))) && ask
                    == set_volume(argument(text))
                ||| self.last matches Some((AskView::WriteFile(..), ReplyView::Done))
                    && self.standard is Some && ask == set_volume(argument(self.standard->0))
            },
            AskView::SendMidi(_) => self.way_out() is Some && !self.running && {
                ||| ask == note_on() && self.fault is None && self.key_touched()
                ||| ask == note_off() && self.just_done(note_on())
                ||| ask == keys_off() && self.just_done(note_off())
                ||| ask == keys_on() && !self.swapped && !self.amid_swap()
            },
            AskView::Spawn(program) => program == self.start.program && self.fault is None
                && !self.running && (self.last matches Some((a, reply)) && (a == pause() && (paused(
                reply,
            ) ==> self.swapped) || a is Run && self.swapped)),
            AskView::StayAwake(_) => ask == stay_awake() && self.just_done(
                AskView::Spawn(self.start.program),
            ),
            AskView::Observe => !self.observed && self.fault is None && (if self.running {
                self.last == Some((AskView::TryWait, ReplyView::Exited(false)))
            } else {
                self.cleaned()
            }),
            AskView::OpenInputs(client) => client == "midi-start-program_input"@ && self.fault
                is None && self.midi is None && !self.stopping() && self.just_asked(
                AskView::Observe,
            ),
            AskView::InputName(port) => port < self.inputs && match self.last {
                Some((AskView::OpenInputs(_), ReplyView::Ports(_))) => port == 0,
                Some((AskView::InputName(other), ReplyView::Name(name))) => port == other + 1
                    && !self.matches(name),
                _ => false,
            },
            AskView::OpenOutputs(client) => client == "midi-start-program_output"@ && (self.last
                matches Some((AskView::InputName(_), ReplyView::Name(name))) && self.matches(name)),
            AskView::OutputName(port) => port < self.outputs && match self.last {
                Some((AskView::OpenOutputs(_), ReplyView::Ports(_))) => port == 0,
                Some((AskView::OutputName(other), ReplyView::Name(name))) => port == other + 1
                    && !self.matches(name),
                _ => false,
            },
            AskView::ConnectOutput(port, client) => client == "midi-start-program_output"@ && (
            self.last matches Some((AskView::OutputName(other), ReplyView::Name(name))) && other
                == port && self.matches(name)),
            // The port that matched is connected to, once it is settled whether there is a way
            // out.
            AskView::ConnectInput(port, name) => self.fault is None && self.chosen == Some(
                (port, name),
            ) && match self.last {
                Some((AskView::OpenOutputs(_), ReplyView::Ports(count))) => count == 0,
                Some((AskView::OutputName(other), ReplyView::Name(n))) => other + 1 == self.outputs
                    && !self.matches(n),
                Some((AskView::ConnectOutput(..), ReplyView::Done)) => true,
                _ => false,
            },
            AskView::Sleep(millis) => {
                ||| millis == 400 && self.fault is None && !self.stopping() && self.nothing_matches()
                ||| millis == 400 && self.fault is None && self.stopping() && self.running
                    && self.last == Some((AskView::TryWait, ReplyView::Exited(false)))
                    && self.before == Some(AskView::TryWait)
                ||| millis == 400 && self.stopping() && self.cleaned()
                ||| millis == 500 && self.fault is None && self.sleepy && !self.running
                    && self.just_done(AskView::CloseMidi)
            },
            AskView::Receive(millis) => millis == 10_000 && self.fault is None && self.midi is Some
                && !self.stopping() && (self.last matches Some((a, _)) && (a is Observe || a
                is ConnectInput)),
        }
    }

    /// All input ports have been asked for their names, and none matched.
    pub open spec fn nothing_matches(self) -> bool {
        self.midi is None && match self.last {
            Some((AskView::OpenInputs(_), ReplyView::Ports(count))) => count == 0,
            Some((AskView::InputName(port), ReplyView::Name(name))) => port + 1 == self.inputs
                && !self.matches(name),
            _ => false,
        }
    }

    /// There is a reason for the tick to end now, and with this result.
    pub open spec fn may_end(self, result: Result<bool, ErrorView>) -> bool {
        match result {
            Err(e) => self.fault == Some(e) && !self.amid_swap() && (!self.running ==> !self.swapped
                && (self.way_out() is Some ==> self.just_asked(keys_on()))),
            Ok(again) => self.fault is None && self.observed && again == !self.told && (
            if self.sleepy {
                self.just_asked(go_to_sleep()) && !self.running && self.midi is None
            } else if self.told {
                self.cleaned()
            } else {
                match self.last {
                    Some((AskView::Receive(_), ReplyView::Garbled)) => true,
                    Some((AskView::Receive(_), ReplyView::Message { msg, .. })) => msg is Other
                        || self.running,
                    Some((AskView::CloseMidi, ReplyView::Done)) => true,
                    Some((AskView::Sleep(_), ReplyView::Done)) => self.midi is None,
                    Some((AskView::StayAwake(_), ReplyView::Done)) => true,
                    _ => false,
                }
            }),
        }
    }

    /// The state of the program is what the record tells.
    pub open spec fn agrees(self, state: AppView) -> bool {
        &&& same_settings(self.start, state)
        &&& state.process is Some <==> self.running
        &&& state.process == Some(PianoteqProcess { has_exited: true }) ==> self.last == Some(
            (AskView::TryWait, ReplyView::Exited(true)),
        )
        &&& same_connection(self.midi, state.midi)
        &&& self.running ==> state.midi == self.midi
        &&& state.volume.swapped == self.swapped
        &&& state.volume.standard_volume == self.standard
        &&& on_first_channel(state)
    }
}

/// Messages to the piano go out on the first channel.
pub open spec fn on_first_channel(state: AppView) -> bool {
    state.midi_out() is Some ==> state.midi_out()->0.channel() == 0
}

/// The record of a tick that began in `start`, from what was asked for and the replies.
pub open spec fn record(start: AppView, asks: Seq<AskView>, replies: Seq<ReplyView>) -> Record
    decreases asks.len(),
{
    if asks.len() == 0 {
        begun(start)
    } else {
        record(start, asks.drop_last(), replies).step(asks.last(), replies[asks.len() - 1])
    }
}

// ---- The record and the procedures ----

/// The asks and replies lead on from those of `s`.
#[verifier::opaque]
spec fn since(s: World<AppView>, asked: Seq<AskView>, replies: Seq<ReplyView>) -> bool {
    &&& grew(s.asked, asked)
    &&& asked.len() - s.asked.len() <= s.replies.len()
    &&& replies == s.replies.skip(asked.len() - s.asked.len())
}

/// The record of a tick that began in `s`.
#[verifier::opaque]
spec fn so_far(s: World<AppView>, asked: Seq<AskView>) -> Record {
    record(s.state, asked.skip(s.asked.len() as int), s.replies)
}

proof fn lemma_begin(s: World<AppView>)
    ensures
        since(s, s.asked, s.replies),
        so_far(s, s.asked) == begun(s.state),
{
    reveal(since);
    reveal(so_far);
    assert(s.asked.skip(s.asked.len() as int) =~= seq![]);
    assert(s.replies.skip(0) =~= s.replies);
}

proof fn lemma_step(
    s: World<AppView>,
    asked: Seq<AskView>,
    replies: Seq<ReplyView>,
    ask: AskView,
)
    requires
        since(s, asked, replies),
        replies.len() > 0,
    ensures
        since(s, asked.push(ask), replies.skip(1)),
        so_far(s, asked.push(ask)) == so_far(s, asked).step(ask, replies[0]),
{
    reveal(since);
    reveal(so_far);
    let n = s.asked.len() as int;
    let a = asked.skip(n);
    let b = asked.push(ask).skip(n);
    assert(b =~= a.push(ask));
    assert(b.drop_last() =~= a);
    assert(replies.skip(1) =~= s.replies.skip(a.len() as int + 1));
}

/// A procedure that waits has asked for something that it had a reason for.
spec fn waits(s: World<AppView>, asked: Seq<AskView>, replies: Seq<ReplyView>) -> bool {
    &&& asked.len() > 0
    &&& since(s, asked.drop_last(), replies)
    &&& replies.len() == 0
    &&& so_far(s, asked.drop_last()).reasoned
    &&& so_far(s, asked.drop_last()).has_reason(asked.last())
}

proof fn lemma_wait(
    s: World<AppView>,
    asked: Seq<AskView>,
    replies: Seq<ReplyView>,
    ask: AskView,
)
    requires
        since(s, asked, replies),
        so_far(s, asked).reasoned,
        so_far(s, asked).has_reason(ask),
        replies.len() == 0,
    ensures
        waits(s, asked.push(ask), replies),
{
    assert(asked.push(ask).drop_last() =~= asked);
}

/// A world that has come about with reason.
spec fn good(s: World<AppView>, w: World<AppView>) -> bool {
    &&& since(s, w.asked, w.replies)
    &&& so_far(s, w.asked).reasoned
    &&& so_far(s, w.asked).agrees(w.state)
}

/// All that a procedure did, it had a reason for.
spec fn kept<T>(s: World<AppView>, run: Run<AppView, T>) -> bool {
    match run {
        Run::Waiting(v) => waits(s, v.asked, v.replies),
        Run::Stuck => true,
        Run::Returned(v, _) => good(s, v),
    }
}

/// Nothing of this has changed.
spec fn same_course(a: Record, b: Record) -> bool {
    &&& a.start == b.start
    &&& a.running == b.running
    &&& a.midi == b.midi
    &&& a.output == b.output
    &&& a.observed == b.observed
    &&& a.told == b.told
    &&& a.sleepy == b.sleepy
}

/// A failure has come to the record.
spec fn came_to(a: Record, b: Record, result: Result<(), ErrorView>) -> bool {
    match result {
        Ok(_) => b.fault == a.fault && b.undoing == a.undoing,
        Err(e) => b.fault == Some(e) && !b.undoing,
    }
}

proof fn lemma_commands(volume: Seq<char>)
    ensures
        get_volume() != pause(),
        set_volume(volume) != go_to_sleep(),
        get_volume() == AskView::Capture(volume::get_volume_command()),
        pause() == AskView::Capture(media::pause_command()),
        go_to_sleep() == AskView::Run(media::suspend_command()),
        set_volume(argument(volume)) == AskView::Run(volume::set_volume_command(volume)),
        stay_awake() == AskView::StayAwake(process::wake_lock()),
{
    reveal_strlit("wpctl");
    reveal_strlit("playerctl");
    reveal_strlit("systemctl");
    assert("wpctl"@.len() != "playerctl"@.len());
    assert("wpctl"@.len() != "systemctl"@.len());
}

proof fn lemma_bytes(midi_out: MidiOut)
    requires
        midi_out.channel() == 0,
    ensures
        note_on() == AskView::SendMidi(midi_out.note(START_NOTE, START_VELOCITY, true)),
        note_off() == AskView::SendMidi(midi_out.note(START_NOTE, START_VELOCITY, false)),
        keys_off() == AskView::SendMidi(midi_out.local_control(false)),
        keys_on() == AskView::SendMidi(midi_out.local_control(true)),
        note_on() != keys_on(),
        note_off() != keys_on(),
        keys_off() != keys_on(),
{
    assert(midi_out.note(START_NOTE, START_VELOCITY, true) =~= seq![0x90u8, 60, 80]);
    assert(midi_out.note(START_NOTE, START_VELOCITY, false) =~= seq![0x80u8, 60, 80]);
    assert(midi_out.local_control(false) =~= seq![0xB0u8, 122, 0]);
    assert(midi_out.local_control(true) =~= seq![0xB0u8, 122, 127]);
    assert(seq![0x90u8, 60, 80][0] != seq![0xB0u8, 122, 127][0]);
    assert(seq![0x80u8, 60, 80][0] != seq![0xB0u8, 122, 127][0]);
    assert(seq![0xB0u8, 122, 0][2] != seq![0xB0u8, 122, 127][2]);
}

/// What is told of a print.
proof fn lemma_volume_in(stdout: Seq<u8>)
    ensures
        volume::volume_in(stdout) == (if printed_words(stdout).len() > 1 {
            Ok::<Seq<char>, ErrorView>(printed_words(stdout)[1])
        } else {
            Err(ErrorView::ParsingVolume(text::trimmed(text::decoded(stdout))))
        }),
{
    words::trimming_keeps_the_words(text::decoded(stdout));
}

/// The same world with another record of the volume.
spec fn with_volume(w: World<AppView>, volume: VolumeView) -> World<AppView> {
    w.with(AppView { volume, ..w.state })
}

proof fn lemma_swap_back(s: World<AppView>, w: World<AppView>)
    requires
        good(s, w),
        !so_far(s, w.asked).running,
        !so_far(s, w.asked).just_asked(pause()),
        !so_far(s, w.asked).amid_swap(),
        so_far(s, w.asked).fault is None || so_far(s, w.asked).undoing,
    ensures
        kept(s, w.swap_volume(false)),
        w.swap_volume(false) matches Run::Returned(v, result) ==> {
            &&& same_course(so_far(s, w.asked), so_far(s, v.asked))
            &&& came_to(so_far(s, w.asked), so_far(s, v.asked), result)
            &&& !so_far(s, v.asked).just_asked(pause())
            &&& !so_far(s, v.asked).amid_swap()
            &&& !v.state.volume.swapped
            &&& v.state == AppView { volume: v.state.volume, ..w.state }
        },
{
    let volume = w.state.volume;
    if volume.swapped {
        lemma_commands(seq![]);
        if w.replies.len() == 0 {
            lemma_wait(s, w.asked, w.replies, get_volume());
        } else {
            lemma_step(s, w.asked, w.replies, get_volume());
            let a = with_volume(w, VolumeView { swapped: false, ..volume }).ask(
                get_volume(),
            ).taken();
            if let ReplyView::Output { stdout, .. } = w.replies[0] {
                lemma_volume_in(stdout);
                if printed_words(stdout).len() > 1 {
                    assert(good(s, a));
                    let keep = AskView::WriteFile(volume.volume_path, printed_words(stdout)[1]);
                    if a.replies.len() == 0 {
                        lemma_wait(s, a.asked, a.replies, keep);
                    } else {
                        lemma_step(s, a.asked, a.replies, keep);
                        let b = a.ask(keep).taken();
                        if a.replies[0] is Done && volume.standard_volume is Some {
                            assert(good(s, b));
                            let standard = volume.standard_volume->0;
                            lemma_commands(standard);
                            lemma_commands(argument(standard));
                            if b.replies.len() == 0 {
                                lemma_wait(s, b.asked, b.replies, set_volume(argument(standard)));
                            } else {
                                lemma_step(s, b.asked, b.replies, set_volume(argument(standard)));
                            }
                        }
                    }
                }
            }
        }
    }
}

proof fn lemma_swap_in(s: World<AppView>, w: World<AppView>)
    requires
        good(s, w),
        !so_far(s, w.asked).running,
        so_far(s, w.asked).fault is None,
        so_far(s, w.asked).last matches Some((a, reply)) && a == pause() && paused(reply),
    ensures
        kept(s, w.swap_volume(true)),
        w.swap_volume(true) matches Run::Returned(v, result) ==> {
            &&& same_course(so_far(s, w.asked), so_far(s, v.asked))
            &&& v.state == AppView { volume: v.state.volume, ..w.state }
            &&& v.state.volume.swapped
            &&& match result {
                Ok(_) => so_far(s, v.asked).fault is None && (so_far(s, v.asked).last matches Some(
                    (a, reply),
                ) && (a == pause() || a is Run)),
                Err(e) => so_far(s, v.asked).fault == Some(e) && so_far(s, v.asked).undoing
                    && !so_far(s, v.asked).just_asked(pause()) && !so_far(s, v.asked).amid_swap(),
            }
        },
{
    let volume = w.state.volume;
    if !volume.swapped {
        lemma_commands(seq![]);
        if w.replies.len() == 0 {
            lemma_wait(s, w.asked, w.replies, get_volume());
        } else {
            lemma_step(s, w.asked, w.replies, get_volume());
            let a = with_volume(w, VolumeView { swapped: true, ..volume }).ask(
                get_volume(),
            ).taken();
            if let ReplyView::Output { stdout, .. } = w.replies[0] {
                lemma_volume_in(stdout);
                if printed_words(stdout).len() > 1 {
                    assert(good(s, a));
                    let fetch = AskView::ReadFile(volume.volume_path);
                    if a.replies.len() == 0 {
                        lemma_wait(s, a.asked, a.replies, fetch);
                    } else {
                        lemma_step(s, a.asked, a.replies, fetch);
                        let b = a.ask(fetch).taken();
                        if let ReplyView::Text(playing) = a.replies[0] {
                            assert(good(s, b));
                            lemma_commands(playing);
                            lemma_commands(argument(playing));
                            if b.replies.len() == 0 {
                                lemma_wait(s, b.asked, b.replies, set_volume(argument(playing)));
                            } else {
                                lemma_step(s, b.asked, b.replies, set_volume(argument(playing)));
                            }
                        }
                    }
                }
            }
        }
    }
}

/// The keys sound by themselves, where the piano can be reached.
spec fn sounds(t: Record) -> bool {
    !t.amid_swap() && (t.way_out() is Some ==> t.just_asked(keys_on()))
}

proof fn lemma_cleanup(s: World<AppView>, w: World<AppView>)
    requires
        good(s, w),
        !so_far(s, w.asked).running,
        !so_far(s, w.asked).just_asked(pause()),
        !so_far(s, w.asked).amid_swap(),
        so_far(s, w.asked).fault is None || so_far(s, w.asked).undoing,
    ensures
        kept(s, w.do_process_cleanup()),
        w.do_process_cleanup() matches Run::Returned(v, result) ==> {
            &&& same_course(so_far(s, w.asked), so_far(s, v.asked))
            &&& came_to(so_far(s, w.asked), so_far(s, v.asked), result)
            &&& !so_far(s, v.asked).just_asked(pause())
            &&& !so_far(s, v.asked).swapped
            &&& sounds(so_far(s, v.asked))
            &&& v.state.midi matches Some(midi) ==> midi.last_note_instant is None
        },
{
    lemma_swap_back(s, w);
    if let Run::Returned(u, swapped) = w.swap_volume(false) {
        let x = u.forget_note();
        assert(good(s, x));
        if let Some(midi_out) = x.state.midi_out() {
            lemma_bytes(midi_out);
            if x.replies.len() == 0 {
                lemma_wait(s, x.asked, x.replies, keys_on());
            } else {
                lemma_step(s, x.asked, x.replies, keys_on());
            }
        }
    }
}

/// No touch of a key is remembered where there is no synthesizer, and one that is known to
/// have ended is not kept.
pub open spec fn quiet(state: AppView) -> bool {
    &&& state.process != Some(PianoteqProcess { has_exited: true })
    &&& state.process is None && state.midi is Some ==> state.midi->0.last_note_instant is None
}

/// Nothing of this has changed, whatever became of the synthesizer.
spec fn same_tick(a: Record, b: Record) -> bool {
    &&& a.start == b.start
    &&& a.midi == b.midi
    &&& a.output == b.output
    &&& a.observed == b.observed
    &&& a.told == b.told
    &&& a.sleepy == b.sleepy
}

/// A failure that ends the tick.
spec fn failed(t: Record, e: ErrorView) -> bool {
    t.fault == Some(e) && !t.amid_swap() && (!t.running ==> !t.swapped && sounds(t))
}

proof fn lemma_maybe(s: World<AppView>, w: World<AppView>)
    requires
        good(s, w),
        so_far(s, w.asked).fault is None,
        w.state.process == Some(PianoteqProcess { has_exited: false }) ==> so_far(
            s,
            w.asked,
        ).has_reason(AskView::TryWait),
        !so_far(s, w.asked).just_asked(pause()),
        !so_far(s, w.asked).amid_swap(),
    ensures
        kept(s, w.maybe_cleanup_process()),
        w.maybe_cleanup_process() matches Run::Returned(v, result) ==> {
            let t = so_far(s, v.asked);
            &&& same_tick(so_far(s, w.asked), t)
            &&& quiet(v.state)
            &&& !t.just_asked(pause())
            &&& !t.amid_swap()
            &&& match result {
                Ok(_) => {
                    &&& t.fault is None
                    &&& t.running ==> t.last == Some((AskView::TryWait, ReplyView::Exited(false)))
                        && t.before == (match so_far(s, w.asked).last {
                        Some((a, _)) => Some(a),
                        None => None,
                    })
                    &&& !t.running ==> t.cleaned()
                },
                Err(e) => failed(t, e),
            }
        },
{
    match w.state.process {
        None => {
            lemma_cleanup(s, w);
        },
        Some(process) => {
            let ended = PianoteqProcess { has_exited: true };
            let a = w.ask(AskView::TryWait).taken().with_process(Some(ended));
            let u = if process.has_exited {
                w
            } else {
                a
            };
            if !process.has_exited {
                if w.replies.len() == 0 {
                    lemma_wait(s, w.asked, w.replies, AskView::TryWait);
                } else {
                    lemma_step(s, w.asked, w.replies, AskView::TryWait);
                }
            }
            if process.has_exited || w.replies.len() > 0 && w.replies[0] == ReplyView::Exited(
                true,
            ) {
                assert(good(s, u));
                if u.replies.len() == 0 {
                    lemma_wait(s, u.asked, u.replies, AskView::ReleaseProcess);
                } else {
                    lemma_step(s, u.asked, u.replies, AskView::ReleaseProcess);
                    let x = u.with_process(None).ask(AskView::ReleaseProcess).taken();
                    if u.replies[0] is Done {
                        assert(good(s, x));
                        lemma_cleanup(s, x);
                    }
                }
            }
        },
    }
}

/// What the end of the synthesizer comes to.
spec fn end_comes_to(
    a: Record,
    t: Record,
    state: AppView,
    result: Result<(), ErrorView>,
) -> bool {
    &&& same_tick(a, t)
    &&& quiet(state)
    &&& !t.just_asked(pause())
    &&& !t.amid_swap()
    &&& match result {
        Ok(_) => t.cleaned(),
        Err(e) => failed(t, e),
    }
}

proof fn lemma_wait_for_exit(s: World<AppView>, w: World<AppView>)
    requires
        good(s, w),
        so_far(s, w.asked).fault is None,
        so_far(s, w.asked).stopping(),
        w.state.process != Some(PianoteqProcess { has_exited: true }),
        so_far(s, w.asked).running ==> (so_far(s, w.asked).last matches Some((a, reply)) && reply
            is Done && (a is Signal || a is Sleep)),
        !so_far(s, w.asked).just_asked(pause()),
        !so_far(s, w.asked).amid_swap(),
    ensures
        kept(s, w.wait_for_exit()),
        w.wait_for_exit() matches Run::Returned(v, result) ==> end_comes_to(
            so_far(s, w.asked),
            so_far(s, v.asked),
            v.state,
            result,
        ),
    decreases w.replies.len(),
{
    match w.state.process {
        None => {
            lemma_maybe(s, w);
        },
        Some(_) => {
            if w.replies.len() == 0 {
                lemma_wait(s, w.asked, w.replies, AskView::TryWait);
            } else {
                lemma_step(s, w.asked, w.replies, AskView::TryWait);
                if let ReplyView::Exited(has_exited) = w.replies[0] {
                    let v = w.ask(AskView::TryWait).taken().with_process(
                        Some(PianoteqProcess { has_exited }),
                    );
                    assert(good(s, v));
                    lemma_maybe(s, v);
                    if !has_exited {
                        if let Run::Returned(u, Ok(_)) = v.maybe_cleanup_process() {
                            v.lemma_cleanup_takes_replies();
                            let rest = AskView::Sleep(RETRY_MILLIS);
                            if u.replies.len() == 0 {
                                lemma_wait(s, u.asked, u.replies, rest);
                            } else {
                                lemma_step(s, u.asked, u.replies, rest);
                                if u.replies[0] is Done {
                                    let x = u.ask(rest).taken();
                                    assert(good(s, x));
                                    lemma_wait_for_exit(s, x);
                                }
                            }
                        }
                    }
                }
            }
        },
    }
}

proof fn lemma_terminate(s: World<AppView>, w: World<AppView>)
    requires
        good(s, w),
        so_far(s, w.asked).fault is None,
        so_far(s, w.asked).stopping(),
        w.state.process != Some(PianoteqProcess { has_exited: true }),
        so_far(s, w.asked).running ==> (so_far(s, w.asked).last matches Some((a, _)) && (a
            is Observe || a is Receive)),
        !so_far(s, w.asked).just_asked(pause()),
        !so_far(s, w.asked).amid_swap(),
    ensures
        kept(s, w.terminate_and_wait()),
        w.terminate_and_wait() matches Run::Returned(v, result) ==> end_comes_to(
            so_far(s, w.asked),
            so_far(s, v.asked),
            v.state,
            result,
        ),
{
    match w.state.process {
        None => {
            lemma_wait_for_exit(s, w);
        },
        Some(_) => {
            let signal = AskView::Signal(process::SIGTERM);
            if w.replies.len() == 0 {
                lemma_wait(s, w.asked, w.replies, signal);
            } else {
                lemma_step(s, w.asked, w.replies, signal);
                if w.replies[0] is Done {
                    let x = w.ask(signal).taken();
                    assert(good(s, x));
                    lemma_wait_for_exit(s, x);
                }
            }
        },
    }
}

/// What sleep comes to.
spec fn sleep_comes_to(
    a: Record,
    t: Record,
    state: AppView,
    result: Result<(), ErrorView>,
) -> bool {
    &&& a.observed == t.observed
    &&& a.told == t.told
    &&& a.sleepy == t.sleepy
    &&& t.midi is None
    &&& quiet(state)
    &&& match result {
        Ok(_) => t.fault is None && t.just_asked(go_to_sleep()) && !t.running,
        Err(e) => failed(t, e),
    }
}

proof fn lemma_suspend(s: World<AppView>, w: World<AppView>)
    requires
        good(s, w),
        so_far(s, w.asked).fault is None,
        so_far(s, w.asked).sleepy,
        so_far(s, w.asked).midi is Some,
        w.state.process != Some(PianoteqProcess { has_exited: true }),
        so_far(s, w.asked).running ==> (so_far(s, w.asked).last matches Some((a, _)) && (a
            is Observe || a is Receive)),
        !so_far(s, w.asked).just_asked(pause()),
        !so_far(s, w.asked).amid_swap(),
    ensures
        kept(s, w.suspend()),
        w.suspend() matches Run::Returned(v, result) ==> sleep_comes_to(
            so_far(s, w.asked),
            so_far(s, v.asked),
            v.state,
            result,
        ),
{
    lemma_terminate(s, w);
    lemma_commands(seq![]);
    if let Run::Returned(u, result) = w.terminate_and_wait() {
        if u.replies.len() == 0 {
            lemma_wait(s, u.asked, u.replies, AskView::CloseMidi);
        } else {
            lemma_step(s, u.asked, u.replies, AskView::CloseMidi);
            let a = u.with_midi(None).ask(AskView::CloseMidi).taken();
            if u.replies[0] is Done {
                assert(good(s, a));
                if result is Ok {
                    let settle = AskView::Sleep(SETTLE_MILLIS);
                    if a.replies.len() == 0 {
                        lemma_wait(s, a.asked, a.replies, settle);
                    } else {
                        lemma_step(s, a.asked, a.replies, settle);
                        let b = a.ask(settle).taken();
                        if a.replies[0] is Done {
                            assert(good(s, b));
                            if b.replies.len() == 0 {
                                lemma_wait(s, b.asked, b.replies, go_to_sleep());
                            } else {
                                lemma_step(s, b.asked, b.replies, go_to_sleep());
                            }
                        }
                    }
                }
            }
        }
    }
}

/// What a part of the start comes to.
spec fn start_comes_to(
    a: Record,
    t: Record,
    before: AppView,
    state: AppView,
    result: Result<(), ErrorView>,
) -> bool {
    &&& same_tick(a, t)
    &&& state.midi == before.midi
    &&& !t.just_asked(pause())
    &&& !t.amid_swap()
    &&& match result {
        Ok(_) => {
            &&& t.fault is None
            &&& t.running
            &&& t.last matches Some((AskView::StayAwake(_), ReplyView::Done))
            &&& state.process == Some(PianoteqProcess { has_exited: false })
        },
        Err(e) => t.fault == Some(e) && t.undoing && !t.running,
    }
}

proof fn lemma_spawn(s: World<AppView>, w: World<AppView>)
    requires
        good(s, w),
        so_far(s, w.asked).fault is None,
        so_far(s, w.asked).has_reason(AskView::Spawn(w.state.program)),
        w.state.midi == so_far(s, w.asked).midi,
    ensures
        kept(s, w.spawn()),
        w.spawn() matches Run::Returned(v, result) ==> start_comes_to(
            so_far(s, w.asked),
            so_far(s, v.asked),
            w.state,
            v.state,
            result,
        ),
{
    lemma_commands(seq![]);
    let spawn = AskView::Spawn(w.state.program);
    if w.replies.len() == 0 {
        lemma_wait(s, w.asked, w.replies, spawn);
    } else {
        lemma_step(s, w.asked, w.replies, spawn);
        let a = w.ask(spawn).taken();
        if w.replies[0] is Done {
            assert(good(s, a));
            if a.replies.len() == 0 {
                lemma_wait(s, a.asked, a.replies, stay_awake());
            } else {
                lemma_step(s, a.asked, a.replies, stay_awake());
            }
        }
    }
}

proof fn lemma_pause(s: World<AppView>, w: World<AppView>)
    requires
        good(s, w),
        so_far(s, w.asked).fault is None,
        so_far(s, w.asked).has_reason(pause()),
        !so_far(s, w.asked).just_asked(pause()),
        !so_far(s, w.asked).amid_swap(),
        w.state.midi == so_far(s, w.asked).midi,
    ensures
        kept(s, w.pause_media()),
        w.pause_media() matches Run::Returned(v, result) ==> start_comes_to(
            so_far(s, w.asked),
            so_far(s, v.asked),
            w.state,
            v.state,
            result,
        ),
{
    lemma_commands(seq![]);
    assert(!so_far(s, w.asked).running);
    if w.replies.len() == 0 {
        lemma_wait(s, w.asked, w.replies, pause());
    } else {
        lemma_step(s, w.asked, w.replies, pause());
        let a = w.ask(pause()).taken();
        if w.replies[0] is Output || w.replies[0] is Failed {
            assert(good(s, a));
            if paused(w.replies[0]) {
                lemma_swap_in(s, a);
                if let Run::Returned(b, Ok(_)) = a.swap_volume(true) {
                    lemma_spawn(s, b);
                }
            } else {
                lemma_spawn(s, a);
            }
        }
    }
}

proof fn lemma_touch(s: World<AppView>, w: World<AppView>)
    requires
        good(s, w),
        so_far(s, w.asked).fault is None,
        !so_far(s, w.asked).running,
        so_far(s, w.asked).key_touched(),
        w.state.midi == so_far(s, w.asked).midi,
    ensures
        kept(s, w.touch_on()),
        w.touch_on() matches Run::Returned(v, result) ==> start_comes_to(
            so_far(s, w.asked),
            so_far(s, v.asked),
            w.state,
            v.state,
            result,
        ),
{
    match w.state.midi_out() {
        None => {
            lemma_pause(s, w);
        },
        Some(midi_out) => {
            lemma_bytes(midi_out);
            if w.replies.len() == 0 {
                lemma_wait(s, w.asked, w.replies, note_on());
            } else {
                lemma_step(s, w.asked, w.replies, note_on());
                let a = w.ask(note_on()).taken();
                if w.replies[0] is Done {
                    assert(good(s, a));
                    if a.replies.len() == 0 {
                        lemma_wait(s, a.asked, a.replies, note_off());
                    } else {
                        lemma_step(s, a.asked, a.replies, note_off());
                        let b = a.ask(note_off()).taken();
                        if a.replies[0] is Done {
                            assert(good(s, b));
                            if b.replies.len() == 0 {
                                lemma_wait(s, b.asked, b.replies, keys_off());
                            } else {
                                lemma_step(s, b.asked, b.replies, keys_off());
                                let c = b.ask(keys_off()).taken();
                                if b.replies[0] is Done {
                                    assert(good(s, c));
                                    lemma_pause(s, c);
                                }
                            }
                        }
                    }
                }
            }
        },
    }
}

proof fn lemma_start(s: World<AppView>, w: World<AppView>)
    requires
        good(s, w),
        so_far(s, w.asked).fault is None,
        so_far(s, w.asked).key_touched(),
        w.state.midi == so_far(s, w.asked).midi,
        w.state.process != Some(PianoteqProcess { has_exited: true }),
    ensures
        kept(s, w.start_process()),
        w.start_process() matches Run::Returned(v, result) ==> {
            let a = so_far(s, w.asked);
            let t = so_far(s, v.asked);
            &&& same_tick(a, t)
            &&& quiet(v.state)
            &&& match result {
                Ok(_) => t.fault is None && t.running && (t == a || (t.last matches Some(
                    (AskView::StayAwake(_), ReplyView::Done),
                ))),
                Err(e) => failed(t, e),
            }
        },
{
    if w.state.process is None {
        lemma_touch(s, w);
        if let Run::Returned(v, Err(e)) = w.touch_on() {
            lemma_cleanup(s, v);
        }
    }
}

/// Nothing of this has changed in the search for ports.
spec fn same_search(a: Record, b: Record) -> bool {
    &&& a.start == b.start
    &&& a.running == b.running
    &&& a.midi == b.midi
    &&& a.swapped == b.swapped
    &&& a.standard == b.standard
    &&& a.observed == b.observed
    &&& a.told == b.told
    &&& a.sleepy == b.sleepy
    &&& a.chosen == b.chosen
}

/// The names of the output ports before `port` have been asked for, and none matched.
spec fn outputs_tried(t: Record, port: usize) -> bool {
    match t.last {
        Some((AskView::OpenOutputs(_), ReplyView::Ports(count))) => port == 0 && count
            == t.outputs,
        Some((AskView::OutputName(other), ReplyView::Name(name))) => port == other + 1
            && !t.matches(name),
        _ => false,
    }
}

/// What the search for an output comes to.
spec fn output_comes_to(
    s: World<AppView>,
    a: Record,
    run: Run<(), Result<Option<MidiOut>, ErrorView>>,
) -> bool {
    match run {
        Run::Waiting(v) => waits(s, v.asked, v.replies),
        Run::Stuck => true,
        Run::Returned(v, result) => {
            let t = so_far(s, v.asked);
            &&& since(s, v.asked, v.replies)
            &&& t.reasoned
            &&& same_search(a, t)
            &&& match result {
                Ok(output) => t.fault is None && t.output == output && t.chosen is Some
                    && t.has_reason(AskView::ConnectInput((t.chosen->0).0, (t.chosen->0).1)) && (output
                    is Some ==> output == Some(MidiOut::first())) && !(t.last matches Some(
                    (AskView::TryWait, _),
                )),
                Err(e) => t.fault == Some(e) && !(e is NoMatchingMidiPort) && !t.amid_swap() && !(
                t.last matches Some((AskView::TryWait, _))),
            }
        },
    }
}

proof fn lemma_find_output(s: World<AppView>, w: World<()>, port: usize, count: usize)
    requires
        since(s, w.asked, w.replies),
        so_far(s, w.asked).reasoned,
        so_far(s, w.asked).fault is None,
        so_far(s, w.asked).chosen is Some,
        so_far(s, w.asked).output is None,
        so_far(s, w.asked).outputs == count,
        port <= count,
        outputs_tried(so_far(s, w.asked), port),
    ensures
        output_comes_to(
            s,
            so_far(s, w.asked),
            w.find_output(so_far(s, w.asked).start.device_prefix, port, count),
        ),
    decreases count - port,
{
    if port < count {
        let ask = AskView::OutputName(port);
        if w.replies.len() == 0 {
            lemma_wait(s, w.asked, w.replies, ask);
        } else {
            lemma_step(s, w.asked, w.replies, ask);
            let a = w.ask(ask).taken();
            if let ReplyView::Name(name) = w.replies[0] {
                if so_far(s, w.asked).matches(name) {
                    let connect = AskView::ConnectOutput(port, midi_out::output_client());
                    if a.replies.len() == 0 {
                        lemma_wait(s, a.asked, a.replies, connect);
                    } else {
                        lemma_step(s, a.asked, a.replies, connect);
                    }
                } else {
                    lemma_find_output(s, a, (port + 1) as usize, count);
                }
            }
        }
    }
}

/// What a connection comes to.
spec fn connection_comes_to(
    a: Record,
    t: Record,
    state: AppView,
    result: Result<(), ErrorView>,
) -> bool {
    &&& a.start == t.start
    &&& a.running == t.running
    &&& a.swapped == t.swapped
    &&& a.observed == t.observed
    &&& a.told == t.told
    &&& a.sleepy == t.sleepy
    &&& match result {
        Ok(_) => t.fault is None && t.midi is Some && state.midi == t.midi
            && t.midi->0.last_note_instant is None && (t.last matches Some(
            (AskView::ConnectInput(..), _),
        )),
        Err(e) => t.midi is None && !(t.last matches Some((AskView::TryWait, _))) && if e
            is NoMatchingMidiPort {
            t.fault is None && t.nothing_matches()
        } else {
            t.fault == Some(e) && !t.amid_swap()
        },
    }
}

proof fn lemma_connect(s: World<AppView>, w: World<AppView>, port: usize, name: Seq<char>)
    requires
        good(s, w),
        so_far(s, w.asked).fault is None,
        so_far(s, w.asked).midi is None,
        so_far(s, w.asked).chosen == Some((port, name)),
        so_far(s, w.asked).last matches Some((AskView::InputName(_), ReplyView::Name(n)))
            && so_far(s, w.asked).matches(n),
    ensures
        kept(s, w.open_output_for(port, name)),
        w.open_output_for(port, name) matches Run::Returned(v, result) ==> connection_comes_to(
            so_far(s, w.asked),
            so_far(s, v.asked),
            v.state,
            result,
        ),
{
    let client = AskView::OpenOutputs(midi_out::output_client());
    MidiOut::first_channel();
    if w.replies.len() == 0 {
        lemma_wait(s, w.asked, w.replies, client);
    } else {
        lemma_step(s, w.asked, w.replies, client);
        let a = w.with(()).ask(client).taken();
        if let ReplyView::Ports(count) = w.replies[0] {
            lemma_find_output(s, a, 0, count);
            let run = a.find_output(w.state.device_prefix, 0, count);
            assert(output_comes_to(s, so_far(s, a.asked), run));
            if let Run::Returned(b, Ok(output)) = run {
                let connect = AskView::ConnectInput(port, name);
                if b.replies.len() == 0 {
                    lemma_wait(s, b.asked, b.replies, connect);
                } else {
                    lemma_step(s, b.asked, b.replies, connect);
                }
            }
        }
    }
}

/// The names of the input ports before `port` have been asked for, and none matched.
spec fn inputs_tried(t: Record, port: usize) -> bool {
    match t.last {
        Some((AskView::OpenInputs(_), ReplyView::Ports(count))) => port == 0 && count == t.inputs,
        Some((AskView::InputName(other), ReplyView::Name(name))) => port == other + 1
            && !t.matches(name),
        _ => false,
    }
}

proof fn lemma_find_input(s: World<AppView>, w: World<AppView>, port: usize, count: usize)
    requires
        good(s, w),
        so_far(s, w.asked).fault is None,
        so_far(s, w.asked).midi is None,
        so_far(s, w.asked).inputs == count,
        port <= count,
        inputs_tried(so_far(s, w.asked), port),
    ensures
        kept(s, w.find_input(port, count)),
        w.find_input(port, count) matches Run::Returned(v, result) ==> connection_comes_to(
            so_far(s, w.asked),
            so_far(s, v.asked),
            v.state,
            result,
        ),
    decreases count - port,
{
    if port < count {
        let ask = AskView::InputName(port);
        if w.replies.len() == 0 {
            lemma_wait(s, w.asked, w.replies, ask);
        } else {
            lemma_step(s, w.asked, w.replies, ask);
            let a = w.ask(ask).taken();
            if let ReplyView::Name(name) = w.replies[0] {
                assert(good(s, a));
                if so_far(s, w.asked).matches(name) {
                    lemma_connect(s, a, port, name);
                } else {
                    lemma_find_input(s, a, (port + 1) as usize, count);
                }
            }
        }
    }
}

/// A tick that is over had its reasons.
spec fn over(s: World<AppView>, run: TickOutcome) -> bool {
    &&& kept(s, run)
    &&& run matches Run::Returned(v, result) ==> so_far(s, v.asked).may_end(result) && quiet(
        v.state,
    )
}

proof fn lemma_receive(s: World<AppView>, w: World<AppView>)
    requires
        good(s, w),
        quiet(w.state),
        so_far(s, w.asked).fault is None,
        so_far(s, w.asked).observed,
        so_far(s, w.asked).has_reason(AskView::Receive(RECEIVE_MILLIS)),
        !so_far(s, w.asked).running ==> !so_far(s, w.asked).swapped,
    ensures
        over(s, w.receive()),
{
    let ask = AskView::Receive(RECEIVE_MILLIS);
    lemma_commands(seq![]);
    if w.replies.len() == 0 {
        lemma_wait(s, w.asked, w.replies, ask);
    } else {
        lemma_step(s, w.asked, w.replies, ask);
        let a = w.ask(ask).taken();
        let midi = w.state.midi->0;
        match w.replies[0] {
            ReplyView::Message { msg, now } => {
                let x = a.with_midi(Some(midi.after(msg, now)));
                assert(good(s, x));
                if msg is NoteOn {
                    assert(x.state.midi == so_far(s, x.asked).midi);
                    if so_far(s, x.asked).sleepy {
                        lemma_suspend(s, x);
                    } else {
                        lemma_start(s, x);
                    }
                }
            },
            ReplyView::Silence => {
                if a.replies.len() == 0 {
                    lemma_wait(s, a.asked, a.replies, AskView::CloseMidi);
                } else {
                    lemma_step(s, a.asked, a.replies, AskView::CloseMidi);
                }
            },
            _ => {},
        }
    }
}

proof fn lemma_listen(s: World<AppView>, w: World<AppView>)
    requires
        good(s, w),
        quiet(w.state),
        so_far(s, w.asked).fault is None,
        so_far(s, w.asked).observed,
        !so_far(s, w.asked).stopping(),
        so_far(s, w.asked).just_asked(AskView::Observe),
        !so_far(s, w.asked).running ==> !so_far(s, w.asked).swapped,
    ensures
        over(s, w.listen()),
{
    if w.state.midi is Some {
        lemma_receive(s, w);
    } else {
        let ask = AskView::OpenInputs(program::input_client());
        if w.replies.len() == 0 {
            lemma_wait(s, w.asked, w.replies, ask);
        } else {
            lemma_step(s, w.asked, w.replies, ask);
            let a = w.ask(ask).taken();
            if let ReplyView::Ports(count) = w.replies[0] {
                assert(good(s, a));
                lemma_find_input(s, a, 0, count);
                match a.find_input(0, count) {
                    Run::Returned(b, Ok(_)) => {
                        lemma_receive(s, b);
                    },
                    Run::Returned(b, Err(ErrorView::NoMatchingMidiPort)) => {
                        if b.replies.len() == 0 {
                            lemma_wait(s, b.asked, b.replies, AskView::Sleep(RETRY_MILLIS));
                        } else {
                            lemma_step(s, b.asked, b.replies, AskView::Sleep(RETRY_MILLIS));
                        }
                    },
                    _ => {},
                }
            }
        }
    }
}

proof fn lemma_observe(s: World<AppView>, w: World<AppView>)
    requires
        good(s, w),
        quiet(w.state),
        so_far(s, w.asked).fault is None,
        so_far(s, w.asked).has_reason(AskView::Observe),
        !so_far(s, w.asked).told,
        !so_far(s, w.asked).sleepy,
    ensures
        over(s, w.observe()),
{
    if w.replies.len() == 0 {
        lemma_wait(s, w.asked, w.replies, AskView::Observe);
    } else {
        lemma_step(s, w.asked, w.replies, AskView::Observe);
        let a = w.ask(AskView::Observe).taken();
        if let ReplyView::Observed { shutdown, now } = w.replies[0] {
            assert(good(s, a));
            assert(w.state.is_idle(now) == so_far(s, w.asked).nobody_plays(now));
            if shutdown || w.state.is_idle(now) {
                lemma_terminate(s, a);
                if let Run::Returned(b, Ok(_)) = a.terminate_and_wait() {
                    if w.state.is_idle(now) {
                        lemma_suspend(s, b);
                    }
                }
            } else {
                lemma_listen(s, a);
            }
        }
    }
}

// ---- The laws ----

/// The asks of a tick, from where it began.
pub open spec fn asks_of(w: World<AppView>, asked: Seq<AskView>) -> Seq<AskView> {
    asked.skip(w.asked.len() as int)
}

/// Everything that a tick asks for has its reason in what came before it in that tick, and so
/// has the end of the tick, and the result that it ends with. Each ask takes one reply. What
/// the program then is, the asks and the replies tell. All this holds whatever the system
/// answers, and of a tick that is not over as far as it has come.
pub proof fn everything_in_a_tick_has_its_reason(w: World<AppView>)
    requires
        on_first_channel(w.state),
        w.state.process != Some(PianoteqProcess { has_exited: true }),
    ensures
        w.tick_main() matches Run::Returned(v, result) ==> {
            let t = record(w.state, asks_of(w, v.asked), w.replies);
            &&& grew(w.asked, v.asked)
            &&& asks_of(w, v.asked).len() <= w.replies.len()
            &&& v.replies == w.replies.skip(asks_of(w, v.asked).len() as int)
            &&& t.reasoned
            &&& t.may_end(result)
            &&& t.agrees(v.state)
            &&& quiet(v.state)
        },
        w.tick_main() matches Run::Waiting(v) ==> {
            &&& v.asked.len() > w.asked.len()
            &&& grew(w.asked, v.asked)
            &&& asks_of(w, v.asked).len() == w.replies.len() + 1
            &&& record(w.state, asks_of(w, v.asked.drop_last()), w.replies).reasoned
            &&& record(w.state, asks_of(w, v.asked.drop_last()), w.replies).has_reason(
                v.asked.last(),
            )
        },
{
    lemma_begin(w);
    assert(good(w, w));
    lemma_maybe(w, w);
    if let Run::Returned(u, Ok(_)) = w.maybe_cleanup_process() {
        lemma_observe(w, u);
    }
    reveal(since);
    reveal(so_far);
    if let Run::Waiting(v) = w.tick_main() {
        assert(waits(w, v.asked, v.replies));
        assert(grew(w.asked, v.asked.drop_last()));
        assert forall|i: int| 0 <= i < w.asked.len() implies #[trigger] v.asked[i] == w.asked[i] by {
            assert(v.asked.drop_last()[i] == v.asked[i]);
        }
    }
}

/// Where everything in a record had its reason, so had each ask in what came before it.
pub proof fn each_ask_has_its_reason(
    start: AppView,
    asks: Seq<AskView>,
    replies: Seq<ReplyView>,
    i: int,
)
    requires
        record(start, asks, replies).reasoned,
        0 <= i < asks.len(),
    ensures
        record(start, asks.take(i), replies).has_reason(asks[i]),
        i > 0 ==> record(start, asks.take(i), replies).last == Some((asks[i - 1], replies[i - 1])),
    decreases asks.len(),
{
    let before = asks.drop_last();
    if i == asks.len() - 1 {
        assert(asks.take(i) =~= before);
    } else {
        each_ask_has_its_reason(start, before, replies, i);
        assert(before.take(i) =~= asks.take(i));
    }
}

/// In a tick, the synthesizer is let go of only directly after a look at it has found that it
/// has ended.
pub proof fn a_release_follows_an_end(
    w: World<AppView>,
    v: World<AppView>,
    result: Result<bool, ErrorView>,
    i: int,
)
    requires
        on_first_channel(w.state),
        w.state.process != Some(PianoteqProcess { has_exited: true }),
        w.tick_main() == Run::Returned(v, result),
        0 <= i < asks_of(w, v.asked).len(),
        asks_of(w, v.asked)[i] is ReleaseProcess,
    ensures
        i > 0,
        asks_of(w, v.asked)[i - 1] is TryWait,
        w.replies[i - 1] == ReplyView::Exited(true),
{
    everything_in_a_tick_has_its_reason(w);
    each_ask_has_its_reason(w.state, asks_of(w, v.asked), w.replies, i);
    if i == 0 {
        assert(asks_of(w, v.asked).take(0) =~= seq![]);
    }
}

proof fn lemma_running(start: AppView, asks: Seq<AskView>, replies: Seq<ReplyView>) -> (i: int)
    requires
        start.process is Some,
        !record(start, asks, replies).running,
    ensures
        0 <= i < asks.len(),
        asks[i] is ReleaseProcess,
    decreases asks.len(),
{
    if asks.last() is ReleaseProcess {
        asks.len() - 1
    } else {
        let i = lemma_running(start, asks.drop_last(), replies);
        assert(asks.drop_last()[i] == asks[i]);
        i
    }
}

/// A tick after which the synthesizer is gone has seen that it ended. Until it has, the
/// synthesizer is the program's own after every tick, whether the tick succeeds or fails.
pub proof fn a_synthesizer_is_kept_until_it_ends(
    w: World<AppView>,
    v: World<AppView>,
    result: Result<bool, ErrorView>,
)
    requires
        on_first_channel(w.state),
        w.state.process == Some(PianoteqProcess { has_exited: false }),
        w.tick_main() == Run::Returned(v, result),
        forall|i: int|
            0 <= i < asks_of(w, v.asked).len() && asks_of(w, v.asked)[i] is TryWait ==> #[trigger]
                w.replies[i] != ReplyView::Exited(true),
    ensures
        v.state.process == w.state.process,
{
    everything_in_a_tick_has_its_reason(w);
    let asks = asks_of(w, v.asked);
    if v.state.process is None {
        let i = lemma_running(w.state, asks, w.replies);
        a_release_follows_an_end(w, v, result, i);
        assert(w.replies[i - 1] != ReplyView::Exited(true));
    }
}

/// A tick that succeeds had no failure that counts, and one that fails tells of one.
pub proof fn a_tick_fails_where_something_failed(
    w: World<AppView>,
    v: World<AppView>,
    result: Result<bool, ErrorView>,
)
    requires
        on_first_channel(w.state),
        w.state.process != Some(PianoteqProcess { has_exited: true }),
        w.tick_main() == Run::Returned(v, result),
    ensures
        result is Ok ==> forall|i: int|
            0 <= i < asks_of(w, v.asked).len() ==> !fails(
                #[trigger] asks_of(w, v.asked)[i],
                w.replies[i],
            ),
        result matches Err(e) ==> exists|i: int|
            0 <= i < asks_of(w, v.asked).len() && fails(
                #[trigger] asks_of(w, v.asked)[i],
                w.replies[i],
            ) && failure(asks_of(w, v.asked)[i], w.replies[i]) == e,
{
    everything_in_a_tick_has_its_reason(w);
    lemma_faults(w.state, asks_of(w, v.asked), w.replies);
}

proof fn lemma_faults(start: AppView, asks: Seq<AskView>, replies: Seq<ReplyView>)
    ensures
        record(start, asks, replies).fault is None ==> forall|i: int|
            0 <= i < asks.len() ==> !fails(#[trigger] asks[i], replies[i]),
        record(start, asks, replies).fault matches Some(e) ==> exists|i: int|
            0 <= i < asks.len() && fails(#[trigger] asks[i], replies[i]) && failure(
                asks[i],
                replies[i],
            ) == e,
    decreases asks.len(),
{
    if asks.len() > 0 {
        let before = asks.drop_last();
        lemma_faults(start, before, replies);
        let n = asks.len() - 1;
        let t = record(start, before, replies);
        if record(start, asks, replies).fault is None {
            assert forall|i: int| 0 <= i < asks.len() implies !fails(
                #[trigger] asks[i],
                replies[i],
            ) by {
                if i < n {
                    assert(before[i] == asks[i]);
                }
            }
        } else if fails(asks[n], replies[n]) && (t.fault is None || t.undoing) {
            assert(failure(asks[n], replies[n]) == record(start, asks, replies).fault->0);
        } else {
            let e = t.fault->0;
            let i = choose|i: int|
                0 <= i < before.len() && fails(#[trigger] before[i], replies[i]) && failure(
                    before[i],
                    replies[i],
                ) == e;
            assert(before[i] == asks[i]);
        }
    }
}

} // verus!
