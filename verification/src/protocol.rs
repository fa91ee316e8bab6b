//! What the program asks of the system it runs on, and what the system answers.
//!
//! The decisions of this library perform nothing themselves. They ask for one thing at a
//! time, and go on with the reply. A description of such a procedure is a function from the
//! replies that are there to how far the procedure gets with them: see [`Run`].

use vstd::prelude::*;

use crate::error::{ErrorView, ExitFailure, MidiStartPrgError};
use crate::midi_in::MidiMsg;

verus! {

/// A command with its arguments.
#[derive(Debug)]
pub struct CommandLine {
    pub program: String,
    pub args: Vec<String>,
}

/// The view of a [`CommandLine`].
pub struct CommandView {
    pub program: Seq<char>,
    pub args: Seq<Seq<char>>,
}

impl View for CommandLine {
    type V = CommandView;

    open spec fn view(&self) -> CommandView {
        CommandView {
            program: self.program@,
            args: self.args@.map_values(|arg: String| arg@),
        }
    }
}

/// How the computer is to be kept awake.
#[derive(Debug)]
pub struct WakeLock {
    pub sleep: bool,
    pub reason: String,
    pub app_name: String,
    pub app_reverse_domain: String,
}

/// The view of a [`WakeLock`].
pub struct WakeLockView {
    pub sleep: bool,
    pub reason: Seq<char>,
    pub app_name: Seq<char>,
    pub app_reverse_domain: Seq<char>,
}

impl View for WakeLock {
    type V = WakeLockView;

    open spec fn view(&self) -> WakeLockView {
        WakeLockView {
            sleep: self.sleep,
            reason: self.reason@,
            app_name: self.app_name@,
            app_reverse_domain: self.app_reverse_domain@,
        }
    }
}

/// What the program asks for.
#[derive(Debug)]
pub enum Ask {
    /// Whether the synthesizer has ended, without waiting for it.
    TryWait,
    /// To send the synthesizer a signal.
    Signal(i32),
    /// To let go of the ended synthesizer, and of what keeps the computer awake for it.
    ReleaseProcess,
    /// To close the connection to the piano.
    CloseMidi,
    /// To run a command and to keep what it prints.
    Capture(CommandLine),
    /// To run a command.
    Run(CommandLine),
    /// To read the file at a path.
    ReadFile(Vec<u8>),
    /// To make a text the contents of the file at a path.
    WriteFile(Vec<u8>, String),
    /// To send a message to the piano.
    SendMidi(Vec<u8>),
    /// To start a program.
    Spawn(String),
    /// To keep the computer awake for as long as the synthesizer is not released.
    StayAwake(WakeLock),
    /// The time, and whether the program has been told to stop.
    Observe,
    /// To become a client for input, and for how many ports there are.
    OpenInputs(String),
    /// The name of an input port.
    InputName(usize),
    /// To become a client for output, and for how many ports there are.
    OpenOutputs(String),
    /// The name of an output port.
    OutputName(usize),
    /// To connect to an output port under a name.
    ConnectOutput(usize, String),
    /// To connect to an input port under a name.
    ConnectInput(usize, String),
    /// To wait, for a number of milliseconds.
    Sleep(u64),
    /// The next message of the piano, for which it waits a number of milliseconds.
    Receive(u64),
}

/// The view of an [`Ask`].
pub enum AskView {
    TryWait,
    Signal(i32),
    ReleaseProcess,
    CloseMidi,
    Capture(CommandView),
    Run(CommandView),
    ReadFile(Seq<u8>),
    WriteFile(Seq<u8>, Seq<char>),
    SendMidi(Seq<u8>),
    Spawn(Seq<char>),
    StayAwake(WakeLockView),
    Observe,
    OpenInputs(Seq<char>),
    InputName(usize),
    OpenOutputs(Seq<char>),
    OutputName(usize),
    ConnectOutput(usize, Seq<char>),
    ConnectInput(usize, Seq<char>),
    Sleep(u64),
    Receive(u64),
}

impl View for Ask {
    type V = AskView;

    open spec fn view(&self) -> AskView {
        match self {
            Ask::TryWait => AskView::TryWait,
            Ask::Signal(number) => AskView::Signal(*number),
            Ask::ReleaseProcess => AskView::ReleaseProcess,
            Ask::CloseMidi => AskView::CloseMidi,
            Ask::Capture(line) => AskView::Capture(line@),
            Ask::Run(line) => AskView::Run(line@),
            Ask::ReadFile(path) => AskView::ReadFile(path@),
            Ask::WriteFile(path, text) => AskView::WriteFile(path@, text@),
            Ask::SendMidi(bytes) => AskView::SendMidi(bytes@),
            Ask::Spawn(program) => AskView::Spawn(program@),
            Ask::StayAwake(lock) => AskView::StayAwake(lock@),
            Ask::Observe => AskView::Observe,
            Ask::OpenInputs(client) => AskView::OpenInputs(client@),
            Ask::InputName(port) => AskView::InputName(*port),
            Ask::OpenOutputs(client) => AskView::OpenOutputs(client@),
            Ask::OutputName(port) => AskView::OutputName(*port),
            Ask::ConnectOutput(port, name) => AskView::ConnectOutput(*port, name@),
            Ask::ConnectInput(port, name) => AskView::ConnectInput(*port, name@),
            Ask::Sleep(millis) => AskView::Sleep(*millis),
            Ask::Receive(millis) => AskView::Receive(*millis),
        }
    }
}

/// How a command ended: whether well, its exit code, where it has one, and what the system
/// says of it.
#[derive(Debug)]
pub struct ExitStatus {
    pub success: bool,
    pub code: Option<i32>,
    pub text: String,
}

/// The view of an [`ExitStatus`].
pub struct ExitStatusView {
    pub success: bool,
    pub code: Option<i32>,
    pub text: Seq<char>,
}

impl View for ExitStatus {
    type V = ExitStatusView;

    open spec fn view(&self) -> ExitStatusView {
        ExitStatusView { success: self.success, code: self.code, text: self.text@ }
    }
}

impl ExitStatusView {
    /// A command that ended badly is an error.
    pub open spec fn exit_ok(self) -> Result<(), ErrorView> {
        if self.success {
            Ok(())
        } else {
            Err(ErrorView::ExitStatusError { code: self.code, text: self.text })
        }
    }
}

impl ExitStatus {
    /// A command that ended badly is an error.
    pub fn exit_ok(self) -> (result: Result<(), MidiStartPrgError>)
        ensures
            crate::error::viewed(result) == self@.exit_ok(),
    {
        if self.success {
            Ok(())
        } else {
            Err(
                MidiStartPrgError::ExitStatusError(
                    ExitFailure { code: self.code, text: self.text },
                ),
            )
        }
    }
}

/// What the system answers. Times are nanoseconds from some moment before the program
/// started.
#[derive(Debug)]
pub enum Reply {
    /// It is done.
    Done,
    /// It failed, and this is what the system says of it.
    Failed(String),
    /// Whether the synthesizer has ended.
    Exited(bool),
    /// What a command printed, and how it ended.
    Output { status: ExitStatus, stdout: Vec<u8>, stderr: Vec<u8> },
    /// How a command ended.
    Status(ExitStatus),
    /// The contents of a file.
    Text(String),
    /// Whether the program has been told to stop, and the time.
    Observed { shutdown: bool, now: u128 },
    /// How many ports there are.
    Ports(usize),
    /// The name of a port.
    Name(String),
    /// The input is connected, and this is the time.
    Connected { now: u128 },
    /// A message of the piano, and the time.
    Message { msg: MidiMsg, now: u128 },
    /// Bytes came that are no message.
    Garbled,
    /// No message came in time, or none can come any more.
    Silence,
}

/// The view of a [`Reply`].
pub enum ReplyView {
    Done,
    Failed(Seq<char>),
    Exited(bool),
    Output { status: ExitStatusView, stdout: Seq<u8>, stderr: Seq<u8> },
    Status(ExitStatusView),
    Text(Seq<char>),
    Observed { shutdown: bool, now: u128 },
    Ports(usize),
    Name(Seq<char>),
    Connected { now: u128 },
    Message { msg: MidiMsg, now: u128 },
    Garbled,
    Silence,
}

impl View for Reply {
    type V = ReplyView;

    open spec fn view(&self) -> ReplyView {
        match self {
            Reply::Done => ReplyView::Done,
            Reply::Failed(text) => ReplyView::Failed(text@),
            Reply::Exited(exited) => ReplyView::Exited(*exited),
            Reply::Output { status, stdout, stderr } => ReplyView::Output {
                status: status@,
                stdout: stdout@,
                stderr: stderr@,
            },
            Reply::Status(status) => ReplyView::Status(status@),
            Reply::Text(text) => ReplyView::Text(text@),
            Reply::Observed { shutdown, now } => ReplyView::Observed {
                shutdown: *shutdown,
                now: *now,
            },
            Reply::Ports(count) => ReplyView::Ports(*count),
            Reply::Name(name) => ReplyView::Name(name@),
            Reply::Connected { now } => ReplyView::Connected { now: *now },
            Reply::Message { msg, now } => ReplyView::Message { msg: *msg, now: *now },
            Reply::Garbled => ReplyView::Garbled,
            Reply::Silence => ReplyView::Silence,
        }
    }
}

/// The reply is of a kind that answers what was asked for.
pub open spec fn fits(ask: AskView, reply: ReplyView) -> bool {
    match ask {
        AskView::TryWait => reply is Exited || reply is Failed,
        AskView::ReleaseProcess | AskView::CloseMidi | AskView::Sleep(_) => reply is Done,
        AskView::Signal(_)
        | AskView::WriteFile(..)
        | AskView::SendMidi(_)
        | AskView::Spawn(_)
        | AskView::StayAwake(_)
        | AskView::ConnectOutput(..) => reply is Done || reply is Failed,
        AskView::Capture(_) => reply is Output || reply is Failed,
        AskView::Run(_) => reply is Status || reply is Failed,
        AskView::ReadFile(_) => reply is Text || reply is Failed,
        AskView::Observe => reply is Observed,
        AskView::OpenInputs(_) | AskView::OpenOutputs(_) => reply is Ports || reply is Failed,
        AskView::InputName(_) | AskView::OutputName(_) => reply is Name || reply is Failed,
        AskView::ConnectInput(..) => reply is Connected || reply is Failed,
        AskView::Receive(_) => reply is Message || reply is Garbled || reply is Silence,
    }
}

/// A reply, and then further ones.
pub open spec fn followed(reply: ReplyView, replies: Seq<ReplyView>) -> Seq<ReplyView> {
    seq![reply] + replies
}

/// What follows a reply is what is left when the reply has been taken.
pub broadcast proof fn lemma_followed(reply: ReplyView, replies: Seq<ReplyView>)
    ensures
        (#[trigger] followed(reply, replies)).len() > 0,
        followed(reply, replies)[0] == reply,
        followed(reply, replies).skip(1) == replies,
{
    assert(followed(reply, replies).skip(1) =~= replies);
}

/// A state `S`, everything that has been asked for so far, and the replies that are still
/// to be taken.
pub struct World<S> {
    pub state: S,
    pub asked: Seq<AskView>,
    pub replies: Seq<ReplyView>,
}

impl<S> World<S> {
    /// The world after one more thing has been asked for.
    pub open spec fn ask(self, ask: AskView) -> World<S> {
        World { asked: self.asked.push(ask), ..self }
    }

    /// The reply to what was asked for last, if it is there.
    pub open spec fn reply(self) -> Option<ReplyView> {
        if self.replies.len() == 0 {
            None
        } else {
            Some(self.replies[0])
        }
    }

    /// The world after that reply has been taken.
    pub open spec fn taken(self) -> World<S> {
        World { replies: self.replies.skip(1), ..self }
    }

    /// The same with another state.
    pub open spec fn with<U>(self, state: U) -> World<U> {
        World { state, asked: self.asked, replies: self.replies }
    }
}

/// How far a procedure gets with the replies that are there.
pub enum Run<S, T> {
    /// It waits for the reply to what it asked for last.
    Waiting(World<S>),
    /// It was given a reply that is no answer to what it asked for.
    Stuck,
    /// It has returned.
    Returned(World<S>, T),
}

/// The error that it is when what was asked for fails.
pub open spec fn failure_of(ask: AskView, text: Seq<char>) -> ErrorView {
    match ask {
        AskView::SendMidi(_) => ErrorView::MidiSend(text),
        AskView::StayAwake(_) => ErrorView::KeepAwake(text),
        AskView::OpenInputs(_) | AskView::OpenOutputs(_) => ErrorView::MidiInit(text),
        AskView::InputName(_) | AskView::OutputName(_) => ErrorView::MidiInitPort(text),
        AskView::ConnectInput(..) => ErrorView::MidiConnect(text),
        AskView::ConnectOutput(..) => ErrorView::MidiOutputConnect(text),
        _ => ErrorView::IoError(text),
    }
}

impl<S> World<S> {
    /// Asks for something that is done or fails.
    pub open spec fn attempt(self, ask: AskView) -> Run<S, Result<(), ErrorView>> {
        let w = self.ask(ask);
        match w.reply() {
            None => Run::Waiting(w),
            Some(ReplyView::Done) => Run::Returned(w.taken(), Ok(())),
            Some(ReplyView::Failed(text)) => Run::Returned(w.taken(), Err(failure_of(ask, text))),
            Some(_) => Run::Stuck,
        }
    }

    /// Asks for something that cannot fail.
    pub open spec fn perform(self, ask: AskView) -> Run<S, ()> {
        let w = self.ask(ask);
        match w.reply() {
            None => Run::Waiting(w),
            Some(ReplyView::Done) => Run::Returned(w.taken(), ()),
            Some(_) => Run::Stuck,
        }
    }
}

} // verus!
