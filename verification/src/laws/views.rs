//! What the program asks for and what it is told is seen as it is, and so is where it begins.

use vstd::prelude::*;

use crate::error::{viewed, ErrorView, MidiStartPrgError};
use crate::laws::ending::{at_rest, settled};
use crate::laws::order::{on_first_channel, quiet};
use crate::laws::words::{all_white, trimming_takes_the_space_around};
use crate::media;
use crate::program::AppView;
use crate::protocol::{
    fits, Ask, AskView, CommandLine, ExitStatus, ExitStatusView, Reply, ReplyView, WakeLock,
};
use crate::text;
use crate::volume::VolumeView;

verus! {

/// A command is seen with its program and with every argument, in order.
pub proof fn a_command_is_seen_whole(line: CommandLine)
    ensures
        line@.program == line.program@,
        line@.args.len() == line.args@.len(),
        forall|i: int| 0 <= i < line.args@.len() ==> #[trigger] line@.args[i] == line.args@[i]@,
{
}

/// So is a lock that keeps the computer awake.
pub proof fn a_lock_is_seen_whole(lock: WakeLock)
    ensures
        lock@.sleep == lock.sleep,
        lock@.reason == lock.reason@,
        lock@.app_name == lock.app_name@,
        lock@.app_reverse_domain == lock.app_reverse_domain@,
{
}

/// What is asked for is seen with all that belongs to it.
pub proof fn an_ask_is_seen_whole(ask: Ask)
    ensures
        ask matches Ask::TryWait ==> ask@ == AskView::TryWait,
        ask matches Ask::Signal(number) ==> ask@ == AskView::Signal(number),
        ask matches Ask::ReleaseProcess ==> ask@ == AskView::ReleaseProcess,
        ask matches Ask::CloseMidi ==> ask@ == AskView::CloseMidi,
        ask matches Ask::Capture(line) ==> ask@ == AskView::Capture(line@),
        ask matches Ask::Run(line) ==> ask@ == AskView::Run(line@),
        ask matches Ask::ReadFile(path) ==> ask@ == AskView::ReadFile(path@),
        ask matches Ask::WriteFile(path, text) ==> ask@ == AskView::WriteFile(path@, text@),
        ask matches Ask::SendMidi(bytes) ==> ask@ == AskView::SendMidi(bytes@),
        ask matches Ask::Spawn(program) ==> ask@ == AskView::Spawn(program@),
        ask matches Ask::StayAwake(lock) ==> ask@ == AskView::StayAwake(lock@),
        ask matches Ask::Observe ==> ask@ == AskView::Observe,
        ask matches Ask::OpenInputs(client) ==> ask@ == AskView::OpenInputs(client@),
        ask matches Ask::InputName(port) ==> ask@ == AskView::InputName(port),
        ask matches Ask::OpenOutputs(client) ==> ask@ == AskView::OpenOutputs(client@),
        ask matches Ask::OutputName(port) ==> ask@ == AskView::OutputName(port),
        ask matches Ask::ConnectOutput(port, name) ==> ask@ == AskView::ConnectOutput(port, name@),
        ask matches Ask::ConnectInput(port, name) ==> ask@ == AskView::ConnectInput(port, name@),
        ask matches Ask::Sleep(millis) ==> ask@ == AskView::Sleep(millis),
        ask matches Ask::Receive(millis) ==> ask@ == AskView::Receive(millis),
{
}

/// How a command ended is seen whole, and it failed where it did not succeed. The error then
/// has its exit code and what the system says of it.
pub proof fn a_status_is_seen_whole(status: ExitStatus)
    ensures
        status@ == (ExitStatusView {
            success: status.success,
            code: status.code,
            text: status.text@,
        }),
        status@.exit_ok() == (if status.success {
            Ok(())
        } else {
            Err(ErrorView::ExitStatusError { code: status.code, text: status.text@ })
        }),
{
}

/// A reply is seen with all that it tells.
pub proof fn a_reply_is_seen_whole(reply: Reply)
    ensures
        reply matches Reply::Done ==> reply@ == ReplyView::Done,
        reply matches Reply::Failed(text) ==> reply@ == ReplyView::Failed(text@),
        reply matches Reply::Exited(exited) ==> reply@ == ReplyView::Exited(exited),
        reply matches Reply::Output { status, stdout, stderr } ==> reply@ == (ReplyView::Output {
            status: status@,
            stdout: stdout@,
            stderr: stderr@,
        }),
        reply matches Reply::Status(status) ==> reply@ == ReplyView::Status(status@),
        reply matches Reply::Text(text) ==> reply@ == ReplyView::Text(text@),
        reply matches Reply::Observed { shutdown, now } ==> reply@ == (ReplyView::Observed {
            shutdown,
            now,
        }),
        reply matches Reply::Ports(count) ==> reply@ == ReplyView::Ports(count),
        reply matches Reply::Name(name) ==> reply@ == ReplyView::Name(name@),
        reply matches Reply::Connected { now } ==> reply@ == (ReplyView::Connected { now }),
        reply matches Reply::Message { msg, now } ==> reply@ == (ReplyView::Message { msg, now }),
        reply matches Reply::Garbled ==> reply@ == ReplyView::Garbled,
        reply matches Reply::Silence ==> reply@ == ReplyView::Silence,
{
}

/// An error is seen as what it is, with all that the failing part said.
pub proof fn an_error_is_seen_whole(error: MidiStartPrgError)
    ensures
        viewed(Err::<bool, MidiStartPrgError>(error)) == Err::<bool, ErrorView>(error@),
        viewed(Ok::<bool, MidiStartPrgError>(true)) == Ok::<bool, ErrorView>(true),
        viewed(Ok::<bool, MidiStartPrgError>(false)) == Ok::<bool, ErrorView>(false),
        error matches MidiStartPrgError::IoError(t) ==> error@ == ErrorView::IoError(t@),
        error matches MidiStartPrgError::MidiParse(t) ==> error@ == ErrorView::MidiParse(t@),
        error matches MidiStartPrgError::MidiInit(t) ==> error@ == ErrorView::MidiInit(t@),
        error matches MidiStartPrgError::MidiInitPort(t) ==> error@ == ErrorView::MidiInitPort(t@),
        error matches MidiStartPrgError::MidiConnect(t) ==> error@ == ErrorView::MidiConnect(t@),
        error matches MidiStartPrgError::MidiOutputConnect(t) ==> error@
            == ErrorView::MidiOutputConnect(t@),
        error matches MidiStartPrgError::ExitStatusError(failure) ==> error@ == (
        ErrorView::ExitStatusError { code: failure.code, text: failure.text@ }),
        error matches MidiStartPrgError::KeepAwake(t) ==> error@ == ErrorView::KeepAwake(t@),
        error matches MidiStartPrgError::ThreadError(t) ==> error@ == ErrorView::ThreadError(t@),
        error matches MidiStartPrgError::ParsingVolume(t) ==> error@ == ErrorView::ParsingVolume(
            t@,
        ),
        error matches MidiStartPrgError::MidiSend(t) ==> error@ == ErrorView::MidiSend(t@),
        error matches MidiStartPrgError::NoMatchingMidiPort ==> error@
            == ErrorView::NoMatchingMidiPort,
{
}

/// What can fail is answered by its failure too, and what cannot is not. Beyond that each ask
/// is answered by one kind of reply, whatever it tells.
pub proof fn each_ask_has_its_answers(ask: AskView, reply: ReplyView)
    ensures
        fits(ask, reply) <==> {
            ||| reply is Failed && !(ask is ReleaseProcess || ask is CloseMidi || ask is Sleep
                || ask is Observe || ask is Receive)
            ||| reply is Exited && ask is TryWait
            ||| reply is Done && (ask is ReleaseProcess || ask is CloseMidi || ask is Sleep || ask
                is Signal || ask is WriteFile || ask is SendMidi || ask is Spawn || ask is StayAwake
                || ask is ConnectOutput)
            ||| reply is Output && ask is Capture
            ||| reply is Status && ask is Run
            ||| reply is Text && ask is ReadFile
            ||| reply is Observed && ask is Observe
            ||| reply is Ports && (ask is OpenInputs || ask is OpenOutputs)
            ||| reply is Name && (ask is InputName || ask is OutputName)
            ||| reply is Connected && ask is ConnectInput
            ||| (reply is Message || reply is Garbled || reply is Silence) && ask is Receive
        },
{
}

/// The program begins with what it was told, the timeout in nanoseconds, and with nothing
/// running, connected or swapped. So all that every tick keeps holds before the first.
pub proof fn the_program_begins_at_rest(
    program: Seq<char>,
    device_prefix: Seq<char>,
    idle: u64,
    volume_path: Seq<u8>,
)
    ensures
        ({
            let state = AppView::beginning(program, device_prefix, idle, volume_path);
            &&& state.program == program
            &&& state.device_prefix == device_prefix
            &&& state.idle_timeout == idle * 1_000_000_000
            &&& state.process is None
            &&& state.midi is None
            &&& !state.volume.swapped
            &&& state.volume.standard_volume is None
            &&& state.volume.volume_path == volume_path
            &&& at_rest(state)
            &&& settled(state)
            &&& quiet(state)
            &&& on_first_channel(state)
            &&& !state.kills_on_drop()
        }),
        VolumeView::beginning(volume_path) == (VolumeView {
            volume_path,
            standard_volume: None,
            swapped: false,
        }),
{
}

/// When the program ends between two ticks, the synthesizer is killed where there is one.
pub proof fn a_synthesizer_does_not_outlive_the_program(state: AppView)
    requires
        quiet(state),
    ensures
        state.kills_on_drop() <==> state.process is Some,
{
}

/// What is told of a failed pause is what was printed, without the white space around it, and
/// nothing is told where nothing else was printed.
pub proof fn a_complaint_is_what_was_printed(
    before: Seq<char>,
    printed: Seq<char>,
    after: Seq<char>,
    complaint: Option<String>,
)
    requires
        all_white(before),
        all_white(after),
        printed.len() > 0 ==> !text::white_space(printed[0]) && !text::white_space(printed.last()),
    ensures
        media::complains(complaint, before + printed + after) <==> match complaint {
            Some(c) => printed.len() > 0 && c@ == printed,
            None => printed.len() == 0,
        },
{
    trimming_takes_the_space_around(before, printed, after);
}

} // verus!
