//! Commands to the desktop: to pause what is playing, and to sleep.

use vstd::prelude::*;

use crate::error::{ErrorView, MidiStartPrgError};
use crate::protocol::{CommandLine, CommandView, ExitStatus};
use crate::text;

verus! {

/// The command that pauses what is playing.
pub open spec fn pause_command() -> CommandView {
    CommandView { program: "playerctl"@, args: seq!["pause"@] }
}

/// The command that puts the computer to sleep.
pub open spec fn suspend_command() -> CommandView {
    CommandView { program: "systemctl"@, args: seq!["suspend"@, "--check-inhibitors=no"@] }
}

/// What playing media there was is paused: the command succeeded, or found nothing to pause.
pub open spec fn media_paused(success: bool, stderr: Seq<u8>) -> bool {
    success || nothing_to_pause(text::decoded(stderr))
}

/// The command says that nothing was playing.
pub open spec fn nothing_to_pause(printed: Seq<char>) -> bool {
    text::occurs_in("No players found"@, printed)
}

/// How it went to pause what is playing.
#[derive(Debug)]
pub enum PauseOutcome {
    /// Nothing is playing any more.
    Paused,
    /// The command failed: what it printed, if it printed anything, and how it ended.
    Failed { complaint: Option<String>, error: MidiStartPrgError },
}

/// A complaint is what was printed without the white space around it, if anything is left.
pub open spec fn complains(complaint: Option<String>, printed: Seq<char>) -> bool {
    match complaint {
        Some(c) => text::trimmed(printed).len() > 0 && c@ == text::trimmed(printed),
        None => text::trimmed(printed).len() == 0,
    }
}

/// Judges `playerctl pause` by how it ended and by the bytes that it printed.
pub fn pause_media(status: ExitStatus, stderr: &[u8]) -> (outcome: PauseOutcome)
    ensures
        outcome is Paused <==> media_paused(status.success, stderr@),
        outcome matches PauseOutcome::Failed { complaint, error } ==> complains(
            complaint,
            text::decoded(stderr@),
        ) && Err::<(), ErrorView>(error@) == status@.exit_ok(),
{
    judge_pause(status, text::from_utf8_lossy(stderr).as_str())
}

/// Judges `playerctl pause` by how it ended and by what it printed.
pub fn judge_pause(status: ExitStatus, printed: &str) -> (outcome: PauseOutcome)
    ensures
        outcome is Paused <==> status.success || nothing_to_pause(printed@),
        outcome matches PauseOutcome::Failed { complaint, error } ==> complains(
            complaint,
            printed@,
        ) && Err::<(), ErrorView>(error@) == status@.exit_ok(),
{
    if status.success || text::contains(printed, "No players found") {
        return PauseOutcome::Paused;
    }
    let printed: String = text::trim(printed);
    let complaint: Option<String> = if printed.as_str().is_empty() {
        None
    } else {
        Some(printed)
    };
    match status.exit_ok() {
        Ok(_) => PauseOutcome::Paused,
        Err(error) => PauseOutcome::Failed { complaint, error },
    }
}

/// The command that pauses what is playing.
pub(crate) fn pause_line() -> (line: CommandLine)
    ensures
        line@ == pause_command(),
{
    let line = CommandLine { program: "playerctl".to_string(), args: vec!["pause".to_string()] };
    assert(line@.args =~= pause_command().args);
    line
}

/// The command that puts the computer to sleep.
pub(crate) fn suspend_line() -> (line: CommandLine)
    ensures
        line@ == suspend_command(),
{
    let line = CommandLine {
        program: "systemctl".to_string(),
        args: vec!["suspend".to_string(), "--check-inhibitors=no".to_string()],
    };
    assert(line@.args =~= suspend_command().args);
    line
}

} // verus!
