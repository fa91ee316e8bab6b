use midi_start_program::error::MidiStartPrgError;
use midi_start_program::media::{judge_pause, pause_media, PauseOutcome};
use midi_start_program::protocol::ExitStatus;

fn status(success: bool) -> ExitStatus {
    ExitStatus {
        success,
        code: Some(if success { 0 } else { 1 }),
        text: "exit status: 1".to_string(),
    }
}

#[test]
fn success_is_a_pause() {
    assert!(matches!(pause_media(status(true), b"whatever"), PauseOutcome::Paused));
}

#[test]
fn nothing_to_pause_is_a_pause() {
    assert!(matches!(pause_media(status(false), b"No players found\n"), PauseOutcome::Paused));
    assert!(matches!(judge_pause(status(false), "No players found"), PauseOutcome::Paused));
    assert!(matches!(
        pause_media(status(false), b"\xff No players found"),
        PauseOutcome::Paused
    ));
}

#[test]
fn a_failure_keeps_what_was_printed() {
    match pause_media(status(false), b"  D-Bus is \xff down\n") {
        PauseOutcome::Failed { complaint, error } => {
            assert_eq!(complaint, Some("D-Bus is \u{fffd} down".to_string()));
            match error {
                MidiStartPrgError::ExitStatusError(failure) => {
                    assert_eq!(failure.code, Some(1));
                    assert_eq!(failure.text, "exit status: 1");
                }
                other => panic!("{:?}", other),
            }
        }
        PauseOutcome::Paused => panic!("paused"),
    }
}

#[test]
fn a_silent_failure_has_no_complaint() {
    match pause_media(status(false), b" \n") {
        PauseOutcome::Failed { complaint, .. } => assert_eq!(complaint, None),
        PauseOutcome::Paused => panic!("paused"),
    }
}
