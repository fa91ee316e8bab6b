use midi_start_program::error::{ExitFailure, MidiStartPrgError};

fn t() -> String {
    "xyz".to_string()
}

#[test]
fn every_error_has_its_message() {
    assert_eq!(MidiStartPrgError::IoError(t()).message(), "somethingy io-y xyz");
    assert_eq!(MidiStartPrgError::MidiParse(t()).message(), "midi parsing error xyz");
    assert_eq!(MidiStartPrgError::MidiInit(t()).message(), "midi init error xyz");
    assert_eq!(
        MidiStartPrgError::MidiInitPort(t()).message(),
        "midi init error while getting port info xyz"
    );
    assert_eq!(
        MidiStartPrgError::MidiConnect(t()).message(),
        "midi connection error while getting port info xyz"
    );
    assert_eq!(
        MidiStartPrgError::MidiOutputConnect(t()).message(),
        "midi output connection error xyz"
    );
    assert_eq!(
        MidiStartPrgError::ExitStatusError(ExitFailure { code: Some(1), text: t() }).message(),
        "process exited unsucessfully xyz"
    );
    assert_eq!(MidiStartPrgError::KeepAwake(t()).message(), "tried to keep computer awake xyz");
    assert_eq!(MidiStartPrgError::ThreadError(t()).message(), "thread error xyz");
    assert_eq!(MidiStartPrgError::ParsingVolume(t()).message(), "parsing volume xyz");
    assert_eq!(MidiStartPrgError::MidiSend(t()).message(), "midi send error xyz");
    assert_eq!(MidiStartPrgError::NoMatchingMidiPort.message(), "No matching MIDI port");
}
