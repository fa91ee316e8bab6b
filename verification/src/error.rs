//! What can go wrong.

use vstd::prelude::*;

verus! {

/// A process that ended without success: its exit code, where it has one, and what
/// the system says of it.
#[derive(Debug)]
pub struct ExitFailure {
    pub code: Option<i32>,
    pub text: String,
}

/// What stops the program. A `String` is what the failing part says of itself.
#[derive(Debug)]
pub enum MidiStartPrgError {
    IoError(String),
    MidiParse(String),
    MidiInit(String),
    MidiInitPort(String),
    MidiConnect(String),
    MidiOutputConnect(String),
    ExitStatusError(ExitFailure),
    KeepAwake(String),
    ThreadError(String),
    ParsingVolume(String),
    MidiSend(String),
    NoMatchingMidiPort,
}

/// The view of a [`MidiStartPrgError`].
pub enum ErrorView {
    IoError(Seq<char>),
    MidiParse(Seq<char>),
    MidiInit(Seq<char>),
    MidiInitPort(Seq<char>),
    MidiConnect(Seq<char>),
    MidiOutputConnect(Seq<char>),
    ExitStatusError { code: Option<i32>, text: Seq<char> },
    KeepAwake(Seq<char>),
    ThreadError(Seq<char>),
    ParsingVolume(Seq<char>),
    MidiSend(Seq<char>),
    NoMatchingMidiPort,
}

impl View for MidiStartPrgError {
    type V = ErrorView;

    open spec fn view(&self) -> ErrorView {
        match self {
            MidiStartPrgError::IoError(t) => ErrorView::IoError(t@),
            MidiStartPrgError::MidiParse(t) => ErrorView::MidiParse(t@),
            MidiStartPrgError::MidiInit(t) => ErrorView::MidiInit(t@),
            MidiStartPrgError::MidiInitPort(t) => ErrorView::MidiInitPort(t@),
            MidiStartPrgError::MidiConnect(t) => ErrorView::MidiConnect(t@),
            MidiStartPrgError::MidiOutputConnect(t) => ErrorView::MidiOutputConnect(t@),
            MidiStartPrgError::ExitStatusError(f) => ErrorView::ExitStatusError {
                code: f.code,
                text: f.text@,
            },
            MidiStartPrgError::KeepAwake(t) => ErrorView::KeepAwake(t@),
            MidiStartPrgError::ThreadError(t) => ErrorView::ThreadError(t@),
            MidiStartPrgError::ParsingVolume(t) => ErrorView::ParsingVolume(t@),
            MidiStartPrgError::MidiSend(t) => ErrorView::MidiSend(t@),
            MidiStartPrgError::NoMatchingMidiPort => ErrorView::NoMatchingMidiPort,
        }
    }
}

impl ErrorView {
    /// What the user is told of the error.
    pub open spec fn message(self) -> Seq<char> {
        match self {
            ErrorView::IoError(t) => "somethingy io-y "@ + t,
            ErrorView::MidiParse(t) => "midi parsing error "@ + t,
            ErrorView::MidiInit(t) => "midi init error "@ + t,
            ErrorView::MidiInitPort(t) => "midi init error while getting port info "@ + t,
            ErrorView::MidiConnect(t) => "midi connection error while getting port info "@ + t,
            ErrorView::MidiOutputConnect(t) => "midi output connection error "@ + t,
            ErrorView::ExitStatusError { text, .. } => "process exited unsucessfully "@ + text,
            ErrorView::KeepAwake(t) => "tried to keep computer awake "@ + t,
            ErrorView::ThreadError(t) => "thread error "@ + t,
            ErrorView::ParsingVolume(t) => "parsing volume "@ + t,
            ErrorView::MidiSend(t) => "midi send error "@ + t,
            ErrorView::NoMatchingMidiPort => "No matching MIDI port"@,
        }
    }
}

/// A result with its error taken by its view.
pub open spec fn viewed<T>(result: Result<T, MidiStartPrgError>) -> Result<T, ErrorView> {
    match result {
        Ok(value) => Ok(value),
        Err(error) => Err(error@),
    }
}

fn labelled(label: &str, detail: &String) -> (text: String)
    ensures
        text@ == label@ + detail@,
{
    let mut text: String = label.to_string();
    text.append(detail.as_str());
    text
}

impl MidiStartPrgError {
    /// What the user is told of the error.
    pub fn message(&self) -> (text: String)
        ensures
            text@ == self@.message(),
    {
        match self {
            MidiStartPrgError::IoError(t) => labelled("somethingy io-y ", t),
            MidiStartPrgError::MidiParse(t) => labelled("midi parsing error ", t),
            MidiStartPrgError::MidiInit(t) => labelled("midi init error ", t),
            MidiStartPrgError::MidiInitPort(t) => labelled(
                "midi init error while getting port info ",
                t,
            ),
            MidiStartPrgError::MidiConnect(t) => labelled(
                "midi connection error while getting port info ",
                t,
            ),
            MidiStartPrgError::MidiOutputConnect(t) => labelled("midi output connection error ", t),
            MidiStartPrgError::ExitStatusError(f) => labelled(
                "process exited unsucessfully ",
                &f.text,
            ),
            MidiStartPrgError::KeepAwake(t) => labelled("tried to keep computer awake ", t),
            MidiStartPrgError::ThreadError(t) => labelled("thread error ", t),
            MidiStartPrgError::ParsingVolume(t) => labelled("parsing volume ", t),
            MidiStartPrgError::MidiSend(t) => labelled("midi send error ", t),
            MidiStartPrgError::NoMatchingMidiPort => "No matching MIDI port".to_string(),
        }
    }
}

} // verus!
