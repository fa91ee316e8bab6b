use midi_start_program::error::MidiStartPrgError;
use midi_start_program::midi_in::{MidiMsg, MidiReader};
use midi_start_program::midi_out::{MidiOut, OpenTurn};
use midi_start_program::protocol::{Ask, Reply};

fn opened() -> MidiOut {
    let OpenTurn::Asks(opening, _) = MidiOut::open("P") else {
        panic!("asks for nothing");
    };
    let OpenTurn::Asks(opening, _) = opening.resume(Reply::Ports(1)) else {
        panic!("no port");
    };
    let OpenTurn::Asks(opening, _) = opening.resume(Reply::Name("P1".to_string())) else {
        panic!("no match");
    };
    let OpenTurn::Returns(Ok(Some(midi_out))) = opening.resume(Reply::Done) else {
        panic!("not connected");
    };
    midi_out
}

#[test]
fn messages_go_out_on_the_first_channel() {
    let midi_out = opened();
    assert_eq!(midi_out.send_note(60, 80, true), vec![0x90, 60, 80]);
    assert_eq!(midi_out.send_note(60, 80, false), vec![0x80, 60, 80]);
    assert_eq!(midi_out.set_local_control(true), vec![0xB0, 122, 127]);
    assert_eq!(midi_out.set_local_control(false), vec![0xB0, 122, 0]);
}

#[test]
fn data_bytes_are_cut_off_at_seven_bits() {
    assert_eq!(opened().send_note(200, 128, true), vec![0x90, 127, 127]);
}

#[test]
fn a_note_sent_is_read_as_that_note() {
    let bytes = opened().send_note(61, 99, true);
    let mut reader = MidiReader::new();
    assert_eq!(reader.read(&bytes).unwrap(), MidiMsg::NoteOn { note: 61, velocity: 99 });
}

#[test]
fn a_key_that_is_struck_is_a_note() {
    let mut reader = MidiReader::new();
    assert_eq!(
        reader.read(&[0x95, 108, 1]).unwrap(),
        MidiMsg::NoteOn { note: 108, velocity: 1 }
    );
    assert_eq!(reader.read(&[0x90, 60, 0]).unwrap(), MidiMsg::NoteOn { note: 60, velocity: 0 });
}

#[test]
fn what_is_no_struck_key_is_other() {
    let mut reader = MidiReader::new();
    assert_eq!(reader.read(&[0x80, 60, 64]).unwrap(), MidiMsg::Other);
    assert_eq!(reader.read(&[0xB0, 122, 127]).unwrap(), MidiMsg::Other);
    assert_eq!(reader.read(&[0xB0, 64, 127]).unwrap(), MidiMsg::Other);
    assert_eq!(reader.read(&[0xC3, 5]).unwrap(), MidiMsg::Other);
    assert_eq!(reader.read(&[0xFE]).unwrap(), MidiMsg::Other);
}

#[test]
fn the_last_status_counts_for_data_bytes() {
    let mut reader = MidiReader::new();
    reader.read(&[0x90, 60, 64]).unwrap();
    assert_eq!(reader.read(&[62, 10]).unwrap(), MidiMsg::NoteOn { note: 62, velocity: 10 });
    assert_eq!(reader.read(&[0xFE]).unwrap(), MidiMsg::Other);
    assert_eq!(reader.read(&[64, 11]).unwrap(), MidiMsg::NoteOn { note: 64, velocity: 11 });
    reader.read(&[0x80, 60, 64]).unwrap();
    assert_eq!(reader.read(&[64, 11]).unwrap(), MidiMsg::Other);
}

#[test]
fn only_the_first_message_of_a_packet_counts() {
    let mut reader = MidiReader::new();
    assert_eq!(
        reader.read(&[0x90, 60, 64, 0x90, 61, 64]).unwrap(),
        MidiMsg::NoteOn { note: 60, velocity: 64 }
    );
    assert_eq!(
        reader.read(&[0x90, 60, 64, 0xB0, 88, 5]).unwrap(),
        MidiMsg::NoteOn { note: 60, velocity: 64 }
    );
}

fn parse_error(reader: &mut MidiReader, bytes: &[u8]) -> String {
    match reader.read(bytes) {
        Err(MidiStartPrgError::MidiParse(text)) => text,
        other => panic!("{:?}", other),
    }
}

#[test]
fn what_is_no_message_is_a_parse_error() {
    let mut reader = MidiReader::new();
    assert_eq!(
        parse_error(&mut reader, &[]),
        "Error parsing MIDI input: The input ended before a MidiMsg could be fully formed"
    );
    assert_eq!(
        parse_error(&mut reader, &[60, 64]),
        "Error parsing MIDI input: Received a non-status byte with no prior channel messages"
    );
    assert_eq!(
        parse_error(&mut reader, &[0x90, 60]),
        "Error parsing MIDI input: The input ended before a MidiMsg could be fully formed"
    );
    assert!(reader.read(&[0x90, 60, 0x80]).is_err());
    assert!(reader.read(&[0x90, 0x80, 60]).is_err());
    assert!(reader.read(&[60, 64]).is_err());
}

fn ask_of(turn: &OpenTurn) -> String {
    match turn {
        OpenTurn::Asks(_, ask) => format!("{:?}", ask),
        OpenTurn::Returns(_) => panic!("returned"),
    }
}

fn resumed(turn: OpenTurn, reply: Reply) -> OpenTurn {
    match turn {
        OpenTurn::Asks(opening, _) => {
            assert!(opening.answered_by(&reply));
            opening.resume(reply)
        }
        OpenTurn::Returns(_) => panic!("returned"),
    }
}

#[test]
fn the_first_output_with_the_prefix_is_taken() {
    let client = "midi-start-program_output".to_string();
    let turn = MidiOut::open("Digital Piano");
    assert_eq!(ask_of(&turn), format!("{:?}", Ask::OpenOutputs(client.clone())));
    let turn = resumed(turn, Reply::Ports(3));
    assert_eq!(ask_of(&turn), format!("{:?}", Ask::OutputName(0)));
    let turn = resumed(turn, Reply::Name("Midi Through".to_string()));
    assert_eq!(ask_of(&turn), format!("{:?}", Ask::OutputName(1)));
    let turn = resumed(turn, Reply::Name("Digital Piano 1".to_string()));
    assert_eq!(ask_of(&turn), format!("{:?}", Ask::ConnectOutput(1, client)));
    let turn = resumed(turn, Reply::Done);
    assert!(matches!(turn, OpenTurn::Returns(Ok(Some(_)))));
}

#[test]
fn an_output_may_be_missing() {
    let turn = resumed(MidiOut::open("Digital Piano"), Reply::Ports(0));
    assert!(matches!(turn, OpenTurn::Returns(Ok(None))));
    let turn = resumed(MidiOut::open("Digital Piano"), Reply::Ports(1));
    let turn = resumed(turn, Reply::Name("Digital".to_string()));
    assert!(matches!(turn, OpenTurn::Returns(Ok(None))));
}

#[test]
fn each_failure_of_an_output_has_its_error() {
    let failed = || Reply::Failed("f".to_string());
    let turn = resumed(MidiOut::open("P"), failed());
    assert!(matches!(turn, OpenTurn::Returns(Err(MidiStartPrgError::MidiInit(_)))));
    let turn = resumed(resumed(MidiOut::open("P"), Reply::Ports(1)), failed());
    assert!(matches!(turn, OpenTurn::Returns(Err(MidiStartPrgError::MidiInitPort(_)))));
    let turn = resumed(MidiOut::open("P"), Reply::Ports(1));
    let turn = resumed(resumed(turn, Reply::Name("P".to_string())), failed());
    assert!(matches!(turn, OpenTurn::Returns(Err(MidiStartPrgError::MidiOutputConnect(_)))));
}

#[test]
fn an_output_tells_answers_from_other_replies() {
    let OpenTurn::Asks(opening, _) = MidiOut::open("P") else {
        panic!("asks for nothing");
    };
    assert!(opening.answered_by(&Reply::Ports(2)));
    assert!(!opening.answered_by(&Reply::Done));
    assert!(!opening.answered_by(&Reply::Name("P".to_string())));
}
