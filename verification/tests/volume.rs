use midi_start_program::error::MidiStartPrgError;
use midi_start_program::protocol::{Ask, CommandLine, ExitStatus, Reply};
use midi_start_program::volume::{parse_volume, parse_volume_text, Volume, VolumeTurn};

const PATH: &[u8] = b"/state/midi-start-program/volume";

fn command(args: &[&str]) -> CommandLine {
    CommandLine {
        program: "wpctl".to_string(),
        args: args.iter().map(|arg| arg.to_string()).collect(),
    }
}

fn get() -> Ask {
    Ask::Capture(command(&["get-volume", "@DEFAULT_AUDIO_SINK@"]))
}

fn set(volume: &str) -> Ask {
    Ask::Run(command(&["set-volume", "@DEFAULT_AUDIO_SINK@", volume]))
}

fn status(success: bool) -> ExitStatus {
    ExitStatus {
        success,
        code: Some(if success { 0 } else { 1 }),
        text: "exit status".to_string(),
    }
}

fn printed(stdout: &[u8]) -> Reply {
    Reply::Output { status: status(true), stdout: stdout.to_vec(), stderr: Vec::new() }
}

fn failed() -> Reply {
    Reply::Failed("f".to_string())
}

/// Sets a volume with these replies, and compares what is asked for.
fn swap(
    volume: &mut Volume,
    swapped: bool,
    script: Vec<(Ask, Reply)>,
) -> Result<(), MidiStartPrgError> {
    let mut turn = volume.set_swapped(swapped);
    for (expected, reply) in script {
        match turn {
            VolumeTurn::Asks(step, ask) => {
                assert_eq!(format!("{:?}", ask), format!("{:?}", expected));
                assert!(volume.accepts(&step, &reply));
                turn = volume.resume(step, reply);
            }
            VolumeTurn::Returns(result) => panic!("returned {:?}", result),
        }
    }
    match turn {
        VolumeTurn::Asks(_, ask) => panic!("asks {:?}", ask),
        VolumeTurn::Returns(result) => result,
    }
}

fn swapped_in() -> Volume {
    let mut volume = Volume::new(PATH.to_vec());
    swap(&mut volume, true, vec![
        (get(), printed(b"Volume: 0.40\n")),
        (Ask::ReadFile(PATH.to_vec()), Reply::Text("0.85".to_string())),
        (set("0.85"), Reply::Status(status(true))),
    ])
    .unwrap();
    volume
}

#[test]
fn volume_is_the_second_word() {
    assert_eq!(parse_volume(b"Volume: 0.50\n").unwrap(), "0.50");
    assert_eq!(parse_volume(b" Volume: 0.50 [MUTED]\n").unwrap(), "0.50");
    assert_eq!(parse_volume(b"Volume: \xff").unwrap(), "\u{fffd}");
    assert_eq!(parse_volume_text("Volume:\u{a0}0.50").unwrap(), "0.50");
}

#[test]
fn a_print_without_a_second_word_is_no_volume() {
    for (stdout, text) in [(&b" 0.50\n"[..], "0.50"), (b"", ""), (b"\n \n", "")] {
        match parse_volume(stdout) {
            Err(MidiStartPrgError::ParsingVolume(printed)) => assert_eq!(printed, text),
            other => panic!("{:?}", other),
        }
    }
}

#[test]
fn the_volumes_are_swapped_and_swapped_back() {
    let mut volume = swapped_in();
    swap(&mut volume, false, vec![
        (get(), printed(b"Volume: 0.90\n")),
        (Ask::WriteFile(PATH.to_vec(), "0.90".to_string()), Reply::Done),
        (set("0.40"), Reply::Status(status(true))),
    ])
    .unwrap();
    swap(&mut volume, true, vec![
        (get(), printed(b"Volume: 0.41\n")),
        (Ask::ReadFile(PATH.to_vec()), Reply::Text("0.90".to_string())),
        (set("0.90"), Reply::Status(status(true))),
    ])
    .unwrap();
}

#[test]
fn the_playing_volume_outlives_the_program() {
    let mut volume = swapped_in();
    swap(&mut volume, false, vec![
        (get(), printed(b"Volume: 0.90\n")),
        (Ask::WriteFile(PATH.to_vec(), "0.90".to_string()), Reply::Done),
        (set("0.40"), Reply::Status(status(true))),
    ])
    .unwrap();
    let mut volume = Volume::new(PATH.to_vec());
    swap(&mut volume, true, vec![
        (get(), printed(b"Volume: 0.30\n")),
        (Ask::ReadFile(PATH.to_vec()), Reply::Text("0.90".to_string())),
        (set("0.90"), Reply::Status(status(true))),
    ])
    .unwrap();
}

#[test]
fn a_volume_that_is_set_is_left_alone() {
    let mut volume = Volume::new(PATH.to_vec());
    swap(&mut volume, false, vec![]).unwrap();
    let mut volume = swapped_in();
    swap(&mut volume, true, vec![]).unwrap();
}

#[test]
fn a_file_may_hold_what_wpctl_prints() {
    let mut volume = Volume::new(PATH.to_vec());
    swap(&mut volume, true, vec![
        (get(), printed(b"Volume: 0.40\n")),
        (Ask::ReadFile(PATH.to_vec()), Reply::Text("Volume: 0.70\n".to_string())),
        (set("0.70"), Reply::Status(status(true))),
    ])
    .unwrap();
}

#[test]
fn a_file_with_one_word_is_taken_as_it_is() {
    let mut volume = Volume::new(PATH.to_vec());
    swap(&mut volume, true, vec![
        (get(), printed(b"Volume: 0.40\n")),
        (Ask::ReadFile(PATH.to_vec()), Reply::Text("1.0\n".to_string())),
        (set("1.0\n"), Reply::Status(status(true))),
    ])
    .unwrap();
}

#[test]
fn a_failed_swap_counts_as_a_swap() {
    let mut volume = Volume::new(PATH.to_vec());
    let result = swap(&mut volume, true, vec![(get(), failed())]);
    assert!(matches!(result, Err(MidiStartPrgError::IoError(_))));
    swap(&mut volume, true, vec![]).unwrap();
}

#[test]
fn each_failure_ends_the_swap() {
    let mut volume = Volume::new(PATH.to_vec());
    let result = swap(&mut volume, true, vec![(get(), printed(b"nothing\n"))]);
    assert!(matches!(result, Err(MidiStartPrgError::ParsingVolume(_))));

    let mut volume = Volume::new(PATH.to_vec());
    let result = swap(&mut volume, true, vec![
        (get(), printed(b"Volume: 0.40\n")),
        (Ask::ReadFile(PATH.to_vec()), failed()),
    ]);
    assert!(matches!(result, Err(MidiStartPrgError::IoError(_))));

    let mut volume = Volume::new(PATH.to_vec());
    let result = swap(&mut volume, true, vec![
        (get(), printed(b"Volume: 0.40\n")),
        (Ask::ReadFile(PATH.to_vec()), Reply::Text("0.85".to_string())),
        (set("0.85"), Reply::Status(status(false))),
    ]);
    match result {
        Err(MidiStartPrgError::ExitStatusError(failure)) => {
            assert_eq!(failure.code, Some(1));
            assert_eq!(failure.text, "exit status");
        }
        other => panic!("{:?}", other),
    }

    let mut volume = swapped_in();
    let result = swap(&mut volume, false, vec![
        (get(), printed(b"Volume: 0.90\n")),
        (Ask::WriteFile(PATH.to_vec(), "0.90".to_string()), failed()),
    ]);
    assert!(matches!(result, Err(MidiStartPrgError::IoError(_))));
}

#[test]
fn a_first_swap_without_a_file_can_be_undone() {
    let mut volume = Volume::new(PATH.to_vec());
    swap(&mut volume, true, vec![
        (get(), printed(b"Volume: 0.40\n")),
        (Ask::ReadFile(PATH.to_vec()), failed()),
    ])
    .unwrap_err();
    swap(&mut volume, false, vec![
        (get(), printed(b"Volume: 0.40\n")),
        (Ask::WriteFile(PATH.to_vec(), "0.40".to_string()), Reply::Done),
    ])
    .unwrap();
    swap(&mut volume, true, vec![
        (get(), printed(b"Volume: 0.45\n")),
        (Ask::ReadFile(PATH.to_vec()), Reply::Text("0.40".to_string())),
        (set("0.40"), Reply::Status(status(true))),
    ])
    .unwrap();
}

#[test]
fn a_failed_swap_keeps_the_standard_volume() {
    let mut volume = swapped_in();
    swap(&mut volume, false, vec![(get(), failed())]).unwrap_err();
    swap(&mut volume, true, vec![
        (get(), printed(b"Volume: 0.55\n")),
        (Ask::ReadFile(PATH.to_vec()), failed()),
    ])
    .unwrap_err();
    swap(&mut volume, false, vec![
        (get(), printed(b"Volume: 0.55\n")),
        (Ask::WriteFile(PATH.to_vec(), "0.55".to_string()), Reply::Done),
        (set("0.40"), Reply::Status(status(true))),
    ])
    .unwrap();
}

#[test]
fn a_volume_tells_answers_from_other_replies() {
    let mut volume = Volume::new(PATH.to_vec());
    let VolumeTurn::Asks(step, _) = volume.set_swapped(true) else {
        panic!("returned");
    };
    assert!(volume.accepts(&step, &failed()));
    assert!(volume.accepts(&step, &printed(b"")));
    assert!(!volume.accepts(&step, &Reply::Done));
}
