use midi_start_program::app::{App, Args, Turn};
use midi_start_program::midi_in::MidiMsg;
use midi_start_program::protocol::{Ask, CommandLine, ExitStatus, Reply, WakeLock};

const SECOND: u128 = 1_000_000_000;
const PATH: &[u8] = b"/state/volume";
const LOCAL_ON: [u8; 3] = [0xB0, 122, 127];
const LOCAL_OFF: [u8; 3] = [0xB0, 122, 0];

fn app() -> App {
    App::new(
        Args {
            device_prefix: "Digital Piano".to_string(),
            program: "/opt/pianoteq".to_string(),
            idle: 180,
        },
        PATH.to_vec(),
    )
}

fn command(program: &str, args: &[&str]) -> CommandLine {
    CommandLine {
        program: program.to_string(),
        args: args.iter().map(|arg| arg.to_string()).collect(),
    }
}

fn get_volume() -> Ask {
    Ask::Capture(command("wpctl", &["get-volume", "@DEFAULT_AUDIO_SINK@"]))
}

fn set_volume(volume: &str) -> Ask {
    Ask::Run(command("wpctl", &["set-volume", "@DEFAULT_AUDIO_SINK@", volume]))
}

fn pause() -> Ask {
    Ask::Capture(command("playerctl", &["pause"]))
}

fn suspend() -> Ask {
    Ask::Run(command("systemctl", &["suspend", "--check-inhibitors=no"]))
}

fn read() -> Ask {
    Ask::ReadFile(PATH.to_vec())
}

fn write(text: &str) -> Ask {
    Ask::WriteFile(PATH.to_vec(), text.to_string())
}

fn spawn() -> Ask {
    Ask::Spawn("/opt/pianoteq".to_string())
}

fn stay_awake() -> Ask {
    Ask::StayAwake(WakeLock {
        sleep: true,
        reason: "Playing piano".to_string(),
        app_name: "Auto-Pianoteq".to_string(),
        app_reverse_domain: "pianoteq.auto".to_string(),
    })
}

fn send(bytes: [u8; 3]) -> Ask {
    Ask::SendMidi(bytes.to_vec())
}

fn status(success: bool) -> ExitStatus {
    ExitStatus { success, code: Some(if success { 0 } else { 1 }), text: "status".to_string() }
}

fn output(success: bool, stdout: &str, stderr: &str) -> Reply {
    Reply::Output {
        status: status(success),
        stdout: stdout.as_bytes().to_vec(),
        stderr: stderr.as_bytes().to_vec(),
    }
}

fn ended(success: bool) -> Reply {
    Reply::Status(status(success))
}

fn name(text: &str) -> Reply {
    Reply::Name(text.to_string())
}

fn failed(text: &str) -> Reply {
    Reply::Failed(text.to_string())
}

fn observed(now: u128) -> Reply {
    Reply::Observed { shutdown: false, now }
}

fn told_to_stop(now: u128) -> Reply {
    Reply::Observed { shutdown: true, now }
}

fn key(note: u8, now: u128) -> Reply {
    Reply::Message { msg: MidiMsg::NoteOn { note, velocity: 64 }, now }
}

/// Runs a tick with these replies, and compares what is asked for. An error is its message.
fn tick(app: &mut App, script: Vec<(Ask, Reply)>) -> Result<bool, String> {
    let mut turn = app.tick_main();
    for (expected, reply) in script {
        match turn {
            Turn::Asks(ask) => {
                assert_eq!(format!("{:?}", ask), format!("{:?}", expected));
                assert!(app.is_answered_by(&reply), "{:?} for {:?}", reply, ask);
                turn = app.resume(reply);
            }
            Turn::Returns(result) => panic!("returned {:?} before {:?}", result, expected),
        }
    }
    match turn {
        Turn::Asks(ask) => panic!("asks {:?}", ask),
        Turn::Returns(result) => result.map_err(|error| error.message()),
    }
}

/// The connection with an input at port 1 and, where there is one, an output at port 0.
fn connecting(with_output: bool, now: u128) -> Vec<(Ask, Reply)> {
    let mut script = vec![
        (Ask::OpenInputs("midi-start-program_input".to_string()), Reply::Ports(2)),
        (Ask::InputName(0), name("Midi Through")),
        (Ask::InputName(1), name("Digital Piano MIDI 1")),
        (
            Ask::OpenOutputs("midi-start-program_output".to_string()),
            Reply::Ports(if with_output { 1 } else { 0 }),
        ),
    ];
    if with_output {
        script.push((Ask::OutputName(0), name("Digital Piano MIDI 1")));
        script.push((
            Ask::ConnectOutput(0, "midi-start-program_output".to_string()),
            Reply::Done,
        ));
    }
    script.push((
        Ask::ConnectInput(1, "Digital Piano MIDI 1".to_string()),
        Reply::Connected { now },
    ));
    script
}

/// A program with a connection over which nothing that matters has come.
fn connected(with_output: bool) -> App {
    let mut app = app();
    let mut script = vec![(Ask::Observe, observed(0))];
    script.extend(connecting(with_output, 0));
    script.push((Ask::Receive(10_000), Reply::Garbled));
    assert_eq!(tick(&mut app, script), Ok(true));
    app
}

/// What is asked for at the start of a synthesizer, with an output and the volume swapped.
fn starting() -> Vec<(Ask, Reply)> {
    vec![
        (send([0x90, 60, 80]), Reply::Done),
        (send([0x80, 60, 80]), Reply::Done),
        (send(LOCAL_OFF), Reply::Done),
        (pause(), output(true, "", "")),
        (get_volume(), output(true, "Volume: 0.40\n", "")),
        (read(), Reply::Text("0.85".to_string())),
        (set_volume("0.85"), ended(true)),
        (spawn(), Reply::Done),
        (stay_awake(), Reply::Done),
    ]
}

/// What is asked for when a synthesizer has ended, with an output and the volume swapped.
fn cleaning() -> Vec<(Ask, Reply)> {
    vec![
        (get_volume(), output(true, "Volume: 0.90\n", "")),
        (write("0.90"), Reply::Done),
        (set_volume("0.40"), ended(true)),
        (send(LOCAL_ON), Reply::Done),
    ]
}

/// A program with a running synthesizer that was started at the given time.
fn playing(now: u128) -> App {
    let mut app = connected(true);
    let mut script = vec![
        (send(LOCAL_ON), Reply::Done),
        (Ask::Observe, observed(now)),
        (Ask::Receive(10_000), key(60, now)),
    ];
    script.extend(starting());
    assert_eq!(tick(&mut app, script), Ok(true));
    app
}

#[test]
fn the_first_input_with_the_prefix_is_taken() {
    let mut app = app();
    let mut script = vec![(Ask::Observe, observed(1))];
    script.extend(connecting(true, 2));
    script.push((
        Ask::Receive(10_000),
        Reply::Message { msg: MidiMsg::Other, now: 3 },
    ));
    assert_eq!(tick(&mut app, script), Ok(true));
}

#[test]
fn a_missing_piano_is_looked_for_again() {
    let mut app = app();
    for _ in 0..2 {
        let script = vec![
            (Ask::Observe, observed(1)),
            (Ask::OpenInputs("midi-start-program_input".to_string()), Reply::Ports(1)),
            (Ask::InputName(0), name("Midi Through")),
            (Ask::Sleep(400), Reply::Done),
        ];
        assert_eq!(tick(&mut app, script), Ok(true));
    }
}

#[test]
fn each_failure_of_a_connection_has_its_error() {
    let client = || Ask::OpenInputs("midi-start-program_input".to_string());
    let script = vec![(Ask::Observe, observed(1)), (client(), failed("f"))];
    assert_eq!(tick(&mut app(), script), Err("midi init error f".to_string()));

    let script = vec![
        (Ask::Observe, observed(1)),
        (client(), Reply::Ports(1)),
        (Ask::InputName(0), failed("f")),
    ];
    assert_eq!(
        tick(&mut app(), script),
        Err("midi init error while getting port info f".to_string())
    );

    let mut script = vec![(Ask::Observe, observed(1))];
    script.extend(connecting(true, 2));
    script.pop();
    script.push((Ask::ConnectInput(1, "Digital Piano MIDI 1".to_string()), failed("f")));
    assert_eq!(
        tick(&mut app(), script),
        Err("midi connection error while getting port info f".to_string())
    );

    let mut script = vec![(Ask::Observe, observed(1))];
    script.extend(connecting(true, 2));
    script.pop();
    script.pop();
    script.push((Ask::ConnectOutput(0, "midi-start-program_output".to_string()), failed("f")));
    assert_eq!(tick(&mut app(), script), Err("midi output connection error f".to_string()));
}

#[test]
fn a_silent_connection_is_given_up() {
    let mut app = connected(true);
    let script = vec![
        (send(LOCAL_ON), Reply::Done),
        (Ask::Observe, observed(1)),
        (Ask::Receive(10_000), Reply::Silence),
        (Ask::CloseMidi, Reply::Done),
    ];
    assert_eq!(tick(&mut app, script), Ok(true));
    let mut script = vec![(Ask::Observe, observed(2))];
    script.extend(connecting(false, 3));
    script.push((Ask::Receive(10_000), Reply::Garbled));
    assert_eq!(tick(&mut app, script), Ok(true));
}

#[test]
fn a_key_starts_the_synthesizer() {
    let app = playing(SECOND);
    assert!(app.kills_on_drop());
}

#[test]
fn a_key_let_go_starts_the_synthesizer_too() {
    let mut app = connected(false);
    let script = vec![
        (Ask::Observe, observed(1)),
        (
            Ask::Receive(10_000),
            Reply::Message { msg: MidiMsg::NoteOn { note: 60, velocity: 0 }, now: 2 },
        ),
        (pause(), output(false, "", "No players found\n")),
        (get_volume(), output(true, "Volume: 0.40\n", "")),
        (read(), Reply::Text("0.85".to_string())),
        (set_volume("0.85"), ended(true)),
        (spawn(), Reply::Done),
        (stay_awake(), Reply::Done),
    ];
    assert_eq!(tick(&mut app, script), Ok(true));
    assert!(app.kills_on_drop());
}

#[test]
fn without_a_pause_the_volume_stays() {
    for reply in [output(false, "", "broken"), failed("no playerctl")] {
        let mut app = connected(false);
        let script = vec![
            (Ask::Observe, observed(1)),
            (Ask::Receive(10_000), key(60, 2)),
            (pause(), reply),
            (spawn(), Reply::Done),
            (stay_awake(), Reply::Done),
        ];
        assert_eq!(tick(&mut app, script), Ok(true));
        let script = vec![
            (Ask::TryWait, Reply::Exited(true)),
            (Ask::ReleaseProcess, Reply::Done),
            (Ask::Observe, observed(3)),
            (Ask::Receive(10_000), Reply::Garbled),
        ];
        assert_eq!(tick(&mut app, script), Ok(true));
    }
}

#[test]
fn a_running_synthesizer_is_not_started_again() {
    let mut app = playing(SECOND);
    let script = vec![
        (Ask::TryWait, Reply::Exited(false)),
        (Ask::Observe, observed(2 * SECOND)),
        (Ask::Receive(10_000), key(61, 2 * SECOND)),
    ];
    assert_eq!(tick(&mut app, script), Ok(true));
}

#[test]
fn an_ended_synthesizer_is_cleaned_up_after() {
    let mut app = playing(SECOND);
    let mut script = vec![
        (Ask::TryWait, Reply::Exited(true)),
        (Ask::ReleaseProcess, Reply::Done),
    ];
    script.extend(cleaning());
    script.push((Ask::Observe, observed(2 * SECOND)));
    script.push((Ask::Receive(10_000), Reply::Garbled));
    assert_eq!(tick(&mut app, script), Ok(true));
    assert!(!app.kills_on_drop());
}

#[test]
fn a_cleanup_goes_on_after_a_failure() {
    let mut app = playing(SECOND);
    let script = vec![
        (Ask::TryWait, Reply::Exited(true)),
        (Ask::ReleaseProcess, Reply::Done),
        (get_volume(), failed("v")),
        (send(LOCAL_ON), failed("l")),
    ];
    assert_eq!(tick(&mut app, script), Err("somethingy io-y v".to_string()));

    let mut app = connected(true);
    let script = vec![(send(LOCAL_ON), failed("l"))];
    assert_eq!(tick(&mut app, script), Err("midi send error l".to_string()));
}

#[test]
fn a_failed_start_is_undone_again() {
    let mut app = connected(true);
    let mut script = vec![
        (send(LOCAL_ON), Reply::Done),
        (Ask::Observe, observed(1)),
        (Ask::Receive(10_000), key(60, 2)),
    ];
    script.extend(starting());
    script.pop();
    script.push((stay_awake(), failed("w")));
    script.extend(cleaning());
    assert_eq!(tick(&mut app, script), Err("tried to keep computer awake w".to_string()));
    assert!(!app.kills_on_drop());
}

#[test]
fn each_failure_of_a_start_has_its_error() {
    let begin = |script: Vec<(Ask, Reply)>| {
        let mut whole = vec![
            (send(LOCAL_ON), Reply::Done),
            (Ask::Observe, observed(1)),
            (Ask::Receive(10_000), key(60, 2)),
        ];
        whole.extend(script);
        whole
    };
    let script = begin(vec![(send([0x90, 60, 80]), failed("m")), (send(LOCAL_ON), Reply::Done)]);
    assert_eq!(tick(&mut connected(true), script), Err("midi send error m".to_string()));

    let mut script = starting();
    script.truncate(7);
    script.push((spawn(), failed("s")));
    script.extend(cleaning());
    assert_eq!(
        tick(&mut connected(true), begin(script)),
        Err("somethingy io-y s".to_string())
    );

    let mut script = starting();
    script.truncate(4);
    script.push((get_volume(), output(true, "nothing", "")));
    script.push((get_volume(), output(true, "nothing", "")));
    script.push((send(LOCAL_ON), Reply::Done));
    assert_eq!(
        tick(&mut connected(true), begin(script)),
        Err("parsing volume nothing".to_string())
    );

    let mut script = starting();
    script.truncate(7);
    script.push((spawn(), failed("s")));
    script.push((get_volume(), failed("v")));
    script.push((send(LOCAL_ON), failed("l")));
    assert_eq!(
        tick(&mut connected(true), begin(script)),
        Err("somethingy io-y v".to_string())
    );
}

#[test]
fn a_first_start_without_a_volume_file_is_undone() {
    let mut app = connected(true);
    let mut script = vec![
        (send(LOCAL_ON), Reply::Done),
        (Ask::Observe, observed(1)),
        (Ask::Receive(10_000), key(60, 2)),
    ];
    script.extend(starting());
    script.truncate(3 + 5);
    script.push((read(), failed("no such file")));
    script.push((get_volume(), output(true, "Volume: 0.40\n", "")));
    script.push((write("0.40"), Reply::Done));
    script.push((send(LOCAL_ON), Reply::Done));
    assert_eq!(tick(&mut app, script), Err("somethingy io-y no such file".to_string()));
    assert!(!app.kills_on_drop());

    let mut script = vec![
        (send(LOCAL_ON), Reply::Done),
        (Ask::Observe, observed(3)),
        (Ask::Receive(10_000), key(60, 4)),
    ];
    script.extend(starting());
    assert_eq!(tick(&mut app, script), Ok(true));
    assert!(app.kills_on_drop());
}

/// What sleep asks for once there is no synthesizer.
fn sleeping() -> Vec<(Ask, Reply)> {
    vec![
        (send(LOCAL_ON), Reply::Done),
        (Ask::CloseMidi, Reply::Done),
        (Ask::Sleep(500), Reply::Done),
        (suspend(), ended(true)),
    ]
}

#[test]
fn the_timeout_ends_in_sleep() {
    let mut app = playing(SECOND);
    // Active sensing: the piano is there, but no key is touched.
    let script = vec![
        (Ask::TryWait, Reply::Exited(false)),
        (Ask::Observe, observed(181 * SECOND)),
        (Ask::Receive(10_000), Reply::Message { msg: MidiMsg::Other, now: 181 * SECOND }),
    ];
    assert_eq!(tick(&mut app, script), Ok(true));
    assert!(app.is_idle(181 * SECOND + 1));
    let mut script = vec![
        (Ask::TryWait, Reply::Exited(false)),
        (Ask::Observe, observed(181 * SECOND + 1)),
        (Ask::Signal(15), Reply::Done),
        (Ask::TryWait, Reply::Exited(false)),
        (Ask::TryWait, Reply::Exited(false)),
        (Ask::Sleep(400), Reply::Done),
        (Ask::TryWait, Reply::Exited(true)),
        (Ask::ReleaseProcess, Reply::Done),
    ];
    script.extend(cleaning());
    script.extend(sleeping());
    assert_eq!(tick(&mut app, script), Ok(true));
    assert!(!app.kills_on_drop());
}

#[test]
fn without_a_synthesizer_there_is_no_timeout() {
    let mut app = playing(SECOND);
    let script = vec![
        (Ask::TryWait, Reply::Exited(false)),
        (Ask::Observe, observed(181 * SECOND)),
        (Ask::Receive(10_000), Reply::Message { msg: MidiMsg::Other, now: 181 * SECOND }),
    ];
    assert_eq!(tick(&mut app, script), Ok(true));
    assert!(app.is_idle(181 * SECOND + 1));
    let mut script = vec![
        (Ask::TryWait, Reply::Exited(true)),
        (Ask::ReleaseProcess, Reply::Done),
    ];
    script.extend(cleaning());
    script.push((Ask::Observe, observed(181 * SECOND + 1)));
    script.push((Ask::Receive(10_000), Reply::Garbled));
    assert_eq!(tick(&mut app, script), Ok(true));
    assert!(!app.is_idle(181 * SECOND + 1));
}

#[test]
fn a_silent_piano_is_no_timeout() {
    let mut app = playing(SECOND);
    assert!(!app.is_idle(181 * SECOND + 1));
    let script = vec![
        (Ask::TryWait, Reply::Exited(false)),
        (Ask::Observe, observed(500 * SECOND)),
        (Ask::Receive(10_000), Reply::Silence),
        (Ask::CloseMidi, Reply::Done),
    ];
    assert_eq!(tick(&mut app, script), Ok(true));
}

/// A program with a running synthesizer that has heard all of the gesture but its last key.
fn gesturing() -> App {
    let mut app = playing(SECOND);
    for i in 0..5 {
        let script = vec![
            (Ask::TryWait, Reply::Exited(false)),
            (Ask::Observe, observed(2 * SECOND)),
            (Ask::Receive(10_000), key(108, 2 * SECOND + i)),
        ];
        assert_eq!(tick(&mut app, script), Ok(true));
    }
    app
}

#[test]
fn the_gesture_ends_in_sleep() {
    let mut app = gesturing();
    let mut script = vec![
        (Ask::TryWait, Reply::Exited(false)),
        (Ask::Observe, observed(3 * SECOND)),
        (Ask::Receive(10_000), key(106, 3 * SECOND)),
        (Ask::Signal(15), Reply::Done),
        (Ask::TryWait, Reply::Exited(true)),
        (Ask::ReleaseProcess, Reply::Done),
    ];
    script.extend(cleaning());
    script.push((Ask::CloseMidi, Reply::Done));
    script.push((Ask::Sleep(500), Reply::Done));
    script.push((suspend(), ended(true)));
    assert_eq!(tick(&mut app, script), Ok(true));
    assert!(!app.kills_on_drop());
}

#[test]
fn the_gesture_is_counted_through_the_end_of_the_synthesizer() {
    let mut app = playing(SECOND);
    for i in 0..3 {
        let script = vec![
            (Ask::TryWait, Reply::Exited(false)),
            (Ask::Observe, observed(2 * SECOND)),
            (Ask::Receive(10_000), key(108, 2 * SECOND + i)),
        ];
        assert_eq!(tick(&mut app, script), Ok(true));
    }
    // The synthesizer ends, and the next strike starts another.
    let mut script = vec![
        (Ask::TryWait, Reply::Exited(true)),
        (Ask::ReleaseProcess, Reply::Done),
    ];
    script.extend(cleaning());
    script.push((Ask::Observe, observed(3 * SECOND)));
    script.push((Ask::Receive(10_000), key(108, 3 * SECOND)));
    script.extend(starting());
    assert_eq!(tick(&mut app, script), Ok(true));
    for reply in [Reply::Garbled, key(108, 4 * SECOND)] {
        let script = vec![
            (Ask::TryWait, Reply::Exited(false)),
            (Ask::Observe, observed(4 * SECOND)),
            (Ask::Receive(10_000), reply),
        ];
        assert_eq!(tick(&mut app, script), Ok(true));
    }
    let mut script = vec![
        (Ask::TryWait, Reply::Exited(false)),
        (Ask::Observe, observed(5 * SECOND)),
        (Ask::Receive(10_000), key(106, 5 * SECOND)),
        (Ask::Signal(15), Reply::Done),
        (Ask::TryWait, Reply::Exited(true)),
        (Ask::ReleaseProcess, Reply::Done),
    ];
    script.extend(cleaning());
    script.push((Ask::CloseMidi, Reply::Done));
    script.push((Ask::Sleep(500), Reply::Done));
    script.push((suspend(), ended(true)));
    assert_eq!(tick(&mut app, script), Ok(true));
}

#[test]
fn the_connection_is_given_up_even_where_the_synthesizer_does_not_end() {
    let mut app = gesturing();
    let script = vec![
        (Ask::TryWait, Reply::Exited(false)),
        (Ask::Observe, observed(3 * SECOND)),
        (Ask::Receive(10_000), key(106, 3 * SECOND)),
        (Ask::Signal(15), failed("no such process")),
        (Ask::CloseMidi, Reply::Done),
    ];
    assert_eq!(tick(&mut app, script), Err("somethingy io-y no such process".to_string()));
    assert!(app.kills_on_drop());
    let mut script = vec![
        (Ask::TryWait, Reply::Exited(false)),
        (Ask::Observe, observed(4 * SECOND)),
    ];
    script.extend(connecting(true, 4 * SECOND));
    script.push((Ask::Receive(10_000), Reply::Garbled));
    assert_eq!(tick(&mut app, script), Ok(true));
}

#[test]
fn a_failed_sleep_is_no_failure() {
    let mut app = gesturing();
    let mut script = vec![
        (Ask::TryWait, Reply::Exited(true)),
        (Ask::ReleaseProcess, Reply::Done),
    ];
    script.extend(cleaning());
    script.push((Ask::Observe, observed(3 * SECOND)));
    script.push((Ask::Receive(10_000), key(106, 3 * SECOND)));
    script.extend(sleeping());
    script.pop();
    script.push((suspend(), ended(false)));
    assert_eq!(tick(&mut app, script), Ok(true));
}

#[test]
fn a_sleep_command_that_does_not_run_is_a_failure() {
    let mut app = gesturing();
    let mut script = vec![
        (Ask::TryWait, Reply::Exited(true)),
        (Ask::ReleaseProcess, Reply::Done),
    ];
    script.extend(cleaning());
    script.push((Ask::Observe, observed(3 * SECOND)));
    script.push((Ask::Receive(10_000), key(106, 3 * SECOND)));
    script.extend(sleeping());
    script.pop();
    script.push((suspend(), failed("no systemctl")));
    assert_eq!(tick(&mut app, script), Err("somethingy io-y no systemctl".to_string()));
}

#[test]
fn the_program_stops_when_it_is_told_to() {
    let script = vec![(Ask::Observe, told_to_stop(1))];
    assert_eq!(tick(&mut app(), script), Ok(false));

    let mut app = playing(SECOND);
    let mut script = vec![
        (Ask::TryWait, Reply::Exited(false)),
        (Ask::Observe, told_to_stop(2 * SECOND)),
        (Ask::Signal(15), Reply::Done),
        (Ask::TryWait, Reply::Exited(false)),
        (Ask::TryWait, Reply::Exited(true)),
        (Ask::ReleaseProcess, Reply::Done),
    ];
    script.extend(cleaning());
    script.push((Ask::Sleep(400), Reply::Done));
    script.push((send(LOCAL_ON), Reply::Done));
    assert_eq!(tick(&mut app, script), Ok(false));
    assert!(!app.kills_on_drop());
}

#[test]
fn a_synthesizer_that_cannot_be_watched_is_a_failure() {
    let mut app = playing(SECOND);
    let script = vec![(Ask::TryWait, failed("w"))];
    assert_eq!(tick(&mut app, script), Err("somethingy io-y w".to_string()));
    assert!(app.kills_on_drop());

    let mut app = playing(SECOND);
    let script = vec![
        (Ask::TryWait, Reply::Exited(false)),
        (Ask::Observe, told_to_stop(2 * SECOND)),
        (Ask::Signal(15), failed("no such process")),
    ];
    assert_eq!(tick(&mut app, script), Err("somethingy io-y no such process".to_string()));
}

#[test]
fn what_is_no_answer_is_told_apart() {
    let mut app = app();
    assert!(matches!(app.tick_main(), Turn::Asks(Ask::Observe)));
    assert!(!app.is_answered_by(&Reply::Done));
    assert!(!app.is_answered_by(&failed("f")));
    assert!(app.is_answered_by(&observed(1)));
}
