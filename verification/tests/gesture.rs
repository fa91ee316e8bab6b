use midi_start_program::connection::{MidiConnection, MidiTickAction};
use midi_start_program::midi_in::MidiMsg;

fn connection() -> MidiConnection {
    MidiConnection {
        midi_out: None,
        last_note_instant: None,
        last_update_instant: 0,
        rightmost_count: 0,
    }
}

fn struck(note: u8) -> MidiMsg {
    MidiMsg::NoteOn { note, velocity: 64 }
}

fn let_go(note: u8) -> MidiMsg {
    MidiMsg::NoteOn { note, velocity: 0 }
}

fn play(midi: &mut MidiConnection, msgs: &[MidiMsg]) -> Vec<Option<MidiTickAction>> {
    let mut actions = Vec::new();
    for (i, msg) in msgs.iter().enumerate() {
        actions.push(midi.tick_midi(*msg, i as u128));
    }
    actions
}

#[test]
fn five_rightmost_cs_and_the_b_flat_mean_sleep() {
    let mut midi = connection();
    let actions = play(&mut midi, &[
        struck(108),
        struck(108),
        struck(108),
        struck(108),
        struck(108),
        struck(106),
    ]);
    let start = Some(MidiTickAction::StartProcess);
    assert_eq!(actions, vec![start, start, start, start, start, Some(MidiTickAction::Suspend)]);
    assert_eq!(midi.rightmost_count, 0);
}

#[test]
fn four_rightmost_cs_are_too_few() {
    let mut midi = connection();
    let actions = play(&mut midi, &[
        struck(108),
        struck(108),
        struck(108),
        struck(108),
        struck(106),
    ]);
    assert_eq!(actions[4], Some(MidiTickAction::StartProcess));
    assert_eq!(midi.rightmost_count, 0);
}

#[test]
fn more_rightmost_cs_do_no_harm() {
    let mut midi = connection();
    let mut msgs = vec![struck(108); 300];
    msgs.push(struck(106));
    let actions = play(&mut midi, &msgs);
    assert_eq!(actions[299], Some(MidiTickAction::StartProcess));
    assert_eq!(actions[300], Some(MidiTickAction::Suspend));
}

#[test]
fn the_count_stops_at_its_largest() {
    let mut midi = connection();
    play(&mut midi, &vec![struck(108); 255]);
    assert_eq!(midi.rightmost_count, 255);
    play(&mut midi, &[struck(108)]);
    assert_eq!(midi.rightmost_count, 255);
}

#[test]
fn keys_let_go_and_other_messages_do_not_interrupt_the_gesture() {
    let mut midi = connection();
    let mut msgs = Vec::new();
    for _ in 0..5 {
        msgs.push(struck(108));
        msgs.push(let_go(108));
        msgs.push(MidiMsg::Other);
    }
    msgs.push(let_go(106));
    msgs.push(struck(106));
    let actions = play(&mut midi, &msgs);
    assert_eq!(actions[2], None);
    assert_eq!(actions[15], Some(MidiTickAction::StartProcess));
    assert_eq!(actions[16], Some(MidiTickAction::Suspend));
}

#[test]
fn another_key_interrupts_the_gesture() {
    let mut midi = connection();
    let actions = play(&mut midi, &[
        struck(108),
        struck(108),
        struck(108),
        struck(108),
        struck(108),
        struck(107),
        struck(106),
    ]);
    assert_eq!(actions[6], Some(MidiTickAction::StartProcess));
}

#[test]
fn a_key_is_remembered_and_another_message_only_noticed() {
    let mut midi = connection();
    midi.tick_midi(let_go(60), 7);
    assert_eq!(midi.last_note_instant, Some(7));
    assert_eq!(midi.last_update_instant, 7);
    midi.tick_midi(MidiMsg::Other, 9);
    assert_eq!(midi.last_note_instant, Some(7));
    assert_eq!(midi.last_update_instant, 9);
}

#[test]
fn idle_is_longer_than_the_timeout_with_the_piano_there() {
    let second: u128 = 1_000_000_000;
    let midi = MidiConnection {
        midi_out: None,
        last_note_instant: Some(10 * second),
        last_update_instant: 190 * second,
        rightmost_count: 0,
    };
    assert!(!midi.is_idle(190 * second, 180 * second));
    assert!(midi.is_idle(190 * second + 1, 180 * second));
    assert!(midi.is_idle(191 * second - 1, 180 * second));
    assert!(!midi.is_idle(191 * second, 180 * second));
    assert!(!midi.is_idle(5 * second, 0));
}

#[test]
fn nobody_is_idle_before_the_first_key() {
    let midi = connection();
    assert!(!midi.is_idle(500, 0));
}
