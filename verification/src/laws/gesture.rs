//! What the keys of the piano say.

use vstd::prelude::*;

use crate::connection::{MidiConnection, MidiTickAction, GESTURE_COUNT, RIGHTMOST_C, TRIGGER_NOTE};
use crate::midi_in::{self, MidiMsg};
use crate::midi_out::{self, MidiOut};

verus! {

/// The keys that were struck, in order. A key that is let go is not struck.
pub open spec fn strikes(msgs: Seq<(MidiMsg, u128)>) -> Seq<u8>
    decreases msgs.len(),
{
    if msgs.len() == 0 {
        seq![]
    } else {
        match msgs.last().0 {
            MidiMsg::NoteOn { note, velocity } => if velocity > 0 {
                strikes(msgs.drop_last()).push(note)
            } else {
                strikes(msgs.drop_last())
            },
            MidiMsg::Other => strikes(msgs.drop_last()),
        }
    }
}

/// A connection after messages, each with the time at which it came.
pub open spec fn after_all(midi: MidiConnection, msgs: Seq<(MidiMsg, u128)>) -> MidiConnection
    decreases msgs.len(),
{
    if msgs.len() == 0 {
        midi
    } else {
        after_all(midi, msgs.drop_last()).after(msgs.last().0, msgs.last().1)
    }
}

/// The last `n` of the keys are all the rightmost one.
pub open spec fn ends_in_rightmost(keys: Seq<u8>, n: int) -> bool {
    n <= keys.len() && forall|i: int| keys.len() - n <= i < keys.len() ==> #[trigger] keys[i]
        == RIGHTMOST_C
}

/// The count of a connection is how often the rightmost key was struck last, as far as it
/// counts.
proof fn lemma_rightmost_count(midi: MidiConnection, msgs: Seq<(MidiMsg, u128)>, n: int)
    requires
        midi.rightmost_count == 0,
        0 < n <= u8::MAX,
    ensures
        after_all(midi, msgs).rightmost_count >= n <==> ends_in_rightmost(strikes(msgs), n),
    decreases msgs.len(),
{
    if msgs.len() > 0 {
        let before = msgs.drop_last();
        let keys = strikes(before);
        if n > 1 {
            lemma_rightmost_count(midi, before, n - 1);
        }
        lemma_rightmost_count(midi, before, n);
        if let MidiMsg::NoteOn { note, velocity } = msgs.last().0 {
            if velocity > 0 {
                let now = keys.push(note);
                assert(now.last() == note);
                if ends_in_rightmost(now, n) {
                    assert(now[now.len() - 1] == RIGHTMOST_C);
                    assert forall|i: int| keys.len() - (n - 1) <= i < keys.len() implies
                        #[trigger] keys[i] == RIGHTMOST_C by {
                        assert(now[i] == keys[i]);
                    }
                    assert(ends_in_rightmost(keys, n - 1));
                } else if note == RIGHTMOST_C {
                    if ends_in_rightmost(keys, n - 1) {
                        assert forall|i: int| now.len() - n <= i < now.len() implies
                            #[trigger] now[i] == RIGHTMOST_C by {
                            if i < keys.len() {
                                assert(keys[i] == RIGHTMOST_C);
                            }
                        }
                    }
                    assert(!ends_in_rightmost(keys, n - 1));
                }
            }
        }
    }
}

/// The computer is told to sleep by the gesture and by no other message: the closest B flat
/// is struck, and the five keys struck before it were all the rightmost C. What lies between
/// the strikes, such as letting a key go, makes no difference.
pub proof fn only_the_gesture_means_sleep(
    midi: MidiConnection,
    msgs: Seq<(MidiMsg, u128)>,
    msg: MidiMsg,
)
    requires
        midi.rightmost_count == 0,
    ensures
        after_all(midi, msgs).calls_for(msg) == Some(MidiTickAction::Suspend) <==> {
            &&& msg matches MidiMsg::NoteOn { note, velocity } && note == TRIGGER_NOTE && velocity
                > 0
            &&& ends_in_rightmost(strikes(msgs), 5)
        },
{
    lemma_rightmost_count(midi, msgs, GESTURE_COUNT as int);
}

/// Any other key, struck or let go, calls for the synthesizer, and what comes from no key
/// calls for nothing.
pub proof fn any_key_calls_for_the_synthesizer(midi: MidiConnection, msg: MidiMsg)
    ensures
        midi.calls_for(msg) is None <==> msg is Other,
        midi.calls_for(msg) == Some(MidiTickAction::StartProcess) <==> msg is NoteOn
            && midi.calls_for(msg) != Some(MidiTickAction::Suspend),
{
}

/// The time of the last message that came from a key, struck or let go.
pub open spec fn last_touch(msgs: Seq<(MidiMsg, u128)>) -> Option<u128>
    decreases msgs.len(),
{
    if msgs.len() == 0 {
        None
    } else if msgs.last().0 is NoteOn {
        Some(msgs.last().1)
    } else {
        last_touch(msgs.drop_last())
    }
}

/// A connection remembers the last touch of a key, however many came before, and the last
/// message of any kind. Where messages go out is not changed by those that come in.
pub proof fn the_last_touch_is_remembered(midi: MidiConnection, msgs: Seq<(MidiMsg, u128)>)
    ensures
        after_all(midi, msgs).last_note_instant == (match last_touch(msgs) {
            Some(t) => Some(t),
            None => midi.last_note_instant,
        }),
        after_all(midi, msgs).last_update_instant == (if msgs.len() > 0 {
            msgs.last().1
        } else {
            midi.last_update_instant
        }),
        after_all(midi, msgs).midi_out == midi.midi_out,
    decreases msgs.len(),
{
    if msgs.len() > 0 {
        the_last_touch_is_remembered(midi, msgs.drop_last());
    }
}

/// Nobody plays where the last touch of a key lies longer back than the timeout, while the last
/// message of the piano came less than a second ago, and only there.
pub proof fn nobody_plays_after_the_timeout(midi: MidiConnection, now: u128, timeout: u128)
    ensures
        midi.idle(now, timeout) <==> midi.last_note_instant is Some && now
            > midi.last_note_instant->0 + timeout && now < midi.last_update_instant
            + 1_000_000_000,
{
}

/// Whoever touches a key plays, until the timeout has passed: the time counts anew from every
/// touch.
pub proof fn every_touch_is_playing(
    midi: MidiConnection,
    msgs: Seq<(MidiMsg, u128)>,
    now: u128,
    timeout: u128,
)
    requires
        last_touch(msgs) is Some,
        now - last_touch(msgs)->0 <= timeout,
    ensures
        !after_all(midi, msgs).idle(now, timeout),
{
    the_last_touch_is_remembered(midi, msgs);
}

/// After a piano has been played and then only been there, nobody plays any more once the
/// timeout has passed since the last touch.
pub proof fn no_touch_is_no_playing(
    midi: MidiConnection,
    msgs: Seq<(MidiMsg, u128)>,
    now: u128,
    timeout: u128,
)
    requires
        last_touch(msgs) is Some,
        now - last_touch(msgs)->0 > timeout,
        now - msgs.last().1 < 1_000_000_000,
    ensures
        after_all(midi, msgs).idle(now, timeout),
{
    the_last_touch_is_remembered(midi, msgs);
}

/// A note that is sent reads as the same note, as far as it has seven bits.
pub proof fn a_note_sent_reads_as_that_note(
    midi_out: MidiOut,
    held: Seq<u8>,
    note: u8,
    velocity: u8,
)
    requires
        midi_out.channel() < 16,
    ensures
        midi_in::note_on_data(held, midi_out.note(note, velocity, true)) matches Some(data)
            && midi_in::complete(data),
        midi_in::message_at(held, midi_out.note(note, velocity, true)) == (MidiMsg::NoteOn {
            note: midi_out::seven_bits(note),
            velocity: midi_out::seven_bits(velocity),
        }),
{
}

/// A struck key is read whatever comes after it in the packet and whatever came before: its
/// status byte, on any channel, and two data bytes. Where the status byte is left out, the one
/// that is held counts. A packet with another status byte strikes no key.
pub proof fn a_struck_key_is_read(
    held: Seq<u8>,
    status: u8,
    note: u8,
    velocity: u8,
    more: Seq<u8>,
)
    requires
        note < 0x80,
        velocity < 0x80,
    ensures
        0x90 <= status < 0xA0 ==> {
            &&& midi_in::note_on_data(held, seq![status, note, velocity] + more) matches Some(data)
                && midi_in::complete(data)
            &&& midi_in::message_at(held, seq![status, note, velocity] + more) == (
            MidiMsg::NoteOn { note, velocity })
            &&& midi_in::note_on_data(seq![status], seq![note, velocity] + more) matches Some(data)
                && midi_in::complete(data)
            &&& midi_in::message_at(seq![status], seq![note, velocity] + more) == (
            MidiMsg::NoteOn { note, velocity })
        },
        0x80 <= status && !(0x90 <= status < 0xA0) ==> {
            &&& midi_in::note_on_data(held, seq![status, note, velocity] + more) is None
            &&& midi_in::message_at(held, seq![status, note, velocity] + more) == MidiMsg::Other
            &&& midi_in::note_on_data(seq![status], seq![note, velocity] + more) is None
            &&& midi_in::message_at(seq![status], seq![note, velocity] + more) == MidiMsg::Other
        },
{
}

/// On the first channel, a note and the local control are these three bytes. A note or a
/// velocity of more than seven bits is sent as the largest that there is.
pub proof fn messages_are_three_bytes(midi_out: MidiOut, note: u8, velocity: u8, on: bool)
    requires
        midi_out.channel() == 0,
    ensures
        midi_out.note(note, velocity, on) == seq![
            if on {
                0x90u8
            } else {
                0x80u8
            },
            if note < 128 {
                note
            } else {
                127
            },
            if velocity < 128 {
                velocity
            } else {
                127
            },
        ],
        midi_out.local_control(on) == seq![
            0xB0u8,
            122,
            if on {
                127
            } else {
                0
            },
        ],
{
}

} // verus!
