//! The connection to the piano, and what its keys mean.

use vstd::prelude::*;

use crate::midi_in::MidiMsg;
use crate::midi_out::MidiOut;

verus! {

/// The rightmost key of a piano, a C.
pub const RIGHTMOST_C: u8 = 108;

/// The closest B flat.
pub const TRIGGER_NOTE: u8 = 106;

/// How often the rightmost key is struck before the B flat means sleep.
pub const GESTURE_COUNT: u8 = 5;

/// How recent a message of the piano has to be for the piano to count as there, in
/// nanoseconds.
pub const ALIVE: u128 = 1_000_000_000;

/// What a message of the piano calls for.
#[derive(Clone, Copy, Debug, PartialEq, Eq, Structural)]
pub enum MidiTickAction {
    StartProcess,
    Suspend,
}

/// A connection to the piano. Times are in nanoseconds.
#[derive(Clone, Copy, Debug)]
pub struct MidiConnection {
    /// Where messages to the piano go, if there is such a way.
    pub midi_out: Option<MidiOut>,
    /// When a key was last struck or let go.
    pub last_note_instant: Option<u128>,
    /// When the last message came.
    pub last_update_instant: u128,
    /// How often in a row the rightmost key was struck.
    pub rightmost_count: u8,
}

/// The time from `since` to `now`.
pub open spec fn elapsed(now: u128, since: u128) -> int {
    if now >= since {
        now - since
    } else {
        0
    }
}

impl MidiConnection {
    /// A connection over which nothing has come yet.
    pub open spec fn fresh(midi_out: Option<MidiOut>, now: u128) -> MidiConnection {
        MidiConnection {
            midi_out,
            last_note_instant: None,
            last_update_instant: now,
            rightmost_count: 0,
        }
    }

    /// The connection after a message.
    pub open spec fn after(self, msg: MidiMsg, now: u128) -> MidiConnection {
        match msg {
            MidiMsg::NoteOn { note, velocity } => MidiConnection {
                last_note_instant: Some(now),
                last_update_instant: now,
                rightmost_count: if velocity == 0 {
                    self.rightmost_count
                } else if note != RIGHTMOST_C {
                    0
                } else if self.rightmost_count < u8::MAX {
                    (self.rightmost_count + 1) as u8
                } else {
                    u8::MAX
                },
                ..self
            },
            MidiMsg::Other => MidiConnection { last_update_instant: now, ..self },
        }
    }

    /// What a message calls for: to sleep, where it is the end of the gesture, else to play,
    /// where it comes from a key.
    pub open spec fn calls_for(self, msg: MidiMsg) -> Option<MidiTickAction> {
        match msg {
            MidiMsg::NoteOn { note, velocity } => if velocity > 0 && note == TRIGGER_NOTE
                && self.rightmost_count >= GESTURE_COUNT {
                Some(MidiTickAction::Suspend)
            } else {
                Some(MidiTickAction::StartProcess)
            },
            MidiMsg::Other => None,
        }
    }

    /// No key has been touched for longer than `timeout`, but the piano is there.
    pub open spec fn idle(self, now: u128, timeout: u128) -> bool {
        match self.last_note_instant {
            Some(last_note) => elapsed(now, last_note) > timeout && elapsed(
                now,
                self.last_update_instant,
            ) < ALIVE,
            None => false,
        }
    }

    /// Takes notice of a message, and says what it calls for.
    pub fn tick_midi(&mut self, msg: MidiMsg, now: u128) -> (action: Option<MidiTickAction>)
        ensures
            *final(self) == old(self).after(msg, now),
            action == old(self).calls_for(msg),
    {
        self.last_update_instant = now;
        match msg {
            MidiMsg::NoteOn { note, velocity } => {
                self.last_note_instant = Some(now);
                if velocity > 0 {
                    if note == TRIGGER_NOTE && self.rightmost_count >= GESTURE_COUNT {
                        self.rightmost_count = 0;
                        return Some(MidiTickAction::Suspend);
                    } else if note == RIGHTMOST_C {
                        self.rightmost_count = self.rightmost_count.saturating_add(1);
                    } else {
                        self.rightmost_count = 0;
                    }
                }
                Some(MidiTickAction::StartProcess)
            },
            MidiMsg::Other => None,
        }
    }

    /// Says whether no key has been touched for longer than `timeout` while the piano is
    /// there.
    pub fn is_idle(&self, now: u128, timeout: u128) -> (answer: bool)
        ensures
            answer == self.idle(now, timeout),
    {
        match self.last_note_instant {
            Some(last_note) => now.saturating_sub(last_note) > timeout && now.saturating_sub(
                self.last_update_instant,
            ) < ALIVE,
            None => false,
        }
    }
}

} // verus!
