//! Messages of the piano.

use midi_msg::{ChannelVoiceMsg, ReceiverContext};
use vstd::prelude::*;

use crate::error::{viewed, ErrorView, MidiStartPrgError};

verus! {

/// What the program tells apart among the messages of the piano.
#[derive(Clone, Copy, Debug, PartialEq, Eq, Structural)]
pub enum MidiMsg {
    /// A key is struck, or, with velocity 0, let go.
    NoteOn { note: u8, velocity: u8 },
    /// Anything else.
    Other,
}

/// `midi_msg::ReceiverContext`: what that crate keeps between two messages of a stream.
#[verifier::external_type_specification]
#[verifier::external_body]
pub struct ExReceiverContext(midi_msg::ReceiverContext);

/// The status byte of the last channel message that a context has seen: no byte, or one.
pub uninterp spec fn held_status(context: ReceiverContext) -> Seq<u8>;

/// The setting `complex_cc` of a context.
pub uninterp spec fn complex_cc(context: ReceiverContext) -> bool;

/// What `midi_msg` says against some bytes, after a channel message with a given status byte
/// or after none: `None` where the bytes begin with a message.
pub uninterp spec fn objection(held: Seq<u8>, bytes: Seq<u8>) -> Option<Seq<char>>;

/// The status bytes of channel messages.
pub open spec fn channel_status(byte: u8) -> bool {
    0x80 <= byte < 0xF0
}

/// The status bytes of messages that strike a key.
pub open spec fn note_on_status(byte: u8) -> bool {
    0x90 <= byte < 0xA0
}

/// The bytes that follow the status byte of a message that strikes a key. Where the bytes
/// begin with no status byte, that of the last channel message counts.
pub open spec fn note_on_data(held: Seq<u8>, bytes: Seq<u8>) -> Option<Seq<u8>> {
    if bytes.len() > 0 && note_on_status(bytes[0]) {
        Some(bytes.skip(1))
    } else if bytes.len() > 0 && bytes[0] < 0x80 && held.len() > 0 && note_on_status(held[0]) {
        Some(bytes)
    } else {
        None
    }
}

/// `data` begins with a note and a velocity, of seven bits each.
pub open spec fn complete(data: Seq<u8>) -> bool {
    data.len() >= 2 && data[0] < 0x80 && data[1] < 0x80
}

/// The message at the start of `bytes`.
pub open spec fn message_at(held: Seq<u8>, bytes: Seq<u8>) -> MidiMsg {
    match note_on_data(held, bytes) {
        Some(data) => MidiMsg::NoteOn { note: data[0], velocity: data[1] },
        None => MidiMsg::Other,
    }
}

/// `midi_msg::ReceiverContext::new`: a context that has seen no message and takes control
/// changes one by one.
pub assume_specification[ ReceiverContext::new ]() -> (context: ReceiverContext)
    ensures
        held_status(context) == Seq::<u8>::empty(),
        !complex_cc(context),
;

/// `midi_msg::MidiMsg::from_midi_with_context`, of which the message is kept and the number
/// of bytes that it took is not. Whether the bytes begin with a message, and what is said
/// against them, is a function of the bytes and of the status byte that the context holds.
/// Where they strike a key, they do so with two data bytes of seven bits, and are no message
/// without them. Nothing is no message, nor are data bytes while no status byte is held. A
/// channel message with a status byte of its own leaves that byte in the context, and
/// nothing else changes the byte that is held. The setting of the context stays.
#[verifier::external_body]
fn from_midi_with_context(bytes: &[u8], context: &mut ReceiverContext) -> (result: Result<
    MidiMsg,
    String,
>)
    requires
        !complex_cc(*old(context)),
    ensures
        !complex_cc(*final(context)),
        match result {
            Ok(msg) => objection(held_status(*old(context)), bytes@) is None && msg == message_at(
                held_status(*old(context)),
                bytes@,
            ),
            Err(text) => objection(held_status(*old(context)), bytes@) == Some(text@),
        },
        note_on_data(held_status(*old(context)), bytes@) matches Some(data) ==> (result is Ok
            <==> complete(data)),
        bytes@.len() == 0 ==> result is Err,
        bytes@.len() > 0 && bytes@[0] < 0x80 && held_status(*old(context)).len() == 0
            ==> result is Err,
        held_status(*final(context)) == (if result is Ok && channel_status(bytes@[0]) {
            seq![bytes@[0]]
        } else {
            held_status(*old(context))
        }),
{
    match midi_msg::MidiMsg::from_midi_with_context(bytes, context) {
        Ok((
            midi_msg::MidiMsg::ChannelVoice { msg: ChannelVoiceMsg::NoteOn { note, velocity }, .. },
            _,
        )) => Ok(MidiMsg::NoteOn { note, velocity }),
        Ok(_) => Ok(MidiMsg::Other),
        Err(error) => Err(error.to_string()),
    }
}

/// Reads the messages of the piano off the packets of bytes in which they come.
pub struct MidiReader {
    context: ReceiverContext,
}

impl View for MidiReader {
    /// The status byte of the last channel message: no byte, or one.
    type V = Seq<u8>;

    closed spec fn view(&self) -> Seq<u8> {
        held_status(self.context)
    }
}

impl MidiReader {
    /// Control changes are taken one by one.
    pub closed spec fn wf(self) -> bool {
        !complex_cc(self.context)
    }

    /// A reader that has read nothing.
    pub fn new() -> (reader: MidiReader)
        ensures
            reader.wf(),
            reader@ == Seq::<u8>::empty(),
    {
        MidiReader { context: ReceiverContext::new() }
    }

    /// Reads the message at the start of a packet.
    pub fn read(&mut self, bytes: &[u8]) -> (result: Result<MidiMsg, MidiStartPrgError>)
        requires
            old(self).wf(),
        ensures
            final(self).wf(),
            viewed(result) == (match objection(old(self)@, bytes@) {
                None => Ok(message_at(old(self)@, bytes@)),
                Some(text) => Err(ErrorView::MidiParse(text)),
            }),
            note_on_data(old(self)@, bytes@) matches Some(data) ==> (result is Ok <==> complete(
                data,
            )),
            bytes@.len() == 0 ==> result is Err,
            bytes@.len() > 0 && bytes@[0] < 0x80 && old(self)@.len() == 0 ==> result is Err,
            final(self)@ == (if result is Ok && channel_status(bytes@[0]) {
                seq![bytes@[0]]
            } else {
                old(self)@
            }),
    {
        match from_midi_with_context(bytes, &mut self.context) {
            Ok(msg) => Ok(msg),
            Err(text) => Err(MidiStartPrgError::MidiParse(text)),
        }
    }
}

} // verus!
