//! Messages to the piano.

use midi_msg::{Channel, ChannelModeMsg, ChannelVoiceMsg, MidiMsg};
use vstd::prelude::*;

use crate::error::{viewed, ErrorView, MidiStartPrgError};
use crate::protocol::{fits, followed, lemma_followed, Ask, AskView, Reply, ReplyView, Run, World};
use crate::text;

verus! {

/// A message on one MIDI channel. Channels are counted from 0.
#[derive(Clone, Copy, Debug)]
pub enum OutMsg {
    LocalControl { channel: u8, on: bool },
    NoteOn { channel: u8, note: u8, velocity: u8 },
    NoteOff { channel: u8, note: u8, velocity: u8 },
}

/// A data byte of a MIDI message has seven bits: what is larger is sent as the largest.
pub open spec fn seven_bits(x: u8) -> u8 {
    if x > 127 {
        127
    } else {
        x
    }
}

impl OutMsg {
    pub open spec fn channel(self) -> u8 {
        match self {
            OutMsg::LocalControl { channel, .. } => channel,
            OutMsg::NoteOn { channel, .. } => channel,
            OutMsg::NoteOff { channel, .. } => channel,
        }
    }

    /// The three bytes that the message is on the wire.
    pub open spec fn bytes(self) -> Seq<u8> {
        match self {
            OutMsg::LocalControl { channel, on } => seq![
                (0xB0 + channel) as u8,
                122u8,
                if on {
                    127u8
                } else {
                    0u8
                },
            ],
            OutMsg::NoteOn { channel, note, velocity } => seq![
                (0x90 + channel) as u8,
                seven_bits(note),
                seven_bits(velocity),
            ],
            OutMsg::NoteOff { channel, note, velocity } => seq![
                (0x80 + channel) as u8,
                seven_bits(note),
                seven_bits(velocity),
            ],
        }
    }
}

/// `midi_msg::MidiMsg::to_midi` on the message of that crate that `msg` stands for. A
/// control message for the local control and a note message are three bytes: the status
/// byte, to which the channel is added, and two data bytes, cut off at 127.
#[verifier::external_body]
fn to_midi(msg: OutMsg) -> (bytes: Vec<u8>)
    requires
        msg.channel() < 16,
    ensures
        bytes@ == msg.bytes(),
{
    let midi_msg: MidiMsg = match msg {
        OutMsg::LocalControl { channel, on } => MidiMsg::ChannelMode {
            channel: Channel::from_u8(channel),
            msg: ChannelModeMsg::LocalControl(on),
        },
        OutMsg::NoteOn { channel, note, velocity } => MidiMsg::ChannelVoice {
            channel: Channel::from_u8(channel),
            msg: ChannelVoiceMsg::NoteOn { note, velocity },
        },
        OutMsg::NoteOff { channel, note, velocity } => MidiMsg::ChannelVoice {
            channel: Channel::from_u8(channel),
            msg: ChannelVoiceMsg::NoteOff { note, velocity },
        },
    };
    midi_msg.to_midi()
}

/// The name under which the program connects to the piano's input.
pub open spec fn output_client() -> Seq<char> {
    "midi-start-program_output"@
}

/// A connection to the piano, over which messages go out on one channel.
#[derive(Clone, Copy, Debug)]
pub struct MidiOut {
    pub(crate) channel: u8,
}

impl MidiOut {
    #[verifier::type_invariant]
    spec fn wf(self) -> bool {
        self.channel < 16
    }

    /// The channel, counted from 0.
    pub closed spec fn channel(self) -> u8 {
        self.channel
    }

    /// A connection on the first channel.
    pub closed spec fn first() -> MidiOut {
        MidiOut { channel: 0 }
    }

    /// The bytes of [`MidiOut::set_local_control`].
    pub open spec fn local_control(self, on: bool) -> Seq<u8> {
        OutMsg::LocalControl { channel: self.channel(), on }.bytes()
    }

    /// The bytes of [`MidiOut::send_note`].
    pub open spec fn note(self, note: u8, velocity: u8, on: bool) -> Seq<u8> {
        if on {
            OutMsg::NoteOn { channel: self.channel(), note, velocity }.bytes()
        } else {
            OutMsg::NoteOff { channel: self.channel(), note, velocity }.bytes()
        }
    }

    /// The first of the sixteen channels is the one that [`MidiOut::open`] takes.
    pub proof fn first_channel()
        ensures
            MidiOut::first().channel() == 0,
    {
    }

    /// The message that lets the keys of the piano sound by themselves (`on`), or no more.
    pub fn set_local_control(&self, on: bool) -> (bytes: Vec<u8>)
        ensures
            bytes@ == self.local_control(on),
    {
        proof {
            use_type_invariant(self);
        }
        to_midi(OutMsg::LocalControl { channel: self.channel, on })
    }

    /// The message that strikes a key (`on`), or lets it go.
    pub fn send_note(&self, note: u8, velocity: u8, on: bool) -> (bytes: Vec<u8>)
        ensures
            bytes@ == self.note(note, velocity, on),
    {
        proof {
            use_type_invariant(self);
        }
        to_midi(
            if on {
                OutMsg::NoteOn { channel: self.channel, note, velocity }
            } else {
                OutMsg::NoteOff { channel: self.channel, note, velocity }
            },
        )
    }
}

impl World<()> {
    /// Connects to the first output port whose name begins with `prefix`, if there is one.
    pub open spec fn open_output(self, prefix: Seq<char>) -> Run<
        (),
        Result<Option<MidiOut>, ErrorView>,
    > {
        let w = self.ask(AskView::OpenOutputs(output_client()));
        match w.reply() {
            None => Run::Waiting(w),
            Some(ReplyView::Ports(count)) => w.taken().find_output(prefix, 0, count),
            Some(ReplyView::Failed(t)) => Run::Returned(w.taken(), Err(ErrorView::MidiInit(t))),
            Some(_) => Run::Stuck,
        }
    }

    /// The same, among the ports from `port` on.
    pub open spec fn find_output(self, prefix: Seq<char>, port: usize, count: usize) -> Run<
        (),
        Result<Option<MidiOut>, ErrorView>,
    >
        decreases count - port,
    {
        if port >= count {
            Run::Returned(self, Ok(None))
        } else {
            let w = self.ask(AskView::OutputName(port));
            match w.reply() {
                None => Run::Waiting(w),
                Some(ReplyView::Name(name)) => if text::begins_with(name, prefix) {
                    w.taken().connect_output(port)
                } else {
                    w.taken().find_output(prefix, (port + 1) as usize, count)
                },
                Some(ReplyView::Failed(t)) => Run::Returned(
                    w.taken(),
                    Err(ErrorView::MidiInitPort(t)),
                ),
                Some(_) => Run::Stuck,
            }
        }
    }

    /// Connects to an output port.
    pub open spec fn connect_output(self, port: usize) -> Run<
        (),
        Result<Option<MidiOut>, ErrorView>,
    > {
        let w = self.ask(AskView::ConnectOutput(port, output_client()));
        match w.reply() {
            None => Run::Waiting(w),
            Some(ReplyView::Done) => Run::Returned(w.taken(), Ok(Some(MidiOut::first()))),
            Some(ReplyView::Failed(t)) => Run::Returned(
                w.taken(),
                Err(ErrorView::MidiOutputConnect(t)),
            ),
            Some(_) => Run::Stuck,
        }
    }
}

/// What [`MidiOut::open`] waits for.
pub enum OpenStep {
    /// The number of ports.
    Count,
    /// The name of a port.
    Name { port: usize, count: usize },
    /// The connection to a port.
    Connect { port: usize },
}

/// A call of [`MidiOut::open`] that waits for a reply.
pub struct Opening {
    pub port_prefix: String,
    pub step: OpenStep,
}

impl Opening {
    /// What is left to do, from what is waited for on.
    pub open spec fn rest(self, w: World<()>) -> Run<(), Result<Option<MidiOut>, ErrorView>> {
        match self.step {
            OpenStep::Count => w.open_output(self.port_prefix@),
            OpenStep::Name { port, count } => w.find_output(self.port_prefix@, port, count),
            OpenStep::Connect { port } => w.connect_output(port),
        }
    }

    /// What is waited for.
    pub open spec fn pending(self) -> AskView {
        match self.step {
            OpenStep::Count => AskView::OpenOutputs(output_client()),
            OpenStep::Name { port, .. } => AskView::OutputName(port),
            OpenStep::Connect { port } => AskView::ConnectOutput(port, output_client()),
        }
    }

    /// A name is waited for only of a port that there is.
    pub open spec fn wf(self) -> bool {
        self.step matches OpenStep::Name { port, count } ==> port < count
    }

    /// The reply is an answer to what is waited for.
    pub open spec fn accepts(self, reply: ReplyView) -> bool {
        !(self.rest(World { state: (), asked: seq![], replies: seq![reply] }) is Stuck)
    }

    /// Whether a reply is accepted has nothing to do with what was asked for before, and one
    /// that is accepted is taken.
    pub(crate) proof fn lemma_accepts(self, w: World<()>, reply: ReplyView)
        requires
            self.wf(),
            w.replies == seq![reply],
        ensures
            self.rest(w) is Stuck <==> !self.accepts(reply),
            self.rest(w) matches Run::Returned(v, _) ==> v.replies.len() == 0,
    {
        reveal_with_fuel(World::<_>::find_output, 2);
        assert(w.replies.skip(1) =~= seq![]);
    }

    /// Every reply that answers what is waited for is accepted, and no other.
    pub proof fn lemma_accepts_what_fits(self, reply: ReplyView)
        requires
            self.wf(),
        ensures
            self.accepts(reply) <==> fits(self.pending(), reply),
    {
        reveal_with_fuel(World::<_>::find_output, 2);
    }

    /// Says whether the reply is an answer to what is waited for.
    pub fn answered_by(&self, reply: &Reply) -> (answer: bool)
        requires
            self.wf(),
        ensures
            answer == self.accepts(reply@),
    {
        proof {
            reveal_with_fuel(World::<_>::find_output, 2);
        }
        match (&self.step, reply) {
            (_, Reply::Failed(_)) => true,
            (OpenStep::Count, Reply::Ports(_)) => true,
            (OpenStep::Name { .. }, Reply::Name(_)) => true,
            (OpenStep::Connect { .. }, Reply::Done) => true,
            _ => false,
        }
    }

    /// Goes on to a port, if there is one of that number.
    fn try_port(port_prefix: String, port: usize, count: usize) -> (turn: OpenTurn)
        ensures
            turn.wf(),
            forall|w: World<()>| #[trigger]
                turn.rest(w) == w.find_output(port_prefix@, port, count),
    {
        if port < count {
            OpenTurn::Asks(
                Opening { port_prefix, step: OpenStep::Name { port, count } },
                Ask::OutputName(port),
            )
        } else {
            OpenTurn::Returns(Ok(None))
        }
    }

    /// Goes on with the reply to what was asked for last.
    pub fn resume(self, reply: Reply) -> (turn: OpenTurn)
        requires
            self.wf(),
            self.accepts(reply@),
        ensures
            turn.wf(),
            forall|asked: Seq<AskView>, replies: Seq<ReplyView>|
                #![trigger self.rest(World { state: (), asked, replies: followed(reply@, replies) })]
                turn.rest(World { state: (), asked: asked.push(self.pending()), replies })
                    == self.rest(World { state: (), asked, replies: followed(reply@, replies) }),
    {
        broadcast use lemma_followed;

        let Opening { port_prefix, step } = self;
        match (step, reply) {
            (OpenStep::Count, Reply::Ports(count)) => Opening::try_port(port_prefix, 0, count),
            (OpenStep::Count, Reply::Failed(t)) => OpenTurn::Returns(
                Err(MidiStartPrgError::MidiInit(t)),
            ),
            (OpenStep::Name { port, count }, Reply::Name(name)) => if text::starts_with(
                name.as_str(),
                port_prefix.as_str(),
            ) {
                OpenTurn::Asks(
                    Opening { port_prefix, step: OpenStep::Connect { port } },
                    Ask::ConnectOutput(port, "midi-start-program_output".to_string()),
                )
            } else {
                Opening::try_port(port_prefix, port + 1, count)
            },
            (OpenStep::Name { .. }, Reply::Failed(t)) => OpenTurn::Returns(
                Err(MidiStartPrgError::MidiInitPort(t)),
            ),
            (OpenStep::Connect { .. }, Reply::Failed(t)) => OpenTurn::Returns(
                Err(MidiStartPrgError::MidiOutputConnect(t)),
            ),
            _ => OpenTurn::Returns(Ok(Some(MidiOut { channel: 0 }))),
        }
    }
}

/// What [`MidiOut::open`] does next: it asks and waits, or it has returned.
pub enum OpenTurn {
    Asks(Opening, Ask),
    Returns(Result<Option<MidiOut>, MidiStartPrgError>),
}

impl OpenTurn {
    /// What is left to do.
    pub open spec fn rest(self, w: World<()>) -> Run<(), Result<Option<MidiOut>, ErrorView>> {
        match self {
            OpenTurn::Asks(opening, _) => opening.rest(w),
            OpenTurn::Returns(result) => Run::Returned(w, viewed(result)),
        }
    }

    /// What is asked for is what is waited for.
    pub open spec fn wf(self) -> bool {
        self matches OpenTurn::Asks(opening, ask) ==> opening.wf() && ask@ == opening.pending()
    }
}

impl MidiOut {
    /// Begins to connect to the first output port whose name begins with `port_prefix`.
    pub fn open(port_prefix: &str) -> (turn: OpenTurn)
        ensures
            turn.wf(),
            turn is Asks,
            forall|w: World<()>| #[trigger] turn.rest(w) == w.open_output(port_prefix@),
    {
        OpenTurn::Asks(
            Opening { port_prefix: port_prefix.to_string(), step: OpenStep::Count },
            Ask::OpenOutputs("midi-start-program_output".to_string()),
        )
    }
}

} // verus!
