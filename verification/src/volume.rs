//! Two volumes: one for playing, and the standard one for everything else.
//!
//! The volume for playing is kept in a file while the standard one is set, and the standard
//! one is remembered while the one for playing is set.

use vstd::prelude::*;

use crate::error::{viewed, ErrorView, MidiStartPrgError};
use crate::protocol::{
    fits, followed, lemma_followed, Ask, AskView, CommandLine, CommandView, Reply, ReplyView, Run,
    World,
};
use crate::text;

verus! {

/// The volume in what `wpctl get-volume` printed.
pub open spec fn volume_in(stdout: Seq<u8>) -> Result<Seq<char>, ErrorView> {
    volume_in_text(text::decoded(stdout))
}

/// The volume in a text is its second word.
pub open spec fn volume_in_text(text: Seq<char>) -> Result<Seq<char>, ErrorView> {
    let printed = text::trimmed(text);
    if text::words(printed).len() > 1 {
        Ok(text::words(printed)[1])
    } else {
        Err(ErrorView::ParsingVolume(printed))
    }
}

/// A volume as `wpctl set-volume` takes it. It may be written alone or, as `wpctl get-volume`
/// prints it, behind a word.
pub open spec fn volume_argument(volume: Seq<char>) -> Seq<char> {
    if text::words(volume).len() > 1 {
        text::words(volume)[1]
    } else {
        volume
    }
}

/// The command that prints the volume.
pub open spec fn get_volume_command() -> CommandView {
    CommandView { program: "wpctl"@, args: seq!["get-volume"@, "@DEFAULT_AUDIO_SINK@"@] }
}

/// The command that sets the volume.
pub open spec fn set_volume_command(volume: Seq<char>) -> CommandView {
    CommandView {
        program: "wpctl"@,
        args: seq!["set-volume"@, "@DEFAULT_AUDIO_SINK@"@, volume_argument(volume)],
    }
}

/// Reads the volume off what `wpctl get-volume` printed.
pub fn parse_volume(stdout: &[u8]) -> (volume: Result<String, MidiStartPrgError>)
    ensures
        match volume {
            Ok(v) => volume_in(stdout@) == Ok::<Seq<char>, ErrorView>(v@),
            Err(e) => volume_in(stdout@) == Err::<Seq<char>, ErrorView>(e@),
        },
{
    parse_volume_text(text::from_utf8_lossy(stdout).as_str())
}

/// Reads the volume off a text.
pub fn parse_volume_text(text: &str) -> (volume: Result<String, MidiStartPrgError>)
    ensures
        match volume {
            Ok(v) => volume_in_text(text@) == Ok::<Seq<char>, ErrorView>(v@),
            Err(e) => volume_in_text(text@) == Err::<Seq<char>, ErrorView>(e@),
        },
{
    let printed: String = text::trim(text);
    match text::second_word(printed.as_str()) {
        Some(volume) => Ok(volume),
        None => Err(MidiStartPrgError::ParsingVolume(printed)),
    }
}

fn get_volume_line() -> (line: CommandLine)
    ensures
        line@ == get_volume_command(),
{
    let line = CommandLine {
        program: "wpctl".to_string(),
        args: vec!["get-volume".to_string(), "@DEFAULT_AUDIO_SINK@".to_string()],
    };
    assert(line@.args =~= get_volume_command().args);
    line
}

fn set_volume_line(volume: &str) -> (line: CommandLine)
    ensures
        line@ == set_volume_command(volume@),
{
    let argument: String = match text::second_word(volume) {
        Some(word) => word,
        None => volume.to_string(),
    };
    let line = CommandLine {
        program: "wpctl".to_string(),
        args: vec!["set-volume".to_string(), "@DEFAULT_AUDIO_SINK@".to_string(), argument],
    };
    assert(line@.args =~= set_volume_command(volume@).args);
    line
}

/// Which volume is set, and the volumes that are not.
pub struct Volume {
    volume_path: Vec<u8>,
    standard_volume: Option<String>,
    swapped: bool,
}

/// The view of a [`Volume`].
pub struct VolumeView {
    /// The file that keeps the volume for playing.
    pub volume_path: Seq<u8>,
    /// The standard volume, once it has been given up for the other.
    pub standard_volume: Option<Seq<char>>,
    /// Whether the volume for playing is set.
    pub swapped: bool,
}

impl VolumeView {
    /// The standard volume is set, and none has been given up.
    pub open spec fn beginning(volume_path: Seq<u8>) -> VolumeView {
        VolumeView { volume_path, standard_volume: None, swapped: false }
    }
}

/// An optional text by its view.
pub open spec fn text_view(text: Option<String>) -> Option<Seq<char>> {
    match text {
        Some(t) => Some(t@),
        None => None,
    }
}

impl View for Volume {
    type V = VolumeView;

    closed spec fn view(&self) -> VolumeView {
        VolumeView {
            volume_path: self.volume_path@,
            standard_volume: text_view(self.standard_volume),
            swapped: self.swapped,
        }
    }
}

impl World<VolumeView> {
    /// Asks for the volume that is set.
    pub open spec fn get_from_pipewire(self) -> Run<VolumeView, Result<Seq<char>, ErrorView>> {
        let w = self.ask(AskView::Capture(get_volume_command()));
        match w.reply() {
            None => Run::Waiting(w),
            Some(ReplyView::Output { stdout, .. }) => Run::Returned(w.taken(), volume_in(stdout)),
            Some(ReplyView::Failed(t)) => Run::Returned(w.taken(), Err(ErrorView::IoError(t))),
            Some(_) => Run::Stuck,
        }
    }

    /// Sets the volume.
    pub open spec fn set_with_pipewire(self, volume: Seq<char>) -> Run<
        VolumeView,
        Result<(), ErrorView>,
    > {
        let w = self.ask(AskView::Run(set_volume_command(volume)));
        match w.reply() {
            None => Run::Waiting(w),
            Some(ReplyView::Status(status)) => Run::Returned(w.taken(), status.exit_ok()),
            Some(ReplyView::Failed(t)) => Run::Returned(w.taken(), Err(ErrorView::IoError(t))),
            Some(_) => Run::Stuck,
        }
    }

    /// Sets the volume for playing (`swapped`) or the standard one, unless that one is set.
    pub open spec fn set_swapped(self, swapped: bool) -> Run<VolumeView, Result<(), ErrorView>> {
        if self.state.swapped == swapped {
            Run::Returned(self, Ok(()))
        } else {
            let w = self.with(VolumeView { swapped, ..self.state });
            if swapped {
                w.swap_in()
            } else {
                w.swap_back()
            }
        }
    }

    /// From the standard volume to the one for playing: first learns the standard one.
    pub open spec fn swap_in(self) -> Run<VolumeView, Result<(), ErrorView>> {
        match self.get_from_pipewire() {
            Run::Returned(w, Ok(standard)) => w.read_playing_volume(standard),
            Run::Returned(w, Err(e)) => Run::Returned(w, Err(e)),
            Run::Waiting(w) => Run::Waiting(w),
            Run::Stuck => Run::Stuck,
        }
    }

    /// Then fetches the one for playing from its file.
    pub open spec fn read_playing_volume(self, standard: Seq<char>) -> Run<
        VolumeView,
        Result<(), ErrorView>,
    > {
        let w = self.ask(AskView::ReadFile(self.state.volume_path));
        match w.reply() {
            None => Run::Waiting(w),
            Some(ReplyView::Text(playing)) => w.taken().set_playing_volume(standard, playing),
            Some(ReplyView::Failed(t)) => Run::Returned(w.taken(), Err(ErrorView::IoError(t))),
            Some(_) => Run::Stuck,
        }
    }

    /// Then sets it, and only then remembers the standard one.
    pub open spec fn set_playing_volume(self, standard: Seq<char>, playing: Seq<char>) -> Run<
        VolumeView,
        Result<(), ErrorView>,
    > {
        match self.set_with_pipewire(playing) {
            Run::Returned(w, Ok(_)) => Run::Returned(
                w.with(VolumeView { standard_volume: Some(standard), ..w.state }),
                Ok(()),
            ),
            other => other,
        }
    }

    /// From the volume for playing to the standard one: first learns the one for playing.
    pub open spec fn swap_back(self) -> Run<VolumeView, Result<(), ErrorView>> {
        match self.get_from_pipewire() {
            Run::Returned(w, Ok(playing)) => w.save_playing_volume(playing),
            Run::Returned(w, Err(e)) => Run::Returned(w, Err(e)),
            Run::Waiting(w) => Run::Waiting(w),
            Run::Stuck => Run::Stuck,
        }
    }

    /// Then keeps it in its file, and sets the standard one. Where none is remembered, because
    /// it was never given up, there is none to set.
    pub open spec fn save_playing_volume(self, playing: Seq<char>) -> Run<
        VolumeView,
        Result<(), ErrorView>,
    > {
        let w = self.ask(AskView::WriteFile(self.state.volume_path, playing));
        match w.reply() {
            None => Run::Waiting(w),
            Some(ReplyView::Done) => match self.state.standard_volume {
                Some(standard) => w.taken().set_with_pipewire(standard),
                None => Run::Returned(w.taken(), Ok(())),
            },
            Some(ReplyView::Failed(t)) => Run::Returned(w.taken(), Err(ErrorView::IoError(t))),
            Some(_) => Run::Stuck,
        }
    }
}

/// Where [`Volume::set_swapped`] waits for a reply.
pub enum VolumeStep {
    /// For the standard volume.
    Standard,
    /// For the volume for playing in its file.
    Playing { standard: String },
    /// For the volume for playing to be set.
    SetPlaying { standard: String, playing: Ghost<Seq<char>> },
    /// For the volume for playing that is set.
    Current,
    /// For that volume to be in its file.
    Save { playing: Ghost<Seq<char>> },
    /// For the standard volume to be set.
    SetStandard,
}

impl VolumeStep {
    /// What is left to do, from what the step waits for on.
    pub open spec fn rest(self, w: World<VolumeView>) -> Run<VolumeView, Result<(), ErrorView>> {
        match self {
            VolumeStep::Standard => w.swap_in(),
            VolumeStep::Playing { standard } => w.read_playing_volume(standard@),
            VolumeStep::SetPlaying { standard, playing } => w.set_playing_volume(
                standard@,
                playing@,
            ),
            VolumeStep::Current => w.swap_back(),
            VolumeStep::Save { playing } => w.save_playing_volume(playing@),
            VolumeStep::SetStandard => match w.state.standard_volume {
                Some(standard) => w.set_with_pipewire(standard),
                None => Run::Stuck,
            },
        }
    }

    /// What the step waits for.
    pub open spec fn pending(self, state: VolumeView) -> AskView {
        match self {
            VolumeStep::Standard => AskView::Capture(get_volume_command()),
            VolumeStep::Playing { .. } => AskView::ReadFile(state.volume_path),
            VolumeStep::SetPlaying { playing, .. } => AskView::Run(set_volume_command(playing@)),
            VolumeStep::Current => AskView::Capture(get_volume_command()),
            VolumeStep::Save { playing } => AskView::WriteFile(state.volume_path, playing@),
            VolumeStep::SetStandard => AskView::Run(set_volume_command(state.standard_volume->0)),
        }
    }

    /// The step belongs to the state.
    pub open spec fn wf(self, state: VolumeView) -> bool {
        self is SetStandard ==> state.standard_volume is Some
    }

    /// The reply is an answer that the step can go on from.
    pub open spec fn accepts(self, state: VolumeView, reply: ReplyView) -> bool {
        !(self.rest(World { state, asked: seq![], replies: seq![reply] }) is Stuck)
    }

    /// Whether a reply is accepted has nothing to do with what was asked for before, and a
    /// step that accepts one takes it.
    pub(crate) proof fn lemma_accepts(self, w: World<VolumeView>, reply: ReplyView)
        requires
            w.replies == seq![reply],
        ensures
            self.rest(w) is Stuck <==> !self.accepts(w.state, reply),
            self.rest(w) matches Run::Returned(v, _) ==> v.replies.len() == 0,
    {
        assert(w.replies.skip(1) =~= seq![]);
    }

    /// A step accepts every reply that answers what it waits for, and no other.
    pub proof fn lemma_accepts_what_fits(self, state: VolumeView, reply: ReplyView)
        requires
            self.wf(state),
        ensures
            self.accepts(state, reply) <==> fits(self.pending(state), reply),
    {
    }
}

/// What [`Volume::set_swapped`] does next: it asks and waits, or it has returned.
pub enum VolumeTurn {
    Asks(VolumeStep, Ask),
    Returns(Result<(), MidiStartPrgError>),
}

impl VolumeTurn {
    /// What is left to do.
    pub open spec fn rest(self, w: World<VolumeView>) -> Run<VolumeView, Result<(), ErrorView>> {
        match self {
            VolumeTurn::Asks(step, _) => step.rest(w),
            VolumeTurn::Returns(result) => Run::Returned(w, viewed(result)),
        }
    }

    /// What is asked for is what the step waits for.
    pub open spec fn wf(self, state: VolumeView) -> bool {
        self matches VolumeTurn::Asks(step, ask) ==> step.wf(state) && ask@ == step.pending(state)
    }
}

impl Volume {
    /// The standard volume is set, and the other one is kept in the file at `volume_path`.
    pub fn new(volume_path: Vec<u8>) -> (volume: Volume)
        ensures
            volume@ == (VolumeView {
                volume_path: volume_path@,
                standard_volume: None,
                swapped: false,
            }),
            volume@ == VolumeView::beginning(volume_path@),
    {
        Volume { volume_path, standard_volume: None, swapped: false }
    }

    /// Begins to set the volume for playing (`swapped`) or the standard one.
    pub fn set_swapped(&mut self, swapped: bool) -> (turn: VolumeTurn)
        ensures
            turn.wf(final(self)@),
            forall|asked: Seq<AskView>, replies: Seq<ReplyView>| #[trigger]
                turn.rest(World { state: final(self)@, asked, replies }) == (World {
                    state: old(self)@,
                    asked,
                    replies,
                }).set_swapped(swapped),
    {
        if self.swapped == swapped {
            return VolumeTurn::Returns(Ok(()));
        }
        self.swapped = swapped;
        if swapped {
            VolumeTurn::Asks(VolumeStep::Standard, Ask::Capture(get_volume_line()))
        } else {
            VolumeTurn::Asks(VolumeStep::Current, Ask::Capture(get_volume_line()))
        }
    }

    /// Says whether the reply is an answer that [`Volume::resume`] can go on from.
    pub fn accepts(&self, step: &VolumeStep, reply: &Reply) -> (answer: bool)
        requires
            step.wf(self@),
        ensures
            answer == step.accepts(self@, reply@),
    {
        match (step, reply) {
            (_, Reply::Failed(_)) => true,
            (VolumeStep::Standard, Reply::Output { .. }) => true,
            (VolumeStep::Playing { .. }, Reply::Text(_)) => true,
            (VolumeStep::SetPlaying { .. }, Reply::Status(_)) => true,
            (VolumeStep::Current, Reply::Output { .. }) => true,
            (VolumeStep::Save { .. }, Reply::Done) => true,
            (VolumeStep::SetStandard, Reply::Status(_)) => true,
            _ => false,
        }
    }

    /// Goes on with the reply to what was asked for last.
    pub fn resume(&mut self, step: VolumeStep, reply: Reply) -> (turn: VolumeTurn)
        requires
            step.wf(old(self)@),
            step.accepts(old(self)@, reply@),
        ensures
            turn.wf(final(self)@),
            forall|asked: Seq<AskView>, replies: Seq<ReplyView>|
                #![trigger step.rest(
                    World { state: old(self)@, asked, replies: followed(reply@, replies) },
                )]
                turn.rest(
                    World {
                        state: final(self)@,
                        asked: asked.push(step.pending(old(self)@)),
                        replies,
                    },
                ) == step.rest(
                    World { state: old(self)@, asked, replies: followed(reply@, replies) },
                ),
    {
        broadcast use lemma_followed;

        match (step, reply) {
            (_, Reply::Failed(t)) => VolumeTurn::Returns(Err(MidiStartPrgError::IoError(t))),
            (VolumeStep::Standard, Reply::Output { stdout, .. }) => match parse_volume(
                stdout.as_slice(),
            ) {
                Ok(standard) => VolumeTurn::Asks(
                    VolumeStep::Playing { standard },
                    Ask::ReadFile(self.volume_path.clone()),
                ),
                Err(e) => VolumeTurn::Returns(Err(e)),
            },
            (VolumeStep::Playing { standard }, Reply::Text(playing)) => VolumeTurn::Asks(
                VolumeStep::SetPlaying { standard, playing: Ghost(playing@) },
                Ask::Run(set_volume_line(playing.as_str())),
            ),
            (VolumeStep::SetPlaying { standard, .. }, Reply::Status(status)) => {
                let result = status.exit_ok();
                if result.is_ok() {
                    self.standard_volume = Some(standard);
                }
                VolumeTurn::Returns(result)
            },
            (VolumeStep::Current, Reply::Output { stdout, .. }) => match parse_volume(
                stdout.as_slice(),
            ) {
                Ok(playing) => VolumeTurn::Asks(
                    VolumeStep::Save { playing: Ghost(playing@) },
                    Ask::WriteFile(self.volume_path.clone(), playing),
                ),
                Err(e) => VolumeTurn::Returns(Err(e)),
            },
            (VolumeStep::Save { .. }, _) => match &self.standard_volume {
                Some(standard) => VolumeTurn::Asks(
                    VolumeStep::SetStandard,
                    Ask::Run(set_volume_line(standard.as_str())),
                ),
                None => VolumeTurn::Returns(Ok(())),
            },
            (VolumeStep::SetStandard, Reply::Status(status)) => VolumeTurn::Returns(
                status.exit_ok(),
            ),
            _ => VolumeTurn::Returns(Ok(())),
        }
    }
}

} // verus!
