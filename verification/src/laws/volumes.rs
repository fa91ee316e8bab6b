//! Neither of the two volumes is lost.

use vstd::prelude::*;

use crate::error::ErrorView;
use crate::protocol::{AskView, CommandView, ReplyView, Run, World};
use crate::text;
use crate::volume::{self, VolumeView};

verus! {

/// To set the volume that is set asks for nothing and changes nothing. So it makes no
/// difference whether a volume is set once or twice.
pub proof fn setting_the_same_volume_does_nothing(w: World<VolumeView>, swapped: bool)
    ensures
        w.state.swapped == swapped ==> w.set_swapped(swapped) == Run::Returned(
            w,
            Ok::<(), ErrorView>(()),
        ),
        w.set_swapped(swapped) matches Run::Returned(v, _) ==> v.set_swapped(swapped)
            == Run::Returned(v, Ok::<(), ErrorView>(())),
{
}

/// Whether it succeeds or fails, the volume that was asked for counts as set, and the file
/// stays the same one.
pub proof fn the_volume_asked_for_counts_as_set(w: World<VolumeView>, swapped: bool)
    ensures
        w.set_swapped(swapped) matches Run::Returned(v, _) ==> v.state.swapped == swapped
            && v.state.volume_path == w.state.volume_path,
{
}

/// The command that sets the volume to exactly this.
pub open spec fn set_exactly(volume: Seq<char>) -> CommandView {
    CommandView { program: "wpctl"@, args: seq!["set-volume"@, "@DEFAULT_AUDIO_SINK@"@, volume] }
}

/// The volume that the next reply tells of.
pub open spec fn volume_told(w: World<VolumeView>) -> Seq<char> {
    volume::volume_in(w.replies[0]->Output_stdout)->Ok_0
}

/// The standard volume that was set before playing is the one that is set after it, and the
/// volume that was set while playing is what is kept for the next time.
pub proof fn the_standard_volume_comes_back(
    before: World<VolumeView>,
    playing: World<VolumeView>,
    ending: World<VolumeView>,
    after: World<VolumeView>,
)
    requires
        !before.state.swapped,
        before.set_swapped(true) == Run::Returned(playing, Ok::<(), ErrorView>(())),
        ending.state == playing.state,
        ending.set_swapped(false) == Run::Returned(after, Ok::<(), ErrorView>(())),
    ensures
        after.asked == ending.asked + seq![
            AskView::Capture(volume::get_volume_command()),
            AskView::WriteFile(before.state.volume_path, volume_told(ending)),
            AskView::Run(set_exactly(volume_told(before))),
        ],
{
    text::lemma_word_is_one_word(
        text::trimmed(text::decoded(before.replies[0]->Output_stdout)),
        1,
    );
}

/// The volume that was kept is the one that is set for playing the next time, where the file
/// has not been touched in between. The program may have been started anew since.
pub proof fn the_playing_volume_comes_back(
    ending: World<VolumeView>,
    after: World<VolumeView>,
    again: World<VolumeView>,
    playing: World<VolumeView>,
)
    requires
        ending.state.swapped,
        ending.set_swapped(false) == Run::Returned(after, Ok::<(), ErrorView>(())),
        !again.state.swapped,
        again.state.volume_path == ending.state.volume_path,
        again.set_swapped(true) == Run::Returned(playing, Ok::<(), ErrorView>(())),
        again.replies[1] == ReplyView::Text(volume_told(ending)),
    ensures
        playing.asked == again.asked + seq![
            AskView::Capture(volume::get_volume_command()),
            AskView::ReadFile(ending.state.volume_path),
            AskView::Run(set_exactly(volume_told(ending))),
        ],
        playing.state.standard_volume == Some(volume_told(again)),
{
    text::lemma_word_is_one_word(
        text::trimmed(text::decoded(ending.replies[0]->Output_stdout)),
        1,
    );
}

/// The volume can be swapped back whatever became of the swap before: nothing but a reply of
/// the wrong kind keeps it from going on.
pub proof fn the_volume_can_be_swapped_back(w: World<VolumeView>)
    requires
        w.set_swapped(false) is Stuck,
    ensures
        ({
            ||| w.replies.len() > 0 && !(w.replies[0] is Output) && !(w.replies[0] is Failed)
            ||| w.replies.len() > 1 && !(w.replies[1] is Done) && !(w.replies[1] is Failed)
            ||| w.replies.len() > 2 && !(w.replies[2] is Status) && !(w.replies[2] is Failed)
        }),
{
}

/// Nor does anything but such a reply keep the volume for playing from being set.
pub proof fn the_volume_can_be_swapped(w: World<VolumeView>)
    requires
        w.set_swapped(true) is Stuck,
    ensures
        ({
            ||| w.replies.len() > 0 && !(w.replies[0] is Output) && !(w.replies[0] is Failed)
            ||| w.replies.len() > 1 && !(w.replies[1] is Text) && !(w.replies[1] is Failed)
            ||| w.replies.len() > 2 && !(w.replies[2] is Status) && !(w.replies[2] is Failed)
        }),
{
}

/// The standard volume that is remembered changes only where the volume for playing has been
/// set in its place.
pub proof fn only_a_swap_changes_the_standard_volume(w: World<VolumeView>, swapped: bool)
    ensures
        w.set_swapped(swapped) matches Run::Returned(v, result) ==> {
            &&& v.state.standard_volume != w.state.standard_volume ==> swapped
                && !w.state.swapped && result is Ok
            &&& swapped && !w.state.swapped && result is Ok ==> v.state.standard_volume == Some(
                volume_told(w),
            )
        },
{
}

/// Where a first swap fails, no standard volume was given up, and to swap back only keeps the
/// volume that is set.
pub proof fn a_failed_first_swap_can_be_undone(
    before: World<VolumeView>,
    failed: World<VolumeView>,
    e: ErrorView,
    ending: World<VolumeView>,
    after: World<VolumeView>,
)
    requires
        !before.state.swapped,
        before.state.standard_volume is None,
        before.set_swapped(true) == Run::Returned(failed, Err::<(), ErrorView>(e)),
        ending.state == failed.state,
        ending.set_swapped(false) == Run::Returned(after, Ok::<(), ErrorView>(())),
    ensures
        after.state == before.state,
        after.asked == ending.asked + seq![
            AskView::Capture(volume::get_volume_command()),
            AskView::WriteFile(before.state.volume_path, volume_told(ending)),
        ],
{
}

} // verus!
