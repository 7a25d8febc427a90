//! Decisions of the front end that drives the machine.
use vstd::prelude::*;

verus! {

/// Machine cycles run per display frame.
pub const CYCLES_PER_TICK: usize = 10;

/// What to do with the tone after a frame.
#[derive(Debug, Clone, Copy, PartialEq, Eq, Structural)]
pub enum SoundAction {
    /// Start playing the tone.
    Start,
    /// Stop the tone.
    Stop,
    /// Leave the tone as it is.
    Keep,
}

/// Whether the tone plays once `action` has been carried out.
pub open spec fn playing_after(action: SoundAction, is_playing: bool) -> bool {
    match action {
        SoundAction::Start => true,
        SoundAction::Stop => false,
        SoundAction::Keep => is_playing,
    }
}

/// Start the tone when it should play and does not, stop it when it plays
/// and should not, and otherwise leave it alone.
pub open spec fn spec_sound_action(should_play: bool, is_playing: bool) -> SoundAction {
    if should_play && !is_playing {
        SoundAction::Start
    } else if !should_play && is_playing {
        SoundAction::Stop
    } else {
        SoundAction::Keep
    }
}

/// What to do with the tone, given whether it should play and whether it plays.
pub fn sound_action(should_play: bool, is_playing: bool) -> (a: SoundAction)
    ensures
        a == spec_sound_action(should_play, is_playing),
{
    if should_play && !is_playing {
        SoundAction::Start
    } else if !should_play && is_playing {
        SoundAction::Stop
    } else {
        SoundAction::Keep
    }
}

/// After the chosen action the tone plays exactly when it should.
pub proof fn lemma_sound_follows_timer(should_play: bool, is_playing: bool)
    ensures
        playing_after(spec_sound_action(should_play, is_playing), is_playing) == should_play,
        should_play == is_playing ==> spec_sound_action(should_play, is_playing) == SoundAction::Keep,
{
}

} // verus!
