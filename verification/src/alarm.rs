//! The two-state alarm machine driven by the classifier.
//!
//! The state is `Unsafe` exactly while the latest classification is
//! `Unacceptable`. Entering `Unsafe` asks the audio actuator to play,
//! once per transition; every tick that ends `Safe` asks it to pause
//! and rewind. Remaining `Unsafe` asks for nothing, so the alarm sound
//! is not restarted on every tick.

use vstd::prelude::*;

use crate::classify::QualityBand;

verus! {

/// The alarm state of the session. `Safe` is the initial state.
#[derive(Clone, Copy, Debug, PartialEq, Eq, Structural)]
pub enum AlarmState {
    Safe,
    Unsafe,
}

/// What the audio actuator is asked to do on one tick.
#[derive(Clone, Copy, Debug, PartialEq, Eq, Structural)]
pub enum AudioCommand {
    /// Start playing the alarm sound.
    Play,
    /// Pause the sound and rewind it to the start.
    PauseAndRewind,
    /// Leave the sound alone.
    Leave,
}

/// The next alarm state for a classification: `Unsafe` exactly when the
/// band is `Unacceptable`, whatever the current state.
pub open spec fn spec_transition(band: QualityBand) -> AlarmState {
    if band == QualityBand::Unacceptable {
        AlarmState::Unsafe
    } else {
        AlarmState::Safe
    }
}

/// The audio command for one step: play only on the `Safe` to `Unsafe`
/// transition, pause-and-rewind whenever the step ends `Safe`, nothing
/// while remaining `Unsafe`.
pub open spec fn spec_audio_command(state: AlarmState, band: QualityBand) -> AudioCommand {
    if spec_transition(band) == AlarmState::Safe {
        AudioCommand::PauseAndRewind
    } else if state == AlarmState::Safe {
        AudioCommand::Play
    } else {
        AudioCommand::Leave
    }
}

/// Drive the alarm machine one step: the latest classification decides
/// the next state and the command for the audio actuator.
pub fn alarm_step(state: AlarmState, band: QualityBand) -> (r: (AlarmState, AudioCommand))
    ensures
        r.0 == spec_transition(band),
        r.1 == spec_audio_command(state, band),
{
    if matches!(band, QualityBand::Unacceptable) {
        match state {
            AlarmState::Safe => (AlarmState::Unsafe, AudioCommand::Play),
            AlarmState::Unsafe => (AlarmState::Unsafe, AudioCommand::Leave),
        }
    } else {
        (AlarmState::Safe, AudioCommand::PauseAndRewind)
    }
}

/// The alarm laws: the next state is `Unsafe` exactly when the latest
/// classification is `Unacceptable`; play is commanded exactly on the
/// transition into `Unsafe`, not while remaining there; and
/// pause-and-rewind is commanded exactly when the step ends `Safe`.
pub proof fn lemma_alarm_laws(state: AlarmState, band: QualityBand)
    ensures
        spec_transition(band) == AlarmState::Unsafe <==> band == QualityBand::Unacceptable,
        spec_audio_command(state, band) == AudioCommand::Play <==> (state == AlarmState::Safe
            && band == QualityBand::Unacceptable),
        spec_audio_command(state, band) == AudioCommand::PauseAndRewind <==> band
            != QualityBand::Unacceptable,
        spec_audio_command(state, band) == AudioCommand::Leave <==> (state == AlarmState::Unsafe
            && band == QualityBand::Unacceptable),
{
}

} // verus!
