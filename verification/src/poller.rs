//! The per-tick pipeline: what one fetch outcome does to the session.
//!
//! The host runs the clock and the network; on every tick it hands the
//! outcome of the latest-reading fetch to [`Session::tick`], which
//! appends to the window, classifies, and drives the alarm machine, in
//! that order. A failed or unparsable fetch leaves the window untouched
//! and classifies a zero sentinel, so the pipeline never stalls.
//!
//! Overlapping fetches are the host's affair: ticks are handed in
//! whatever order their fetches resolve, so on the current value the
//! last writer wins, and a reading that resolves late is appended
//! late. A torn-down session simply stops handing outcomes in.

use vstd::prelude::*;

use crate::alarm::AlarmState;
use crate::alarm::AudioCommand;
use crate::alarm::alarm_step;
use crate::alarm::spec_audio_command;
use crate::alarm::spec_transition;
use crate::classify::QualityBand;
use crate::classify::classify;
use crate::classify::spec_classify;
use crate::history::HistoryWindow;
use crate::history::bounded;
use crate::history::spec_append;
use crate::history::spec_hydrate;
use crate::history::window_wf;
use crate::reading::Reading;

verus! {

/// What the latest-reading fetch produced on one tick. A transport
/// failure and an unparsable body both count as `Failed`.
#[derive(Clone, Copy, Debug, PartialEq, Eq, Structural)]
pub enum FetchOutcome {
    Arrived(Reading),
    Failed,
}

/// The state a dashboard session owns: the history window and the
/// alarm state. Mutated only through [`Session::tick`].
pub struct Session {
    pub window: HistoryWindow,
    pub alarm: AlarmState,
}

/// Everything one tick decides: the current reading (absent on a
/// failed fetch), its classification, and the audio command.
pub struct TickOutput {
    pub current: Option<Reading>,
    pub band: QualityBand,
    pub audio: AudioCommand,
}

/// The band a tick classifies: the arrived value, or the zero
/// offline sentinel when the fetch failed.
pub open spec fn spec_tick_band(outcome: FetchOutcome) -> QualityBand {
    match outcome {
        FetchOutcome::Arrived(r) => spec_classify(r.value_mppm as int),
        FetchOutcome::Failed => QualityBand::Disconnected,
    }
}

/// The window contents after a tick: one append on an arrival,
/// untouched on a failure.
pub open spec fn spec_tick_window(w: Seq<Reading>, outcome: FetchOutcome) -> Seq<Reading> {
    match outcome {
        FetchOutcome::Arrived(r) => spec_append(w, r),
        FetchOutcome::Failed => w,
    }
}

impl Session {
    /// The session invariant: the window is well-formed.
    pub open spec fn wf(self) -> bool {
        window_wf(self.window@)
    }

    /// Start a session from the outcome of the one bulk-history fetch:
    /// hydrate the window from the returned readings, or start empty
    /// when the fetch failed. The alarm starts `Safe`.
    pub fn start(bulk: Option<Vec<Reading>>) -> (s: Session)
        ensures
            s.alarm == AlarmState::Safe,
            bulk matches Some(readings) ==> s.window@ == spec_hydrate(readings@),
            bulk is None ==> s.window@ == Seq::<Reading>::empty(),
            s.wf(),
    {
        let window = match bulk {
            Some(readings) => HistoryWindow::hydrate(&readings),
            None => HistoryWindow::new(),
        };
        Session { window, alarm: AlarmState::Safe }
    }

    /// Run one tick: append the arrived reading (deduplicating against
    /// the tail), classify the current value, and step the alarm. On a
    /// failed fetch the window is untouched, the current value is
    /// absent, and the zero sentinel classifies as `Disconnected`.
    pub fn tick(&mut self, outcome: FetchOutcome) -> (out: TickOutput)
        requires
            bounded(old(self).window@),
        ensures
            out.band == spec_tick_band(outcome),
            outcome matches FetchOutcome::Arrived(r) ==> out.current == Some(r),
            outcome is Failed ==> out.current is None,
            final(self).window@ == spec_tick_window(old(self).window@, outcome),
            final(self).alarm == spec_transition(out.band),
            out.audio == spec_audio_command(old(self).alarm, out.band),
            bounded(final(self).window@),
            old(self).wf() && match outcome {
                FetchOutcome::Arrived(r) => old(self).window@.len() == 0 || old(
                    self,
                ).window@.last().timestamp <= r.timestamp,
                FetchOutcome::Failed => true,
            } ==> final(self).wf(),
    {
        let (current, band) = match outcome {
            FetchOutcome::Arrived(r) => {
                let w = self.window.append(r);
                self.window = w;
                (Some(r), classify(r.value_mppm))
            },
            FetchOutcome::Failed => (None, classify(0)),
        };
        let (alarm, audio) = alarm_step(self.alarm, band);
        self.alarm = alarm;
        TickOutput { current, band, audio }
    }
}

} // verus!
