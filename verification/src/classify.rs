//! Quality classification of a reading value into a band.
//!
//! The bands are half-open ranges over the measured concentration,
//! evaluated low to high, with two sentinels: an exact zero means the
//! sensor is offline, and a negative value is malformed.

use vstd::prelude::*;

verus! {

/// Lower bound of the `Good` band, in milli-ppm.
pub const GOOD_MIN_MPPM: i64 = 300_000;
/// Lower bound of the `Acceptable` band, in milli-ppm.
pub const ACCEPTABLE_MIN_MPPM: i64 = 600_000;
/// Lower bound of the `Poor` band, in milli-ppm.
pub const POOR_MIN_MPPM: i64 = 900_000;
/// Lower bound of the `Unacceptable` band, in milli-ppm.
pub const UNACCEPTABLE_MIN_MPPM: i64 = 1_200_000;

/// The quality band of a reading, derived purely from its value.
#[derive(Clone, Copy, Debug, PartialEq, Eq, Structural)]
pub enum QualityBand {
    /// Sensor offline sentinel: the value is exactly zero.
    Disconnected,
    /// Strictly between zero and 300 ppm.
    Excellent,
    /// In [300 ppm, 600 ppm).
    Good,
    /// In [600 ppm, 900 ppm).
    Acceptable,
    /// In [900 ppm, 1200 ppm).
    Poor,
    /// At or above 1200 ppm: the only band that raises the alarm.
    Unacceptable,
    /// Malformed: a negative value.
    Invalid,
}

/// The band that a value in milli-ppm falls in.
pub open spec fn spec_classify(v: int) -> QualityBand {
    if v < 0 {
        QualityBand::Invalid
    } else if v == 0 {
        QualityBand::Disconnected
    } else if v < GOOD_MIN_MPPM {
        QualityBand::Excellent
    } else if v < ACCEPTABLE_MIN_MPPM {
        QualityBand::Good
    } else if v < POOR_MIN_MPPM {
        QualityBand::Acceptable
    } else if v < UNACCEPTABLE_MIN_MPPM {
        QualityBand::Poor
    } else {
        QualityBand::Unacceptable
    }
}

/// Classify a value in milli-ppm into its quality band.
pub fn classify(value_mppm: i64) -> (band: QualityBand)
    ensures
        band == spec_classify(value_mppm as int),
{
    if value_mppm < 0 {
        QualityBand::Invalid
    } else if value_mppm == 0 {
        QualityBand::Disconnected
    } else if value_mppm < GOOD_MIN_MPPM {
        QualityBand::Excellent
    } else if value_mppm < ACCEPTABLE_MIN_MPPM {
        QualityBand::Good
    } else if value_mppm < POOR_MIN_MPPM {
        QualityBand::Acceptable
    } else if value_mppm < UNACCEPTABLE_MIN_MPPM {
        QualityBand::Poor
    } else {
        QualityBand::Unacceptable
    }
}

/// One row of a data-driven classification table: the band starting at
/// `lower_mppm`, with its display label and color.
pub struct BandSpec {
    pub lower_mppm: i64,
    pub label: String,
    pub color: String,
}

/// A data-driven classification scheme: bands ordered by strictly
/// increasing lower bound, each owning the values from its bound up to
/// the next band's. Values below the first bound fall in no band, so a
/// scheme without sentinels can leave them unclassified.
pub struct BandTable {
    pub bands: Vec<BandSpec>,
}

impl BandTable {
    /// The lower bounds strictly increase.
    pub open spec fn wf(self) -> bool {
        forall|i: int|
            0 <= i < self.bands@.len() - 1 ==> #[trigger] self.bands@[i].lower_mppm < self.bands@[
                i + 1
            ].lower_mppm
    }

    /// An empty table.
    pub fn new() -> (t: BandTable)
        ensures
            t.bands@.len() == 0,
            t.wf(),
    {
        BandTable { bands: Vec::new() }
    }

    /// Add a band above every existing one.
    pub fn push_band(&mut self, lower_mppm: i64, label: String, color: String)
        requires
            old(self).wf(),
            old(self).bands@.len() > 0 ==> old(self).bands@.last().lower_mppm < lower_mppm,
        ensures
            final(self).wf(),
            final(self).bands@.len() == old(self).bands@.len() + 1,
            final(self).bands@.last().lower_mppm == lower_mppm,
            final(self).bands@.last().label@ == label@,
            final(self).bands@.last().color@ == color@,
            final(self).bands@.drop_last() == old(self).bands@,
    {
        let ghost before = self.bands@;
        self.bands.push(BandSpec { lower_mppm, label, color });
        proof {
            assert(self.bands@.drop_last() =~= before);
            assert forall|i: int| 0 <= i < self.bands@.len() - 1 implies #[trigger] self.bands@[
                i
            ].lower_mppm < self.bands@[i + 1].lower_mppm by {
                if i < before.len() - 1 {
                    assert(self.bands@[i] == before[i]);
                    assert(self.bands@[i + 1] == before[i + 1]);
                } else {
                    assert(self.bands@[i] == before.last());
                }
            }
        }
    }

    /// The band a value falls in: the highest band whose lower bound is
    /// at or below the value; none when the value lies below every
    /// band.
    pub fn lookup(&self, value_mppm: i64) -> (r: Option<usize>)
        requires
            self.wf(),
        ensures
            r matches Some(i) ==> i < self.bands@.len() && self.bands@[i as int].lower_mppm
                <= value_mppm && (i + 1 < self.bands@.len() ==> value_mppm < self.bands@[
                i as int + 1
            ].lower_mppm),
            r is None <==> (self.bands@.len() == 0 || value_mppm < self.bands@[0].lower_mppm),
    {
        let n = self.bands.len();
        let mut i: usize = n;
        while i > 0
            invariant
                self.wf(),
                0 <= i <= n,
                n == self.bands@.len(),
                forall|k: int| i <= k < n ==> value_mppm < #[trigger] self.bands@[k].lower_mppm,
            decreases i,
        {
            if self.bands[i - 1].lower_mppm <= value_mppm {
                proof {
                    lemma_band_bounds_monotone(*self, 0, i as int - 1);
                }
                return Some(i - 1);
            }
            i -= 1;
        }
        None
    }
}

/// In a well-formed table the lower bounds grow with the index.
proof fn lemma_band_bounds_monotone(t: BandTable, a: int, b: int)
    requires
        t.wf(),
        0 <= a <= b < t.bands@.len(),
    ensures
        t.bands@[a].lower_mppm <= t.bands@[b].lower_mppm,
    decreases b - a,
{
    if a < b {
        lemma_band_bounds_monotone(t, a, b - 1);
        assert(t.bands@[b - 1].lower_mppm < t.bands@[b - 1 + 1].lower_mppm);
    }
}

/// The display label of a band.
pub open spec fn spec_label(band: QualityBand) -> Seq<char> {
    match band {
        QualityBand::Disconnected => "Desconectado"@,
        QualityBand::Excellent => "Excelente"@,
        QualityBand::Good => "Bom"@,
        QualityBand::Acceptable => "Aceitavel"@,
        QualityBand::Poor => "Ruim"@,
        QualityBand::Unacceptable => "Inaceitavel"@,
        QualityBand::Invalid => "Invalido"@,
    }
}

/// The display color of a band, as a hex triplet.
pub open spec fn spec_color(band: QualityBand) -> Seq<char> {
    match band {
        QualityBand::Disconnected => "#000000"@,
        QualityBand::Excellent => "#4CAF50"@,
        QualityBand::Good => "#8BC34A"@,
        QualityBand::Acceptable => "#FFC107"@,
        QualityBand::Poor => "#FF9800"@,
        QualityBand::Unacceptable => "#FF9800"@,
        QualityBand::Invalid => "#000000"@,
    }
}

/// The display label of a band.
pub fn label(band: QualityBand) -> (r: &'static str)
    ensures
        r@ == spec_label(band),
{
    match band {
        QualityBand::Disconnected => "Desconectado",
        QualityBand::Excellent => "Excelente",
        QualityBand::Good => "Bom",
        QualityBand::Acceptable => "Aceitavel",
        QualityBand::Poor => "Ruim",
        QualityBand::Unacceptable => "Inaceitavel",
        QualityBand::Invalid => "Invalido",
    }
}

/// The display color of a band.
pub fn color(band: QualityBand) -> (r: &'static str)
    ensures
        r@ == spec_color(band),
{
    match band {
        QualityBand::Disconnected => "#000000",
        QualityBand::Excellent => "#4CAF50",
        QualityBand::Good => "#8BC34A",
        QualityBand::Acceptable => "#FFC107",
        QualityBand::Poor => "#FF9800",
        QualityBand::Unacceptable => "#FF9800",
        QualityBand::Invalid => "#000000",
    }
}

} // verus!
