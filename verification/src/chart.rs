//! Projection of the history window into a renderer-neutral series:
//! one `HH:MM:SS` label per reading, paired with its value, plus the
//! fixed axis and dataset options, and the create-or-update decision
//! against an explicit registry of live chart surfaces.

use vstd::prelude::*;
use vstd::string::StringExecFns;

use crate::history::HistoryWindow;
use crate::reading::Reading;

verus! {

/// Seconds in one day.
pub const SECONDS_PER_DAY: i64 = 86_400;

/// The decimal digit character for `d` in 0 to 9.
pub open spec fn spec_digit_char(d: int) -> char {
    if d == 0 {
        '0'
    } else if d == 1 {
        '1'
    } else if d == 2 {
        '2'
    } else if d == 3 {
        '3'
    } else if d == 4 {
        '4'
    } else if d == 5 {
        '5'
    } else if d == 6 {
        '6'
    } else if d == 7 {
        '7'
    } else if d == 8 {
        '8'
    } else {
        '9'
    }
}

/// The instant shifted into local time, saturated at the ends of the
/// machine integer range (unreachable for any real clock reading).
pub open spec fn spec_local_instant(ts: int, offset: int) -> int {
    if ts + offset > i64::MAX {
        i64::MAX as int
    } else if ts + offset < i64::MIN {
        i64::MIN as int
    } else {
        ts + offset
    }
}

/// The second of the local day for an instant, in 0 to 86399.
pub open spec fn spec_second_of_day(ts: int, offset: int) -> int {
    let local = spec_local_instant(ts, offset);
    if local >= 0 {
        local % (SECONDS_PER_DAY as int)
    } else {
        SECONDS_PER_DAY - 1 - ((-(local + 1)) % (SECONDS_PER_DAY as int))
    }
}

/// The `HH:MM:SS` label of an instant in the local day.
pub open spec fn spec_time_label(ts: int, offset: int) -> Seq<char> {
    let sod = spec_second_of_day(ts, offset);
    let h = sod / 3600;
    let m = (sod / 60) % 60;
    let s = sod % 60;
    seq![
        spec_digit_char(h / 10),
        spec_digit_char(h % 10),
        ':',
        spec_digit_char(m / 10),
        spec_digit_char(m % 10),
        ':',
        spec_digit_char(s / 10),
        spec_digit_char(s % 10),
    ]
}

/// Relies on chrono: `TimeZone::timestamp_opt` on `Local` resolves the
/// instant in the machine's time zone (the earliest interpretation when
/// a daylight-saving fold makes it ambiguous), and
/// `FixedOffset::local_minus_utc` is the zone's offset in seconds east
/// of UTC, which chrono keeps strictly within one day. `None` when the
/// instant is outside chrono's representable range. The offset depends
/// on the machine's environment, so nothing more is promised of it.
#[verifier::external_body]
fn local_utc_offset(ts: i64) -> (r: Option<i32>)
    ensures
        r matches Some(off) ==> -86400 < off < 86400,
{
    chrono::TimeZone::timestamp_opt(&chrono::Local, ts, 0).earliest().map(
        |dt: chrono::DateTime<chrono::Local>| dt.offset().local_minus_utc(),
    )
}

/// The digit as a one-character string slice.
fn digit_str(d: u32) -> (r: &'static str)
    requires
        d < 10,
    ensures
        r@ == seq![spec_digit_char(d as int)],
{
    let r = match d {
        0 => "0",
        1 => "1",
        2 => "2",
        3 => "3",
        4 => "4",
        5 => "5",
        6 => "6",
        7 => "7",
        8 => "8",
        _ => "9",
    };
    proof {
        reveal_strlit("0");
        reveal_strlit("1");
        reveal_strlit("2");
        reveal_strlit("3");
        reveal_strlit("4");
        reveal_strlit("5");
        reveal_strlit("6");
        reveal_strlit("7");
        reveal_strlit("8");
        reveal_strlit("9");
        assert(r@ =~= seq![spec_digit_char(d as int)]);
    }
    r
}

/// The second of the local day for an instant.
pub fn second_of_day(ts: i64, offset_secs: i32) -> (sod: u32)
    requires
        -86400 < offset_secs < 86400,
    ensures
        sod == spec_second_of_day(ts as int, offset_secs as int),
        sod < 86400,
{
    let off = offset_secs as i64;
    let local: i64 = if off >= 0 {
        if ts <= i64::MAX - off {
            ts + off
        } else {
            i64::MAX
        }
    } else {
        if ts >= i64::MIN - off {
            ts + off
        } else {
            i64::MIN
        }
    };
    if local >= 0 {
        (local % SECONDS_PER_DAY) as u32
    } else {
        (SECONDS_PER_DAY - 1 - ((-(local + 1)) % SECONDS_PER_DAY)) as u32
    }
}

/// Format an instant as `HH:MM:SS` in the local day for the given
/// time-zone offset.
pub fn time_label(ts: i64, offset_secs: i32) -> (r: String)
    requires
        -86400 < offset_secs < 86400,
    ensures
        r@ == spec_time_label(ts as int, offset_secs as int),
{
    let sod = second_of_day(ts, offset_secs);
    let h = sod / 3600;
    let m = (sod / 60) % 60;
    let s = sod % 60;
    let mut out = String::new();
    out.append(digit_str(h / 10));
    out.append(digit_str(h % 10));
    out.append(":");
    out.append(digit_str(m / 10));
    out.append(digit_str(m % 10));
    out.append(":");
    out.append(digit_str(s / 10));
    out.append(digit_str(s % 10));
    proof {
        reveal_strlit(":");
        assert(out@ =~= spec_time_label(ts as int, offset_secs as int));
    }
    out
}

/// One chart point: a time label and the value it carries.
pub struct ChartPoint {
    pub label: String,
    pub value_mppm: i64,
}

/// The renderer-neutral series: ordered points plus the static dataset
/// and axis options. Rebuilt whole every time the window changes,
/// never mutated in place.
pub struct ChartSeries {
    pub points: Vec<ChartPoint>,
    pub dataset_label: String,
    pub border_color: String,
    pub fill: bool,
    pub begin_at_zero: bool,
}

/// Project the window into a chart series: one point per reading, in
/// window order, labelled with the reading's local `HH:MM:SS`. The
/// time-zone offset of each label comes from the machine's environment,
/// so only its range is known; the ghost component names the offset
/// used for each point, and [`time_label`] pins the label for any
/// given offset.
pub fn project(window: &HistoryWindow) -> (r: (ChartSeries, Ghost<Seq<int>>))
    ensures
        ({
            let series = r.0;
            let offs = r.1@;
            &&& series.points@.len() == window@.len()
            &&& offs.len() == window@.len()
            &&& forall|i: int|
                0 <= i < window@.len() ==> #[trigger] series.points@[i].value_mppm == window@[
                    i
                ].value_mppm
            &&& forall|i: int|
                0 <= i < window@.len() ==> -86400 < #[trigger] offs[i] < 86400
                    && series.points@[i].label@ == spec_time_label(
                    window@[i].timestamp as int,
                    offs[i],
                )
            &&& series.dataset_label@ == "TDS (ppm)"@
            &&& series.border_color@ == "rgba(75, 192, 192, 1)"@
            &&& !series.fill
            &&& series.begin_at_zero
        }),
{
    let n = window.len();
    let mut points: Vec<ChartPoint> = Vec::new();
    let ghost mut offs: Seq<int> = Seq::empty();
    let mut i: usize = 0;
    while i < n
        invariant
            0 <= i <= n,
            n == window@.len(),
            points@.len() == i,
            offs.len() == i,
            forall|k: int|
                0 <= k < i ==> #[trigger] points@[k].value_mppm == window@[k].value_mppm,
            forall|k: int|
                0 <= k < i ==> -86400 < #[trigger] offs[k] < 86400 && points@[k].label@
                    == spec_time_label(window@[k].timestamp as int, offs[k]),
        decreases n - i,
    {
        let r = window.get(i);
        let off = match local_utc_offset(r.timestamp) {
            Some(off) => off,
            None => 0,
        };
        let label = time_label(r.timestamp, off);
        points.push(ChartPoint { label, value_mppm: r.value_mppm });
        proof {
            offs = offs.push(off as int);
        }
        i += 1;
    }
    (
        ChartSeries {
            points,
            dataset_label: "TDS (ppm)".to_owned(),
            border_color: "rgba(75, 192, 192, 1)".to_owned(),
            fill: false,
            begin_at_zero: true,
        },
        Ghost(offs),
    )
}

/// The explicit registry of chart surfaces that already have a live
/// chart, keyed by surface identifier.
pub struct ChartRegistry {
    ids: Vec<String>,
}

impl View for ChartRegistry {
    type V = Seq<Seq<char>>;

    closed spec fn view(&self) -> Seq<Seq<char>> {
        self.ids@.map_values(|s: String| s@)
    }
}

/// What the render sink is asked to do for a surface on one tick.
#[derive(Clone, Copy, Debug, PartialEq, Eq, Structural)]
pub enum RenderAction {
    /// No chart lives on the surface yet: create one from the full
    /// series and options.
    Create,
    /// A chart already lives there: hand it only the new series.
    Update,
}

/// Create when the surface has no chart yet, update otherwise.
pub open spec fn spec_render_action(has_chart: bool) -> RenderAction {
    if has_chart {
        RenderAction::Update
    } else {
        RenderAction::Create
    }
}

impl ChartRegistry {
    /// A registry starts with no live charts.
    pub fn new() -> (r: ChartRegistry)
        ensures
            r@ == Seq::<Seq<char>>::empty(),
    {
        let r = ChartRegistry { ids: Vec::new() };
        proof {
            assert(r@ =~= Seq::<Seq<char>>::empty());
        }
        r
    }

    /// Whether a chart already lives on the surface.
    pub fn has(&self, id: &String) -> (r: bool)
        ensures
            r == self@.contains(id@),
    {
        let n = self.ids.len();
        let mut i: usize = 0;
        while i < n
            invariant
                0 <= i <= n,
                n == self.ids@.len(),
                self@.len() == n,
                forall|k: int| 0 <= k < i ==> self@[k] != id@,
                forall|k: int| 0 <= k < n ==> self@[k] == self.ids@[k]@,
        decreases n - i,
        {
            if self.ids[i].eq(id) {
                assert(self@[i as int] == id@);
                return true;
            }
            i += 1;
        }
        false
    }

    /// Whether no chart lives anywhere yet.
    pub fn is_empty(&self) -> (r: bool)
        ensures
            r == (self@.len() == 0),
    {
        self.ids.len() == 0
    }

    /// Record that a chart now lives on the surface.
    pub fn register(&mut self, id: String)
        ensures
            old(self)@.contains(id@) ==> final(self)@ == old(self)@,
            !old(self)@.contains(id@) ==> final(self)@ == old(self)@.push(id@),
    {
        if !self.has(&id) {
            let ghost before = self@;
            self.ids.push(id);
            proof {
                assert(self@ =~= before.push(self.ids@.last()@));
            }
        }
    }

    /// The create-or-update decision for a surface.
    pub fn decide_render(&self, id: &String) -> (a: RenderAction)
        ensures
            a == spec_render_action(self@.contains(id@)),
    {
        if self.has(id) {
            RenderAction::Update
        } else {
            RenderAction::Create
        }
    }
}

} // verus!
