//! The radio graph: ambient readings as bars, receptions and transmissions as marks. The
//! horizontal axis is the index of the reading, the newest at the right edge, so that a
//! bar keeps its shape while it moves.

use crate::dashboard::{Dashboard, DashboardV};
use crate::dashboard_view::paused_note;
use crate::text::{cat3, cat6, dec, dec_i64, dec_int, dec_u64};
use std::collections::VecDeque;
use vstd::prelude::*;
use vstd::std_specs::vecdeque::*;
use vstd::string::*;

verus! {

/// Readings above this level are busy.
pub const CHART_BUSY_DBM: i16 = -85;

/// Readings above this level are hot.
pub const CHART_HOT_DBM: i16 = -70;

/// The floor of the graph.
pub const CHART_MIN_DBM: i16 = -110;

/// The ceiling of the graph.
pub const CHART_MAX_DBM: i16 = -30;

/// The width of a bar in columns.
pub const BAR_W: usize = 2;

/// The columns that a reading takes: its bar and a gap.
pub const BAR_STRIDE: usize = 3;

/// A point of the graph: column (0 at the right edge, negative to the left) and level.
pub type Point = (i64, i64);

/// How a reading is coloured.
#[derive(Debug, Clone, Copy, PartialEq, Eq, Structural)]
pub enum Level {
    Quiet,
    Busy,
    Hot,
}

pub open spec fn level_of(dbm: i16) -> Level {
    if dbm <= CHART_BUSY_DBM {
        Level::Quiet
    } else if dbm <= CHART_HOT_DBM {
        Level::Busy
    } else {
        Level::Hot
    }
}

/// A reading within the range of the graph.
pub open spec fn clamped(dbm: i16) -> int {
    if dbm < CHART_MIN_DBM {
        CHART_MIN_DBM as int
    } else if dbm > CHART_MAX_DBM {
        CHART_MAX_DBM as int
    } else {
        dbm as int
    }
}

/// The columns of the plot: what is left of the width beside the axis (and the border),
/// at least two.
pub open spec fn slots(width: u16, zoomed: bool) -> nat {
    let margin = if zoomed {
        5int
    } else {
        7int
    };
    if width - margin >= 2 {
        (width - margin) as nat
    } else {
        2
    }
}

/// How many bars fit.
pub open spec fn bar_count(slots: nat) -> nat {
    (slots + 1) / 3
}

/// The column of the `dx`-th cell of the bar that is `back` readings old.
pub open spec fn column(back: int, dx: int) -> i64 {
    (-(back * 3 + dx)) as i64
}

/// One column, filled from the floor to `top`.
pub open spec fn filled(x: i64, top: int) -> Seq<Point> {
    Seq::new((top - CHART_MIN_DBM + 1) as nat, |i: int| (x, (CHART_MIN_DBM + i) as i64))
}

/// The bar of a reading.
pub open spec fn bar(back: int, dbm: i16) -> Seq<Point> {
    filled(column(back, 0), clamped(dbm)) + filled(column(back, 1), clamped(dbm))
}

/// The reading that is `back` readings old.
pub open spec fn reading(ambient: Seq<i16>, back: int) -> i16 {
    ambient[ambient.len() - 1 - back]
}

/// The bars of one level among the `k` newest readings.
pub open spec fn bars(ambient: Seq<i16>, level: Level, k: nat) -> Seq<Point>
    decreases k,
{
    if k == 0 {
        Seq::empty()
    } else {
        let before = bars(ambient, level, (k - 1) as nat);
        let v = reading(ambient, k - 1);
        if level_of(v) == level {
            before + bar(k - 1, v)
        } else {
            before
        }
    }
}

/// The first `k` marks, as far as their readings are in view.
pub open spec fn mark_points(marks: Seq<(u64, i16)>, newest: u64, count: nat, k: nat) -> Seq<Point>
    decreases k,
{
    if k == 0 {
        Seq::empty()
    } else {
        let before = mark_points(marks, newest, count, (k - 1) as nat);
        let (seq, dbm) = marks[k - 1];
        if seq <= newest && newest - seq < count {
            before.push((column(newest - seq, 0), dbm as i64)).push(
                (column(newest - seq, 1), dbm as i64),
            )
        } else {
            before
        }
    }
}

/// What the graph draws.
#[derive(Debug, PartialEq)]
pub struct Chart {
    /// The columns of the plot.
    pub slots: usize,
    pub quiet: Vec<Point>,
    pub busy: Vec<Point>,
    pub hot: Vec<Point>,
    pub rx: Vec<Point>,
    pub tx: Vec<Point>,
}

pub open spec fn visible(s: DashboardV, count: nat) -> nat {
    if s.ambient.len() <= count {
        s.ambient.len()
    } else {
        count
    }
}

/// The graph is what the state says, in a pane of this width.
pub open spec fn is_chart(s: DashboardV, width: u16, zoomed: bool, c: Chart) -> bool {
    let count = bar_count(slots(width, zoomed));
    let n = visible(s, count);
    &&& c.slots == slots(width, zoomed)
    &&& c.quiet@ == bars(s.ambient, Level::Quiet, n)
    &&& c.busy@ == bars(s.ambient, Level::Busy, n)
    &&& c.hot@ == bars(s.ambient, Level::Hot, n)
    &&& c.rx@ == mark_points(s.rx_marks, s.ambient_seq, count, s.rx_marks.len())
    &&& c.tx@ == mark_points(s.tx_marks, s.ambient_seq, count, s.tx_marks.len())
}

pub open spec fn chart_title(s: DashboardV) -> Seq<char> {
    match s.last_ambient {
        Some((dbm, channel)) => " Radio · "@ + dec_int(dbm as int) + " dBm · ch "@ + dec(
            channel as nat,
        ) + paused_note(s.paused) + " "@,
        None => " Radio"@ + paused_note(s.paused) + " "@,
    }
}

fn push_filled(out: &mut Vec<Point>, x: i64, top: i64)
    requires
        CHART_MIN_DBM <= top <= CHART_MAX_DBM,
    ensures
        final(out)@ == old(out)@ + filled(x, top as int),
{
    let ghost start = out@;
    let ghost all = filled(x, top as int);
    let mut y: i64 = CHART_MIN_DBM as i64;
    assert(out@ =~= start + all.take(0));
    while y <= top
        invariant
            CHART_MIN_DBM <= y <= top + 1,
            top <= CHART_MAX_DBM,
            all == filled(x, top as int),
            out@ == start + all.take(y - CHART_MIN_DBM),
        decreases top + 1 - y,
    {
        out.push((x, y));
        assert(out@ =~= start + all.take(y + 1 - CHART_MIN_DBM));
        y = y + 1;
    }
    assert(all.take(y - CHART_MIN_DBM) =~= all);
}

/// The bars of one level among the `n` newest readings.
fn bars_of(ambient: &VecDeque<i16>, level: Level, n: usize) -> (r: Vec<Point>)
    requires
        n <= ambient@.len(),
        n <= 0x1_0000,
    ensures
        r@ == bars(ambient@, level, n as nat),
{
    let mut out: Vec<Point> = Vec::new();
    let count: usize = ambient.len();
    let mut back: usize = 0;
    while back < n
        invariant
            back <= n <= ambient@.len(),
            n <= 0x1_0000,
            count == ambient@.len(),
            out@ == bars(ambient@, level, back as nat),
        decreases n - back,
    {
        let v: i16 = ambient[count - 1 - back];
        let here = if v <= CHART_BUSY_DBM {
            Level::Quiet
        } else if v <= CHART_HOT_DBM {
            Level::Busy
        } else {
            Level::Hot
        };
        if here == level {
            let top: i64 = if v < CHART_MIN_DBM {
                CHART_MIN_DBM as i64
            } else if v > CHART_MAX_DBM {
                CHART_MAX_DBM as i64
            } else {
                v as i64
            };
            let ghost before = out@;
            let x: i64 = -(back as i64 * 3);
            push_filled(&mut out, x, top);
            push_filled(&mut out, x - 1, top);
            assert(out@ =~= before + bar(back as int, v));
        }
        back = back + 1;
    }
    out
}

fn marks_of(marks: &VecDeque<(u64, i16)>, newest: u64, count: usize) -> (r: Vec<Point>)
    requires
        count <= 0x1_0000,
    ensures
        r@ == mark_points(marks@, newest, count as nat, marks@.len()),
{
    let mut out: Vec<Point> = Vec::new();
    let mut i: usize = 0;
    while i < marks.len()
        invariant
            i <= marks@.len(),
            count <= 0x1_0000,
            out@ == mark_points(marks@, newest, count as nat, i as nat),
        decreases marks@.len() - i,
    {
        let (seq, dbm) = marks[i];
        if seq <= newest && newest - seq < count as u64 {
            let x: i64 = -((newest - seq) as i64 * 3);
            out.push((x, dbm as i64));
            out.push((x - 1, dbm as i64));
        }
        i = i + 1;
    }
    out
}

impl Dashboard {
    /// The graph in a pane of this width.
    pub fn render_chart(&self, width: u16, zoomed: bool) -> (r: Chart)
        ensures
            is_chart(self@, width, zoomed, r),
    {
        let margin: u16 = if zoomed { 5 } else { 7 };
        let room: usize = width.saturating_sub(margin) as usize;
        let slots: usize = if room >= 2 { room } else { 2 };
        let count: usize = (slots + BAR_STRIDE - BAR_W) / BAR_STRIDE;
        let total: usize = self.ambient.len();
        let n: usize = if total <= count { total } else { count };
        Chart {
            slots,
            quiet: bars_of(&self.ambient, Level::Quiet, n),
            busy: bars_of(&self.ambient, Level::Busy, n),
            hot: bars_of(&self.ambient, Level::Hot, n),
            rx: marks_of(&self.rx_marks, self.ambient_seq, count),
            tx: marks_of(&self.tx_marks, self.ambient_seq, count),
        }
    }

    /// The title of the graph: the last reading, live.
    pub fn chart_title(&self) -> (r: String)
        ensures
            r@ == chart_title(self@),
    {
        let note = if self.paused { " (paused)" } else { "" };
        match self.last_ambient {
            Some((dbm, channel)) => cat6(
                " Radio · ",
                dec_i64(dbm as i64).as_str(),
                " dBm · ch ",
                dec_u64(channel as u64).as_str(),
                note,
                " ",
            ),
            None => cat3(" Radio", note, " "),
        }
    }
}

// ---- laws --------------------------------------------------------------------------

/// Every bar that is drawn lies within the plot: its last column is not beyond the left
/// edge.
pub proof fn law_bars_lie_within_the_plot(slots: nat, back: int)
    requires
        2 <= slots <= u16::MAX,
        0 <= back < bar_count(slots),
    ensures
        -(slots - 1) <= column(back, 1) < column(back, 0) <= 0,
{
}

/// Bars do not touch: between two neighbours one column stays free.
pub proof fn law_bars_keep_their_distance(back: int)
    requires
        0 <= back < 0x1_0000,
    ensures
        column(back + 1, 0) == column(back, 1) - 2,
        column(back, 1) == column(back, 0) - 1,
{
}

/// Every point of a bar lies within the range of the graph.
pub proof fn law_bars_stay_in_range(back: int, dbm: i16, i: int)
    requires
        0 <= i < bar(back, dbm).len(),
    ensures
        CHART_MIN_DBM <= bar(back, dbm)[i].1 <= CHART_MAX_DBM,
{
}

} // verus!
