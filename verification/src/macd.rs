//! Incremental MACD-style oscillator: a fast/slow EMA spread (DIF) and a
//! signal EMA over the spread, replayed across a bounded window of closes to
//! detect golden and death crossovers.
//!
//! The EMAs run in fixed-point integer arithmetic: closes are scaled by
//! [`FEED_SCALE`] and every update takes the floor of
//! `(2 * x + (period - 1) * prev) / (period + 1)`, the standard EMA
//! smoothing with `alpha = 2 / (period + 1)`.  The first value fed seeds
//! each EMA exactly, so a replay from a fresh state is deterministic in the
//! window alone.

use vstd::prelude::*;
use crate::data_company::{StockData, spec_index_of};
use vstd::arithmetic::div_mod::{
    lemma_div_is_ordered, lemma_div_multiples_vanish, lemma_fundamental_div_mod,
    lemma_fundamental_div_mod_converse_div, lemma_mod_division_less_than_divisor,
};

verus! {

/// Fast EMA period.
pub const FAST_PERIOD: i64 = 12;

/// Slow EMA period.
pub const SLOW_PERIOD: i64 = 26;

/// Signal EMA period.
pub const SIGNAL_PERIOD: i64 = 9;

/// Bars fed before the target date: the replay window holds
/// `INTERVALS + 1` bars.
pub const INTERVALS: usize = 100;

/// Fixed-point scale applied to closes before they enter the EMAs.
pub const FEED_SCALE: i64 = 1_000_000;

/// Every oscillator state component stays within this bound: it is the
/// largest representable close times the feed scale.
pub const STATE_BOUND: i64 = 0xFFFF_FFFF * 1_000_000;

/// One EMA update: the floor of the alpha-smoothed combination.
pub open spec fn spec_ema_next(period: int, prev: int, x: int) -> int {
    (2 * x + (period - 1) * prev) / (period + 1)
}

/// EMA of a whole sequence, seeded by its first element.
pub open spec fn spec_ema(period: int, xs: Seq<int>) -> int
    decreases xs.len(),
{
    if xs.len() == 0 {
        0
    } else if xs.len() == 1 {
        xs[0]
    } else {
        spec_ema_next(period, spec_ema(period, xs.drop_last()), xs.last())
    }
}

/// The DIF line after feeding `xs`: fast EMA minus slow EMA.
pub open spec fn spec_dif(xs: Seq<int>) -> int {
    spec_ema(FAST_PERIOD as int, xs) - spec_ema(SLOW_PERIOD as int, xs)
}

/// The signal line after feeding `xs`: the signal-period EMA of the DIF
/// values, seeded by the first DIF.
pub open spec fn spec_signal(xs: Seq<int>) -> int
    decreases xs.len(),
{
    if xs.len() <= 1 {
        spec_dif(xs)
    } else {
        spec_ema_next(SIGNAL_PERIOD as int, spec_signal(xs.drop_last()), spec_dif(xs))
    }
}

/// A golden cross fires at step `i` of the replay of `xs`: the DIF was at or
/// below the signal before the step and strictly above it after.
pub open spec fn spec_golden_at(xs: Seq<int>, i: int) -> bool {
    &&& spec_dif(xs.take(i)) <= spec_signal(xs.take(i))
    &&& spec_dif(xs.take(i + 1)) > spec_signal(xs.take(i + 1))
}

/// A death cross fires at step `i`: the DIF was at or above the signal
/// before the step and strictly below it after.
pub open spec fn spec_death_at(xs: Seq<int>, i: int) -> bool {
    &&& spec_dif(xs.take(i)) >= spec_signal(xs.take(i))
    &&& spec_dif(xs.take(i + 1)) < spec_signal(xs.take(i + 1))
}

/// Golden or death crossover.
#[derive(Clone, Copy, PartialEq, Eq, Structural, Debug)]
pub enum MacdCrossType {
    GoldenCross,
    DeathCross,
}

/// The crossovers emitted while replaying `xs`, in step order: step index
/// paired with the crossover kind.
pub open spec fn spec_crosses(xs: Seq<int>) -> Seq<(int, MacdCrossType)>
    decreases xs.len(),
{
    if xs.len() == 0 {
        Seq::empty()
    } else {
        let i = xs.len() - 1;
        let pre = spec_crosses(xs.drop_last());
        if spec_golden_at(xs, i) {
            pre.push((i, MacdCrossType::GoldenCross))
        } else if spec_death_at(xs, i) {
            pre.push((i, MacdCrossType::DeathCross))
        } else {
            pre
        }
    }
}

/// A crossover observed for a symbol at a date.
#[derive(Clone, Debug)]
pub struct MacdCross {
    pub stock_no: String,
    pub date: u32,
    pub cross_type: MacdCrossType,
}

/// Per-bar record of a replay step.  The oscillator's intermediate lines are
/// not part of the published output, so the record carries no fields; one is
/// still emitted per bar fed.
#[derive(Clone, Copy, PartialEq, Eq, Structural, Debug)]
pub struct MacdResult {}

/// Euclidean (floor) division by a positive divisor.
fn div_floor(a: i64, d: i64) -> (q: i64)
    requires
        1 <= d,
    ensures
        q == a as int / d as int,
{
    if a >= 0 {
        ((a as u64) / (d as u64)) as i64
    } else {
        let m = (-(a + 1)) as u64;
        let q0 = m / (d as u64);
        proof {
            lemma_div_floor_neg(a as int, d as int);
        }
        -(q0 as i64) - 1
    }
}

/// Floor division of a negative dividend, phrased over the nonnegative
/// mirror value `-a - 1`.
proof fn lemma_div_floor_neg(a: int, d: int)
    requires
        1 <= d,
        a < 0,
    ensures
        a / d == -((-a - 1) / d) - 1,
{
    let m = -a - 1;
    let q0 = m / d;
    let r0 = m % d;
    lemma_fundamental_div_mod(m, d);
    lemma_mod_division_less_than_divisor(m, d);
    assert(a == (-q0 - 1) * d + (d - r0 - 1)) by (nonlinear_arith)
        requires
            m == d * q0 + r0,
            a == -m - 1,
    ;
    lemma_fundamental_div_mod_converse_div(a, d, -q0 - 1, d - r0 - 1);
}

/// One EMA update in fixed point, staying within the state bound.
fn ema_step(prev: i64, x: i64, p: i64) -> (r: i64)
    requires
        2 <= p <= 32,
        -STATE_BOUND <= prev <= STATE_BOUND,
        -STATE_BOUND <= x <= STATE_BOUND,
    ensures
        r == spec_ema_next(p as int, prev as int, x as int),
        -STATE_BOUND <= r <= STATE_BOUND,
{
    proof {
        assert(-(33 * STATE_BOUND) <= 2 * x + (p - 1) * prev <= 33 * STATE_BOUND)
            by (nonlinear_arith)
            requires
                2 <= p <= 32,
                -STATE_BOUND <= prev <= STATE_BOUND,
                -STATE_BOUND <= x <= STATE_BOUND,
        ;
    }
    let t = 2 * x + (p - 1) * prev;
    let r = div_floor(t, p + 1);
    proof {
        lemma_ema_next_bounds(p as int, prev as int, x as int, STATE_BOUND as int);
    }
    r
}

/// All scaled closes lie in `[0, b]`.
pub open spec fn spec_feeds_in_range(xs: Seq<int>, b: int) -> bool {
    forall|i: int| 0 <= i < xs.len() ==> 0 <= #[trigger] xs[i] <= b
}

/// A nonnegative-input EMA update stays within `[0, b]`.
proof fn lemma_ema_next_range_nonneg(p: int, prev: int, x: int, b: int)
    requires
        2 <= p <= 32,
        0 <= b,
        0 <= prev <= b,
        0 <= x <= b,
    ensures
        0 <= spec_ema_next(p, prev, x) <= b,
{
    let t = 2 * x + (p - 1) * prev;
    let d = p + 1;
    assert(0 <= t <= d * b) by (nonlinear_arith)
        requires
            2 <= p <= 32,
            0 <= b,
            0 <= prev <= b,
            0 <= x <= b,
            t == 2 * x + (p - 1) * prev,
            d == p + 1,
    ;
    vstd::arithmetic::div_mod::lemma_div_pos_is_pos(t, d);
    lemma_div_is_ordered(t, d * b, d);
    lemma_div_multiples_vanish(b, d);
}

/// An EMA of closes in `[0, STATE_BOUND]` stays in `[0, STATE_BOUND]`.
proof fn lemma_ema_in_range(p: int, xs: Seq<int>)
    requires
        2 <= p <= 32,
        spec_feeds_in_range(xs, STATE_BOUND as int),
    ensures
        0 <= spec_ema(p, xs) <= STATE_BOUND,
    decreases xs.len(),
{
    if xs.len() > 1 {
        assert(spec_feeds_in_range(xs.drop_last(), STATE_BOUND as int));
        lemma_ema_in_range(p, xs.drop_last());
        lemma_ema_next_range_nonneg(p, spec_ema(p, xs.drop_last()), xs.last(), STATE_BOUND as int);
    }
}

/// The DIF and signal lines stay within `[-STATE_BOUND, STATE_BOUND]`.
proof fn lemma_signal_in_range(xs: Seq<int>)
    requires
        spec_feeds_in_range(xs, STATE_BOUND as int),
    ensures
        -STATE_BOUND <= spec_dif(xs) <= STATE_BOUND,
        -STATE_BOUND <= spec_signal(xs) <= STATE_BOUND,
    decreases xs.len(),
{
    lemma_ema_in_range(FAST_PERIOD as int, xs);
    lemma_ema_in_range(SLOW_PERIOD as int, xs);
    if xs.len() > 1 {
        assert(spec_feeds_in_range(xs.drop_last(), STATE_BOUND as int));
        lemma_signal_in_range(xs.drop_last());
        lemma_ema_next_bounds(
            SIGNAL_PERIOD as int,
            spec_signal(xs.drop_last()),
            spec_dif(xs),
            STATE_BOUND as int,
        );
    }
}

/// The EMA update maps values within `[-b, b]` back into `[-b, b]`.
proof fn lemma_ema_next_bounds(p: int, prev: int, x: int, b: int)
    requires
        2 <= p <= 32,
        0 <= b,
        -b <= prev <= b,
        -b <= x <= b,
    ensures
        -b <= spec_ema_next(p, prev, x) <= b,
{
    let t = 2 * x + (p - 1) * prev;
    let d = p + 1;
    assert((-d) * b <= t <= d * b) by (nonlinear_arith)
        requires
            2 <= p <= 32,
            0 <= b,
            -b <= prev <= b,
            -b <= x <= b,
            t == 2 * x + (p - 1) * prev,
            d == p + 1,
    ;
    lemma_div_is_ordered(t, d * b, d);
    lemma_div_is_ordered((-d) * b, t, d);
    lemma_div_multiples_vanish(b, d);
    lemma_div_multiples_vanish(-b, d);
    assert(d * b / d == b);
    assert((-d) * b == d * (-b)) by (nonlinear_arith);
}

/// The replayed oscillator state for one symbol.  It is reset at the start
/// of every windowed computation, so no state survives between calls.
pub struct MacdCalculator {
    pub stock_no: String,
    pub ema12: i64,
    pub ema26: i64,
    pub signal: i64,
    pub started: bool,
    pub prev_dif: i64,
    pub prev_signal: i64,
}

impl MacdCalculator {
    /// The state is exactly what replaying the scaled closes `xs` from a
    /// fresh state produces.
    pub open spec fn tracks(&self, xs: Seq<int>) -> bool {
        &&& self.started == (xs.len() > 0)
        &&& self.ema12 == spec_ema(FAST_PERIOD as int, xs)
        &&& self.ema26 == spec_ema(SLOW_PERIOD as int, xs)
        &&& self.signal == spec_signal(xs)
        &&& self.prev_dif == spec_dif(xs)
        &&& self.prev_signal == spec_signal(xs)
    }

    /// A calculator ready to replay: it tracks the empty feed.
    pub fn new(stock_no: String) -> (r: MacdCalculator)
        ensures
            r.stock_no@ == stock_no@,
            r.tracks(Seq::empty()),
    {
        MacdCalculator {
            stock_no,
            ema12: 0,
            ema26: 0,
            signal: 0,
            started: false,
            prev_dif: 0,
            prev_signal: 0,
        }
    }

    /// Forgets all replayed state; the symbol is kept.
    pub fn reset(&mut self)
        ensures
            final(self).stock_no@ == old(self).stock_no@,
            final(self).tracks(Seq::empty()),
    {
        self.ema12 = 0;
        self.ema26 = 0;
        self.signal = 0;
        self.started = false;
        self.prev_dif = 0;
        self.prev_signal = 0;
    }

    /// Feeds one scaled close, advancing every line by one EMA step and
    /// reporting the crossover this step fires, if any.
    fn feed(&mut self, date: u32, x: i64, Ghost(xs): Ghost<Seq<int>>) -> (r: (
        MacdResult,
        Option<MacdCross>,
    ))
        requires
            old(self).tracks(xs),
            spec_feeds_in_range(xs, STATE_BOUND as int),
            0 <= x <= STATE_BOUND,
        ensures
            final(self).stock_no@ == old(self).stock_no@,
            final(self).tracks(xs.push(x as int)),
            ({
                let ys = xs.push(x as int);
                let i = xs.len() as int;
                &&& (r.1 is Some) == (spec_golden_at(ys, i) || spec_death_at(ys, i))
                &&& r.1 matches Some(c) ==> {
                    &&& c.stock_no@ == old(self).stock_no@
                    &&& c.date == date
                    &&& c.cross_type == (if spec_golden_at(ys, i) {
                        MacdCrossType::GoldenCross
                    } else {
                        MacdCrossType::DeathCross
                    })
                }
            }),
    {
        let ghost ys = xs.push(x as int);
        proof {
            assert(ys.drop_last() =~= xs);
            assert(ys.take(xs.len() as int) =~= xs);
            assert(ys.take(xs.len() as int + 1) =~= ys);
            lemma_ema_in_range(FAST_PERIOD as int, xs);
            lemma_ema_in_range(SLOW_PERIOD as int, xs);
            lemma_signal_in_range(xs);
        }
        let e12 = if self.started {
            ema_step(self.ema12, x, FAST_PERIOD)
        } else {
            x
        };
        let e26 = if self.started {
            ema_step(self.ema26, x, SLOW_PERIOD)
        } else {
            x
        };
        let dif = e12 - e26;
        proof {
            lemma_ema_in_range(FAST_PERIOD as int, ys);
            lemma_ema_in_range(SLOW_PERIOD as int, ys);
        }
        let signal = if self.started {
            ema_step(self.signal, dif, SIGNAL_PERIOD)
        } else {
            dif
        };

        let mut cross: Option<MacdCross> = None;
        if self.prev_dif <= self.prev_signal && dif > signal {
            cross = Some(MacdCross {
                stock_no: self.stock_no.clone(),
                date,
                cross_type: MacdCrossType::GoldenCross,
            });
        } else if self.prev_dif >= self.prev_signal && dif < signal {
            cross = Some(MacdCross {
                stock_no: self.stock_no.clone(),
                date,
                cross_type: MacdCrossType::DeathCross,
            });
        }

        self.ema12 = e12;
        self.ema26 = e26;
        self.signal = signal;
        self.started = true;
        self.prev_dif = dif;
        self.prev_signal = signal;
        (MacdResult {}, cross)
    }
}

/// The scaled closes replayed for a scan ending at index `end`: the
/// `INTERVALS + 1` closes of `bars[end - INTERVALS ..= end]`.
pub open spec fn spec_feeds(bars: Seq<StockData>, end: int) -> Seq<int> {
    Seq::new((INTERVALS + 1) as nat, |k: int| bars[end - INTERVALS + k].close * FEED_SCALE)
}

/// Every crossover's step index lies inside the replayed window.
pub proof fn lemma_crosses_indices(xs: Seq<int>)
    ensures
        forall|j: int| 0 <= j < spec_crosses(xs).len()
            ==> 0 <= (#[trigger] spec_crosses(xs)[j]).0 < xs.len(),
    decreases xs.len(),
{
    if xs.len() > 0 {
        lemma_crosses_indices(xs.drop_last());
        let pre = spec_crosses(xs.drop_last());
        assert forall|j: int| 0 <= j < spec_crosses(xs).len() implies 0 <= (
        #[trigger] spec_crosses(xs)[j]).0 < xs.len() by {
            if j < pre.len() {
                assert(spec_crosses(xs)[j] == pre[j]);
            }
        }
    }
}

/// The two crossover conditions exclude each other: one asks for the DIF
/// strictly above the signal after the step, the other strictly below, so a
/// step never fires both a golden and a death cross.
pub proof fn lemma_cross_never_both(xs: Seq<int>, i: int)
    ensures
        !(spec_golden_at(xs, i) && spec_death_at(xs, i)),
{
}

/// Dropping the last feed does not change whether an earlier step crossed.
proof fn lemma_cross_step_agrees(xs: Seq<int>, i: int)
    requires
        0 <= i < xs.len() - 1,
    ensures
        spec_golden_at(xs, i) == spec_golden_at(xs.drop_last(), i),
        spec_death_at(xs, i) == spec_death_at(xs.drop_last(), i),
{
    assert(xs.drop_last().take(i) =~= xs.take(i));
    assert(xs.drop_last().take(i + 1) =~= xs.take(i + 1));
}

/// Every emitted crossover really crossed: a golden entry at step `i` means
/// the DIF moved from at-or-below to strictly above the signal there, a
/// death entry the reverse; and step indices strictly increase along the
/// list, so no step emits two crossovers.
pub proof fn lemma_crosses_sound(xs: Seq<int>)
    ensures
        forall|j: int| 0 <= j < spec_crosses(xs).len() ==> {
            let e = #[trigger] spec_crosses(xs)[j];
            &&& (e.1 == MacdCrossType::GoldenCross ==> spec_golden_at(xs, e.0))
            &&& (e.1 == MacdCrossType::DeathCross ==> spec_death_at(xs, e.0))
        },
        forall|j1: int, j2: int| 0 <= j1 < j2 < spec_crosses(xs).len()
            ==> (#[trigger] spec_crosses(xs)[j1]).0 < (#[trigger] spec_crosses(xs)[j2]).0,
    decreases xs.len(),
{
    if xs.len() > 0 {
        lemma_crosses_sound(xs.drop_last());
        lemma_crosses_indices(xs.drop_last());
        let pre = spec_crosses(xs.drop_last());
        let cs = spec_crosses(xs);
        assert forall|j: int| 0 <= j < cs.len() implies {
            let e = #[trigger] cs[j];
            &&& (e.1 == MacdCrossType::GoldenCross ==> spec_golden_at(xs, e.0))
            &&& (e.1 == MacdCrossType::DeathCross ==> spec_death_at(xs, e.0))
        } by {
            if j < pre.len() {
                assert(cs[j] == pre[j]);
                lemma_cross_step_agrees(xs, pre[j].0);
            }
        }
        assert forall|j1: int, j2: int| 0 <= j1 < j2 < cs.len() implies (
        #[trigger] cs[j1]).0 < (#[trigger] cs[j2]).0 by {
            if j2 < pre.len() {
                assert(cs[j1] == pre[j1]);
                assert(cs[j2] == pre[j2]);
            } else if j1 < pre.len() {
                assert(cs[j1] == pre[j1]);
            }
        }
    }
}

/// Every crossing emits: a step where the DIF crosses from at-or-below to
/// strictly above the signal appears in the list as a golden cross, and the
/// mirror image as a death cross.
pub proof fn lemma_cross_complete(xs: Seq<int>, i: int)
    requires
        0 <= i < xs.len(),
    ensures
        spec_golden_at(xs, i) ==> spec_crosses(xs).contains((i, MacdCrossType::GoldenCross)),
        spec_death_at(xs, i) ==> spec_crosses(xs).contains((i, MacdCrossType::DeathCross)),
    decreases xs.len(),
{
    let cs = spec_crosses(xs);
    let pre = spec_crosses(xs.drop_last());
    if i == xs.len() - 1 {
        if spec_golden_at(xs, i) {
            assert(cs[cs.len() - 1] == (i, MacdCrossType::GoldenCross));
        } else if spec_death_at(xs, i) {
            assert(cs[cs.len() - 1] == (i, MacdCrossType::DeathCross));
        }
    } else {
        lemma_cross_step_agrees(xs, i);
        lemma_cross_complete(xs.drop_last(), i);
        assert forall|e: (int, MacdCrossType)| pre.contains(e) implies cs.contains(e) by {
            let j = choose|j: int| 0 <= j < pre.len() && pre[j] == e;
            assert(cs[j] == e);
        }
    }
}

/// A golden cross stands in the emitted list at step `i` exactly when the
/// DIF moved from at-or-below to strictly above the signal there, and a
/// death cross exactly when it moved from at-or-above to strictly below.
/// With the strictly increasing step indices of `lemma_crosses_sound`, each
/// crossing step emits exactly one crossover, and a step that does not
/// cross emits none.
pub proof fn lemma_cross_iff(xs: Seq<int>, i: int)
    requires
        0 <= i < xs.len(),
    ensures
        spec_crosses(xs).contains((i, MacdCrossType::GoldenCross)) == spec_golden_at(xs, i),
        spec_crosses(xs).contains((i, MacdCrossType::DeathCross)) == spec_death_at(xs, i),
{
    lemma_cross_complete(xs, i);
    lemma_crosses_sound(xs);
    let cs = spec_crosses(xs);
    if cs.contains((i, MacdCrossType::GoldenCross)) {
        let j = choose|j: int| 0 <= j < cs.len() && cs[j] == (i, MacdCrossType::GoldenCross);
        assert(spec_golden_at(xs, cs[j].0));
    }
    if cs.contains((i, MacdCrossType::DeathCross)) {
        let j = choose|j: int| 0 <= j < cs.len() && cs[j] == (i, MacdCrossType::DeathCross);
        assert(spec_death_at(xs, cs[j].0));
    }
}

impl MacdCalculator {
    /// Replays the `INTERVALS + 1` closes ending at `date` through a freshly
    /// reset oscillator.  Succeeds exactly when the date trades in the
    /// series with at least `INTERVALS` earlier bars; the result then lists
    /// one record per bar fed and every crossover of the replay, each tagged
    /// with the bar date it fired on.  The output depends on the series, the
    /// date and the symbol alone — never on previously accumulated state.
    pub fn calc(&mut self, data_company: &crate::data_company::DataCompany, date: u32) -> (r:
        Option<(Vec<MacdResult>, Vec<MacdCross>)>)
        ensures
            final(self).stock_no@ == old(self).stock_no@,
            (r is Some) == {
                &&& spec_index_of(data_company.stock_data@, date) matches Some(i)
                &&& i >= INTERVALS
            },
            r matches Some(p) ==> {
                let end = spec_index_of(data_company.stock_data@, date).unwrap();
                let cs = spec_crosses(spec_feeds(data_company.stock_data@, end));
                &&& p.0@.len() == INTERVALS + 1
                &&& p.1@.len() == cs.len()
                &&& forall|j: int| 0 <= j < cs.len() ==> {
                    &&& (#[trigger] p.1@[j]).cross_type == cs[j].1
                    &&& p.1@[j].date == data_company.stock_data@[end - INTERVALS + cs[j].0].date
                    &&& p.1@[j].stock_no@ == old(self).stock_no@
                }
            },
    {
        self.reset();

        let bars = &data_company.stock_data;
        let n = bars.len();
        let end_index = match data_company.index_of(date) {
            Some(i) => i,
            None => {
                return None;
            },
        };
        proof {
            crate::data_company::lemma_spec_index_of(bars@, date);
        }
        if end_index < INTERVALS {
            return None;
        }
        let start_index = end_index - INTERVALS;

        let ghost feeds = spec_feeds(bars@, end_index as int);
        proof {
            assert forall|i: int| 0 <= i < feeds.len() implies 0 <= #[trigger] feeds[i]
                <= STATE_BOUND by {
                assert(feeds[i] == bars@[start_index + i].close * FEED_SCALE);
            }
            lemma_crosses_indices(feeds);
        }

        let mut results: Vec<MacdResult> = Vec::new();
        let mut macd_crosses: Vec<MacdCross> = Vec::new();
        let mut k: usize = 0;
        while k <= INTERVALS
            invariant
                start_index + INTERVALS == end_index < n == bars@.len(),
                k <= INTERVALS + 1,
                feeds == spec_feeds(bars@, end_index as int),
                spec_feeds_in_range(feeds, STATE_BOUND as int),
                self.tracks(feeds.take(k as int)),
                self.stock_no@ == old(self).stock_no@,
                results@.len() == k,
                ({
                    let cs = spec_crosses(feeds.take(k as int));
                    &&& macd_crosses@.len() == cs.len()
                    &&& forall|j: int| 0 <= j < cs.len() ==> {
                        &&& (#[trigger] macd_crosses@[j]).cross_type == cs[j].1
                        &&& macd_crosses@[j].date == bars@[start_index + cs[j].0].date
                        &&& macd_crosses@[j].stock_no@ == old(self).stock_no@
                    }
                }),
            decreases INTERVALS + 1 - k,
        {
            let ghost fed = feeds.take(k as int);
            let idx = start_index + k;
            let close_scaled = (bars[idx].close as i64) * FEED_SCALE;
            proof {
                assert(feeds[k as int] == bars@[idx as int].close * FEED_SCALE);
                assert(fed.push(close_scaled as int) =~= feeds.take(k as int + 1));
                lemma_crosses_indices(feeds.take(k as int + 1));
                assert(feeds.take(k as int + 1).drop_last() =~= fed);
            }
            let (res, cross) = self.feed(bars[idx].date, close_scaled, Ghost(fed));
            results.push(res);
            proof {
                let ys = feeds.take(k as int + 1);
                assert(spec_golden_at(ys, k as int) == spec_golden_at(
                    fed.push(close_scaled as int),
                    k as int,
                ));
            }
            if let Some(c) = cross {
                macd_crosses.push(c);
            }
            k = k + 1;
        }

        proof {
            assert(feeds.take(INTERVALS + 1) =~= feeds);
        }
        Some((results, macd_crosses))
    }
}

} // verus!
