//! Per-symbol bar series: one day's OHLCV record, and the date-sorted
//! sequence of such records owned by a single listed company.

use vstd::prelude::*;

verus! {

/// One day's OHLCV record for a symbol.
///
/// Prices (`open`, `high`, `low`, `close`, `change`) are integers in
/// hundredths of a currency unit; `date` is the trading day in compact
/// numeric `YYYYMMDD` form; `volume` counts shares and `turnover` counts
/// currency units.
#[derive(Clone, Copy, PartialEq, Eq, Structural, Debug)]
pub struct StockData {
    pub date: u32,
    pub open: u32,
    pub high: u32,
    pub low: u32,
    pub close: u32,
    pub volume: u64,
    pub turnover: u64,
    pub change: i64,
}

/// A bar tagged with the symbol it belongs to: the output unit of every
/// detector.
#[derive(Clone, Debug)]
pub struct StockDataWithNo {
    pub stock_no: String,
    pub stock_data: StockData,
}

/// All bars held for one symbol, strictly increasing by date once
/// constructed through [`DataCompany::new`].
pub struct DataCompany {
    pub stock_no: String,
    pub stock_data: Vec<StockData>,
}

/// Largest per-bar share count the engine accepts, so that any windowed sum
/// of volumes provably fits in a `u64`.
pub const VOLUME_MAX: u64 = 0x100_0000_0000_0000;

/// Dates strictly increase along the sequence; in particular no date repeats.
pub open spec fn spec_dates_sorted(bars: Seq<StockData>) -> bool {
    forall|i: int, j: int| 0 <= i < j < bars.len() ==> bars[i].date < bars[j].date
}

/// Every bar's volume stays under [`VOLUME_MAX`].
pub open spec fn spec_volumes_ok(bars: Seq<StockData>) -> bool {
    forall|i: int| 0 <= i < bars.len() ==> bars[i].volume <= VOLUME_MAX
}

/// Index of the first bar carrying `date`, if any.
pub open spec fn spec_index_of(bars: Seq<StockData>, date: u32) -> Option<int>
    decreases bars.len(),
{
    if bars.len() == 0 {
        None
    } else if bars[0].date == date {
        Some(0)
    } else {
        match spec_index_of(bars.drop_first(), date) {
            Some(i) => Some(i + 1),
            None => None,
        }
    }
}

/// What `spec_index_of` returns: the first matching position, or nothing
/// when no bar carries the date.
pub proof fn lemma_spec_index_of(bars: Seq<StockData>, date: u32)
    ensures
        match spec_index_of(bars, date) {
            Some(i) => 0 <= i < bars.len() && bars[i].date == date
                && (forall|k: int| 0 <= k < i ==> bars[k].date != date),
            None => forall|k: int| 0 <= k < bars.len() ==> bars[k].date != date,
        },
    decreases bars.len(),
{
    if bars.len() != 0 && bars[0].date != date {
        lemma_spec_index_of(bars.drop_first(), date);
        if spec_index_of(bars.drop_first(), date) is Some {
            let i = spec_index_of(bars.drop_first(), date).unwrap();
            assert(bars[i + 1] == bars.drop_first()[i]);
            assert forall|k: int| 0 <= k < i + 1 implies bars[k].date != date by {
                if k > 0 {
                    assert(bars.drop_first()[k - 1] == bars[k]);
                }
            }
        } else {
            assert forall|k: int| 0 <= k < bars.len() implies bars[k].date != date by {
                if k > 0 {
                    assert(bars.drop_first()[k - 1] == bars[k]);
                }
            }
        }
    }
}

/// The converse: a first match at `i` pins `spec_index_of` to `Some(i)`.
pub proof fn lemma_index_of_first_match(bars: Seq<StockData>, date: u32, i: int)
    requires
        0 <= i < bars.len(),
        bars[i].date == date,
        forall|k: int| 0 <= k < i ==> bars[k].date != date,
    ensures
        spec_index_of(bars, date) == Some(i),
    decreases bars.len(),
{
    if i > 0 {
        assert(bars.drop_first()[i - 1].date == date);
        assert forall|k: int| 0 <= k < i - 1 implies bars.drop_first()[k].date != date by {
            assert(bars.drop_first()[k] == bars[k + 1]);
        }
        lemma_index_of_first_match(bars.drop_first(), date, i - 1);
    }
}

impl DataCompany {
    /// The construction-time invariant: bars strictly increase by date and
    /// carry plausible volumes.
    pub open spec fn wf(&self) -> bool {
        spec_dates_sorted(self.stock_data@) && spec_volumes_ok(self.stock_data@)
    }

    /// Accepts a series only when the provider handed it over already
    /// date-sorted ascending with no duplicate dates and sane volumes.
    pub fn new(stock_no: String, stock_data: Vec<StockData>) -> (r: Option<DataCompany>)
        ensures
            (r is Some) == (spec_dates_sorted(stock_data@) && spec_volumes_ok(stock_data@)),
            r matches Some(dc) ==> dc.stock_no@ == stock_no@
                && dc.stock_data@ == stock_data@
                && dc.wf(),
    {
        if check_series(&stock_data) {
            Some(DataCompany { stock_no, stock_data })
        } else {
            None
        }
    }

    /// Position of `date` in this series, if the market traded that day.
    pub fn index_of(&self, date: u32) -> (r: Option<usize>)
        ensures
            match r {
                Some(i) => spec_index_of(self.stock_data@, date) == Some(i as int),
                None => spec_index_of(self.stock_data@, date) is None,
            },
    {
        let n = self.stock_data.len();
        let mut i: usize = 0;
        while i < n
            invariant
                n == self.stock_data@.len(),
                i <= n,
                forall|k: int| 0 <= k < i ==> self.stock_data@[k].date != date,
            decreases n - i,
        {
            if self.stock_data[i].date == date {
                proof {
                    lemma_index_of_first_match(self.stock_data@, date, i as int);
                }
                return Some(i);
            }
            i = i + 1;
        }
        proof {
            lemma_spec_index_of(self.stock_data@, date);
        }
        None
    }

    /// The bar at `index`, which must exist.
    pub fn at(&self, index: usize) -> (r: &StockData)
        requires
            index < self.stock_data@.len(),
        ensures
            *r == self.stock_data@[index as int],
    {
        &self.stock_data[index]
    }

    /// Bounds-checked windowed slice: the `length` bars ending at
    /// `end_index`, inclusive.  Fails exactly when the series holds fewer
    /// than `length` bars up to that index; throughout the engine this is a
    /// soft skip, never a crash.
    pub fn window(&self, end_index: usize, length: usize) -> (r: Option<&[StockData]>)
        ensures
            (r is Some) == (end_index < self.stock_data@.len() && 1 <= length <= end_index + 1),
            r matches Some(w) ==> w@ == self.stock_data@.subrange(
                end_index + 1 - length,
                end_index + 1,
            ),
    {
        if length >= 1 && end_index < self.stock_data.len() && length <= end_index + 1 {
            Some(
                vstd::slice::slice_subrange(
                    self.stock_data.as_slice(),
                    end_index + 1 - length,
                    end_index + 1,
                ),
            )
        } else {
            None
        }
    }

    /// The bar traded on `date`, if any.
    pub fn get_stock_data_by_date(&self, date: u32) -> (r: Option<&StockData>)
        ensures
            match r {
                Some(bar) => {
                    &&& spec_index_of(self.stock_data@, date) matches Some(i)
                    &&& *bar == self.stock_data@[spec_index_of(self.stock_data@, date).unwrap()]
                    &&& bar.date == date
                },
                None => spec_index_of(self.stock_data@, date) is None,
            },
    {
        proof {
            lemma_spec_index_of(self.stock_data@, date);
        }
        match self.index_of(date) {
            Some(i) => Some(&self.stock_data[i]),
            None => None,
        }
    }
}

/// Whether a series meets the construction invariant: strictly increasing
/// dates and capped volumes.
pub fn check_series(bars: &Vec<StockData>) -> (b: bool)
    ensures
        b == (spec_dates_sorted(bars@) && spec_volumes_ok(bars@)),
{
    let n = bars.len();
    let mut i: usize = 0;
    while i < n
        invariant
            n == bars@.len(),
            i <= n,
            forall|k: int| 0 <= k < i && k + 1 < n
                ==> #[trigger] bars@[k].date < bars@[k + 1].date,
            forall|k: int| 0 <= k < i ==> #[trigger] bars@[k].volume <= VOLUME_MAX,
        decreases n - i,
    {
        if i + 1 < n && bars[i].date >= bars[i + 1].date {
            return false;
        }
        if bars[i].volume > VOLUME_MAX {
            return false;
        }
        i = i + 1;
    }
    proof {
        lemma_adjacent_sorted(bars@);
    }
    true
}

/// In a date-sorted series, looking a bar's own date up finds that bar.
pub proof fn lemma_sorted_index_of(bars: Seq<StockData>, k: int)
    requires
        spec_dates_sorted(bars),
        0 <= k < bars.len(),
    ensures
        spec_index_of(bars, bars[k].date) == Some(k),
{
    assert forall|j: int| 0 <= j < k implies bars[j].date != bars[k].date by {
        assert(bars[j].date < bars[k].date);
    }
    lemma_index_of_first_match(bars, bars[k].date, k);
}

/// Pairwise-adjacent ordering extends to the whole sequence.
proof fn lemma_adjacent_sorted(bars: Seq<StockData>)
    requires
        forall|k: int| 0 <= k < bars.len() - 1 ==> #[trigger] bars[k].date < bars[k + 1].date,
    ensures
        spec_dates_sorted(bars),
{
    assert forall|i: int, j: int| 0 <= i < j < bars.len() implies bars[i].date < bars[j].date by {
        lemma_adjacent_sorted_step(bars, i, j);
    }
}

proof fn lemma_adjacent_sorted_step(bars: Seq<StockData>, i: int, j: int)
    requires
        forall|k: int| 0 <= k < bars.len() - 1 ==> #[trigger] bars[k].date < bars[k + 1].date,
        0 <= i < j < bars.len(),
    ensures
        bars[i].date < bars[j].date,
    decreases j - i,
{
    if i + 1 < j {
        lemma_adjacent_sorted_step(bars, i + 1, j);
    }
}

} // verus!
