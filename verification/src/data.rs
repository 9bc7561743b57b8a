//! The scanned universe: company metadata, the industry table, and the
//! per-symbol bar series aligned with it.

use vstd::prelude::*;
use crate::common::str_eq;
use crate::data_company::{DataCompany, StockData, StockDataWithNo};

verus! {

/// Metadata of one listed company.
#[derive(Clone, Debug)]
pub struct CompanyInfo {
    pub stock_no: String,
    pub name: String,
    pub industry: String,
}

/// Company metadata for the whole universe, with the industry code table
/// used to render display names.
pub struct CompanyMap {
    pub stock_map: Vec<CompanyInfo>,
    pub industry_map: Vec<(String, String)>,
}

/// The industry code table: exchange industry code to display name.
pub open spec fn spec_industry_table() -> Seq<(Seq<char>, Seq<char>)> {
    seq![
        ("01"@, "水泥工業"@),
        ("02"@, "食品工業"@),
        ("03"@, "塑膠工業"@),
        ("04"@, "紡織纖維"@),
        ("05"@, "電機機械"@),
        ("06"@, "電器電纜"@),
        ("08"@, "玻璃陶瓷"@),
        ("09"@, "造紙工業"@),
        ("10"@, "鋼鐵工業"@),
        ("11"@, "橡膠工業"@),
        ("12"@, "汽車工業"@),
        ("13"@, "電子工業"@),
        ("14"@, "建材營造業"@),
        ("15"@, "航運業"@),
        ("16"@, "觀光餐旅"@),
        ("17"@, "金融保險業"@),
        ("18"@, "貿易百貨業"@),
        ("19"@, "綜合"@),
        ("20"@, "其他業"@),
        ("21"@, "化學工業"@),
        ("22"@, "生技醫療業"@),
        ("23"@, "油電燃氣業"@),
        ("24"@, "半導體業"@),
        ("25"@, "電腦及週邊設備業"@),
        ("26"@, "光電業"@),
        ("27"@, "通信網路業"@),
        ("28"@, "電子零組件業"@),
        ("29"@, "電子通路業"@),
        ("30"@, "資訊服務業"@),
        ("31"@, "其他電子業"@),
        ("32"@, "文化創意業"@),
        ("33"@, "農業科技業"@),
        ("34"@, "電子商務"@),
        ("35"@, "綠能環保"@),
        ("36"@, "數位雲端"@),
        ("37"@, "運動休閒"@),
        ("38"@, "居家生活"@),
    ]
}

/// Builds the industry code table.
pub fn build_industry_map() -> (r: Vec<(String, String)>)
    ensures
        r@.map_values(|p: (String, String)| (p.0@, p.1@)) == spec_industry_table(),
{
    let mut m: Vec<(String, String)> = Vec::new();
    m.push((String::from_str("01"), String::from_str("水泥工業")));
    m.push((String::from_str("02"), String::from_str("食品工業")));
    m.push((String::from_str("03"), String::from_str("塑膠工業")));
    m.push((String::from_str("04"), String::from_str("紡織纖維")));
    m.push((String::from_str("05"), String::from_str("電機機械")));
    m.push((String::from_str("06"), String::from_str("電器電纜")));
    m.push((String::from_str("08"), String::from_str("玻璃陶瓷")));
    m.push((String::from_str("09"), String::from_str("造紙工業")));
    m.push((String::from_str("10"), String::from_str("鋼鐵工業")));
    m.push((String::from_str("11"), String::from_str("橡膠工業")));
    m.push((String::from_str("12"), String::from_str("汽車工業")));
    m.push((String::from_str("13"), String::from_str("電子工業")));
    m.push((String::from_str("14"), String::from_str("建材營造業")));
    m.push((String::from_str("15"), String::from_str("航運業")));
    m.push((String::from_str("16"), String::from_str("觀光餐旅")));
    m.push((String::from_str("17"), String::from_str("金融保險業")));
    m.push((String::from_str("18"), String::from_str("貿易百貨業")));
    m.push((String::from_str("19"), String::from_str("綜合")));
    m.push((String::from_str("20"), String::from_str("其他業")));
    m.push((String::from_str("21"), String::from_str("化學工業")));
    m.push((String::from_str("22"), String::from_str("生技醫療業")));
    m.push((String::from_str("23"), String::from_str("油電燃氣業")));
    m.push((String::from_str("24"), String::from_str("半導體業")));
    m.push((String::from_str("25"), String::from_str("電腦及週邊設備業")));
    m.push((String::from_str("26"), String::from_str("光電業")));
    m.push((String::from_str("27"), String::from_str("通信網路業")));
    m.push((String::from_str("28"), String::from_str("電子零組件業")));
    m.push((String::from_str("29"), String::from_str("電子通路業")));
    m.push((String::from_str("30"), String::from_str("資訊服務業")));
    m.push((String::from_str("31"), String::from_str("其他電子業")));
    m.push((String::from_str("32"), String::from_str("文化創意業")));
    m.push((String::from_str("33"), String::from_str("農業科技業")));
    m.push((String::from_str("34"), String::from_str("電子商務")));
    m.push((String::from_str("35"), String::from_str("綠能環保")));
    m.push((String::from_str("36"), String::from_str("數位雲端")));
    m.push((String::from_str("37"), String::from_str("運動休閒")));
    m.push((String::from_str("38"), String::from_str("居家生活")));
    proof {
        assert(m@.map_values(|p: (String, String)| (p.0@, p.1@)) =~= spec_industry_table());
    }
    m
}

/// Name of the industry `code` in the table, or the unknown-industry label.
pub open spec fn spec_industry_lookup(map: Seq<(String, String)>, code: Seq<char>) -> Seq<char>
    decreases map.len(),
{
    if map.len() == 0 {
        "未知產業"@
    } else if map[0].0@ == code {
        map[0].1@
    } else {
        spec_industry_lookup(map.drop_first(), code)
    }
}

/// Index of the first company carrying `stock_no`, if any.
pub open spec fn spec_company_index_of(infos: Seq<CompanyInfo>, stock_no: Seq<char>) -> Option<
    int,
>
    decreases infos.len(),
{
    if infos.len() == 0 {
        None
    } else if infos[0].stock_no@ == stock_no {
        Some(0)
    } else {
        match spec_company_index_of(infos.drop_first(), stock_no) {
            Some(i) => Some(i + 1),
            None => None,
        }
    }
}

/// A company with this symbol exists in the list.
pub open spec fn spec_has_company(infos: Seq<CompanyInfo>, stock_no: Seq<char>) -> bool {
    spec_company_index_of(infos, stock_no) is Some
}

/// A first match at `i` pins `spec_company_index_of` to `Some(i)`.
proof fn lemma_company_first_match(infos: Seq<CompanyInfo>, stock_no: Seq<char>, i: int)
    requires
        0 <= i < infos.len(),
        infos[i].stock_no@ == stock_no,
        forall|k: int| 0 <= k < i ==> infos[k].stock_no@ != stock_no,
    ensures
        spec_company_index_of(infos, stock_no) == Some(i),
    decreases infos.len(),
{
    if i > 0 {
        assert(infos.drop_first()[i - 1] == infos[i]);
        assert forall|k: int| 0 <= k < i - 1 implies infos.drop_first()[k].stock_no@ != stock_no by {
            assert(infos.drop_first()[k] == infos[k + 1]);
        }
        lemma_company_first_match(infos.drop_first(), stock_no, i - 1);
    }
}

/// When no company matches, `spec_company_index_of` finds nothing.
proof fn lemma_company_no_match(infos: Seq<CompanyInfo>, stock_no: Seq<char>)
    requires
        forall|k: int| 0 <= k < infos.len() ==> infos[k].stock_no@ != stock_no,
    ensures
        spec_company_index_of(infos, stock_no) is None,
    decreases infos.len(),
{
    if infos.len() > 0 {
        assert forall|k: int| 0 <= k < infos.len() - 1 implies infos.drop_first()[k].stock_no@
            != stock_no by {
            assert(infos.drop_first()[k] == infos[k + 1]);
        }
        lemma_company_no_match(infos.drop_first(), stock_no);
    }
}

/// The display name: company short name, a slash, and the industry name.
pub open spec fn spec_company_display_name(
    infos: Seq<CompanyInfo>,
    imap: Seq<(String, String)>,
    stock_no: Seq<char>,
) -> Seq<char> {
    let c = infos[spec_company_index_of(infos, stock_no).unwrap()];
    c.name@ + "/"@ + spec_industry_lookup(imap, c.industry@)
}

impl CompanyMap {
    /// Wraps the provider-supplied company list with the industry table.
    pub fn new(stock_map: Vec<CompanyInfo>) -> (m: CompanyMap)
        ensures
            m.stock_map@ == stock_map@,
            m.industry_map@.map_values(|p: (String, String)| (p.0@, p.1@))
                == spec_industry_table(),
    {
        let industry_map = build_industry_map();
        CompanyMap { stock_map, industry_map }
    }

    /// Display name of the company carrying `stock_no`, which must exist in
    /// the universe.
    pub fn get_name(&self, stock_no: &str) -> (r: String)
        requires
            spec_has_company(self.stock_map@, stock_no@),
        ensures
            r@ == spec_company_display_name(self.stock_map@, self.industry_map@, stock_no@),
    {
        let n = self.stock_map.len();
        let mut i: usize = 0;
        while i < n
            invariant
                n == self.stock_map@.len(),
                i <= n,
                spec_has_company(self.stock_map@, stock_no@),
                forall|k: int| 0 <= k < i ==> self.stock_map@[k].stock_no@ != stock_no@,
            decreases n - i,
        {
            let company = &self.stock_map[i];
            if str_eq(company.stock_no.as_str(), stock_no) {
                proof {
                    lemma_company_first_match(self.stock_map@, stock_no@, i as int);
                }
                let mut r = company.name.clone();
                r.append("/");
                let ind = self.industry_name(&company.industry);
                r.append(ind.as_str());
                return r;
            }
            i = i + 1;
        }
        proof {
            lemma_company_no_match(self.stock_map@, stock_no@);
        }
        // unreachable: the company was required to exist
        String::new()
    }

    /// Name of the industry `code`, or the unknown-industry label.
    fn industry_name(&self, code: &String) -> (r: String)
        ensures
            r@ == spec_industry_lookup(self.industry_map@, code@),
    {
        let n = self.industry_map.len();
        proof {
            assert(self.industry_map@.skip(0) =~= self.industry_map@);
        }
        let mut i: usize = 0;
        while i < n
            invariant
                n == self.industry_map@.len(),
                i <= n,
                spec_industry_lookup(self.industry_map@, code@) == spec_industry_lookup(
                    self.industry_map@.skip(i as int),
                    code@,
                ),
            decreases n - i,
        {
            proof {
                assert(self.industry_map@.skip(i as int)[0] == self.industry_map@[i as int]);
                assert(self.industry_map@.skip(i as int).drop_first() =~= self.industry_map@.skip(
                    i as int + 1,
                ));
            }
            if str_eq(self.industry_map[i].0.as_str(), code.as_str()) {
                return self.industry_map[i].1.clone();
            }
            i = i + 1;
        }
        proof {
            assert(self.industry_map@.skip(n as int) =~= Seq::<(String, String)>::empty());
        }
        String::from_str("未知產業")
    }
}

/// One symbol's metadata paired with its bar series, index-aligned.
pub struct Data {
    pub company_map: CompanyMap,
    pub data_company: Vec<DataCompany>,
}

/// Metadata and bar series align: same length, matching symbols, and every
/// series well-formed.
pub open spec fn spec_aligned(infos: Seq<CompanyInfo>, dcs: Seq<DataCompany>) -> bool {
    &&& infos.len() == dcs.len()
    &&& forall|i: int| 0 <= i < dcs.len() ==> (#[trigger] dcs[i]).stock_no@ == infos[i].stock_no@
    &&& forall|i: int| 0 <= i < dcs.len() ==> (#[trigger] dcs[i]).wf()
}

impl Data {
    /// The universe invariant every scan relies on.
    pub open spec fn wf(&self) -> bool {
        spec_aligned(self.company_map.stock_map@, self.data_company@)
    }

    /// The scan view: each company's symbol paired with its bars.
    pub open spec fn spec_companies(&self) -> Seq<(Seq<char>, Seq<StockData>)> {
        Seq::new(
            self.company_map.stock_map@.len(),
            |i: int|
                (
                    self.company_map.stock_map@[i].stock_no@,
                    self.data_company@[i].stock_data@,
                ),
        )
    }

    /// Accepts a universe only when metadata and series align symbol for
    /// symbol and every series satisfies its construction invariant.
    pub fn new(company_map: CompanyMap, data_company: Vec<DataCompany>) -> (r: Option<Data>)
        ensures
            (r is Some) == spec_aligned(company_map.stock_map@, data_company@),
            r matches Some(d) ==> d.company_map.stock_map@ == company_map.stock_map@
                && d.company_map.industry_map@ == company_map.industry_map@
                && d.data_company@ == data_company@
                && d.wf(),
    {
        if company_map.stock_map.len() != data_company.len() {
            return None;
        }
        let n = data_company.len();
        let mut i: usize = 0;
        while i < n
            invariant
                n == data_company@.len() == company_map.stock_map@.len(),
                i <= n,
                forall|k: int| 0 <= k < i ==> (#[trigger] data_company@[k]).stock_no@
                    == company_map.stock_map@[k].stock_no@,
                forall|k: int| 0 <= k < i ==> (#[trigger] data_company@[k]).wf(),
            decreases n - i,
        {
            let dc = &data_company[i];
            if !str_eq(dc.stock_no.as_str(), company_map.stock_map[i].stock_no.as_str()) {
                return None;
            }
            if !crate::data_company::check_series(&dc.stock_data) {
                return None;
            }
            i = i + 1;
        }
        Some(Data { company_map, data_company })
    }
}

/// First series in the universe belonging to `stock_no`, if any.
pub open spec fn spec_dc_index_of(dcs: Seq<DataCompany>, stock_no: Seq<char>) -> Option<int>
    decreases dcs.len(),
{
    if dcs.len() == 0 {
        None
    } else if dcs[0].stock_no@ == stock_no {
        Some(0)
    } else {
        match spec_dc_index_of(dcs.drop_first(), stock_no) {
            Some(i) => Some(i + 1),
            None => None,
        }
    }
}

/// A first match at `i` pins `spec_dc_index_of` to `Some(i)`.
proof fn lemma_dc_first_match(dcs: Seq<DataCompany>, stock_no: Seq<char>, i: int)
    requires
        0 <= i < dcs.len(),
        dcs[i].stock_no@ == stock_no,
        forall|k: int| 0 <= k < i ==> dcs[k].stock_no@ != stock_no,
    ensures
        spec_dc_index_of(dcs, stock_no) == Some(i),
    decreases dcs.len(),
{
    if i > 0 {
        assert(dcs.drop_first()[i - 1] == dcs[i]);
        assert forall|k: int| 0 <= k < i - 1 implies dcs.drop_first()[k].stock_no@ != stock_no by {
            assert(dcs.drop_first()[k] == dcs[k + 1]);
        }
        lemma_dc_first_match(dcs.drop_first(), stock_no, i - 1);
    }
}

/// The bar series held for `stock_no`, which must exist in the universe.
pub fn get_company_data<'a>(data: &'a Data, stock_no: &str) -> (r: &'a DataCompany)
    requires
        spec_dc_index_of(data.data_company@, stock_no@) is Some,
    ensures
        0 <= spec_dc_index_of(data.data_company@, stock_no@).unwrap()
            < data.data_company@.len(),
        *r == data.data_company@[spec_dc_index_of(data.data_company@, stock_no@).unwrap()],
        r.stock_no@ == stock_no@,
{
    proof {
        lemma_spec_dc_index_of(data.data_company@, stock_no@);
    }
    let n = data.data_company.len();
    let mut i: usize = 0;
    while i < n
        invariant
            n == data.data_company@.len(),
            i <= n,
            spec_dc_index_of(data.data_company@, stock_no@) is Some,
            forall|k: int| 0 <= k < i ==> data.data_company@[k].stock_no@ != stock_no@,
        decreases n - i,
    {
        let dc = &data.data_company[i];
        if str_eq(dc.stock_no.as_str(), stock_no) {
            proof {
                lemma_dc_first_match(data.data_company@, stock_no@, i as int);
            }
            return dc;
        }
        i = i + 1;
    }
    proof {
        lemma_spec_dc_index_of(data.data_company@, stock_no@);
    }
    // unreachable: the series was required to exist
    &data.data_company[0]
}

/// What `spec_dc_index_of` returns, in both directions.
proof fn lemma_spec_dc_index_of(dcs: Seq<DataCompany>, stock_no: Seq<char>)
    ensures
        match spec_dc_index_of(dcs, stock_no) {
            Some(i) => 0 <= i < dcs.len() && dcs[i].stock_no@ == stock_no,
            None => forall|k: int| 0 <= k < dcs.len() ==> dcs[k].stock_no@ != stock_no,
        },
    decreases dcs.len(),
{
    if dcs.len() > 0 && dcs[0].stock_no@ != stock_no {
        lemma_spec_dc_index_of(dcs.drop_first(), stock_no);
        if spec_dc_index_of(dcs.drop_first(), stock_no) is Some {
            let i = spec_dc_index_of(dcs.drop_first(), stock_no).unwrap();
            assert(dcs[i + 1] == dcs.drop_first()[i]);
        } else {
            assert forall|k: int| 0 <= k < dcs.len() implies dcs[k].stock_no@ != stock_no by {
                if k > 0 {
                    assert(dcs.drop_first()[k - 1] == dcs[k]);
                }
            }
        }
    }
}

/// A symbol paired with the bars a per-company detector matched there.
pub open spec fn spec_pair_up(stock_no: Seq<char>, bars: Seq<StockData>) -> Seq<
    (Seq<char>, StockData),
> {
    bars.map_values(|b: StockData| (stock_no, b))
}

/// A whole-universe scan: every company's matches, in universe order.
pub open spec fn spec_scan(
    companies: Seq<(Seq<char>, Seq<StockData>)>,
    pred: spec_fn(Seq<StockData>) -> Seq<StockData>,
) -> Seq<(Seq<char>, StockData)>
    decreases companies.len(),
{
    if companies.len() == 0 {
        Seq::empty()
    } else {
        spec_scan(companies.drop_last(), pred) + spec_pair_up(
            companies.last().0,
            pred(companies.last().1),
        )
    }
}

/// The symbol/bar view of a detector's result list.
pub open spec fn spec_matches_view(rs: Seq<StockDataWithNo>) -> Seq<(Seq<char>, StockData)> {
    rs.map_values(|x: StockDataWithNo| (x.stock_no@, x.stock_data))
}

/// A detector's per-company matches, 0 or 1 of them, as a sequence.
pub open spec fn spec_opt_to_seq(o: Option<StockData>) -> Seq<StockData> {
    match o {
        Some(b) => seq![b],
        None => Seq::empty(),
    }
}

/// Scanning one more company appends that company's matches.
pub proof fn lemma_scan_step(
    companies: Seq<(Seq<char>, Seq<StockData>)>,
    pred: spec_fn(Seq<StockData>) -> Seq<StockData>,
    i: int,
)
    requires
        0 <= i < companies.len(),
    ensures
        spec_scan(companies.take(i + 1), pred) == spec_scan(companies.take(i), pred)
            + spec_pair_up(companies[i].0, pred(companies[i].1)),
{
    assert(companies.take(i + 1).drop_last() =~= companies.take(i));
    assert(companies.take(i + 1).last() == companies[i]);
}

/// Extending a partial scan result with company `i`'s matches yields the
/// partial scan result through company `i`.
pub proof fn lemma_scan_step_append(
    companies: Seq<(Seq<char>, Seq<StockData>)>,
    pred: spec_fn(Seq<StockData>) -> Seq<StockData>,
    i: int,
    prior: Seq<StockDataWithNo>,
    add: Seq<StockDataWithNo>,
)
    requires
        0 <= i < companies.len(),
        spec_matches_view(prior) == spec_scan(companies.take(i), pred),
        spec_matches_view(add) == spec_pair_up(companies[i].0, pred(companies[i].1)),
    ensures
        spec_matches_view(prior + add) == spec_scan(companies.take(i + 1), pred),
{
    lemma_scan_step(companies, pred, i);
    assert(spec_matches_view(prior + add) =~= spec_matches_view(prior) + spec_matches_view(add));
}

/// The no-match step: the partial scan result is unchanged.
pub proof fn lemma_scan_step_skip(
    companies: Seq<(Seq<char>, Seq<StockData>)>,
    pred: spec_fn(Seq<StockData>) -> Seq<StockData>,
    i: int,
    prior: Seq<StockDataWithNo>,
)
    requires
        0 <= i < companies.len(),
        spec_matches_view(prior) == spec_scan(companies.take(i), pred),
        pred(companies[i].1) == Seq::<StockData>::empty(),
    ensures
        spec_matches_view(prior) == spec_scan(companies.take(i + 1), pred),
{
    assert(spec_matches_view(prior + Seq::empty()) =~= spec_matches_view(prior));
    assert(spec_matches_view(Seq::<StockDataWithNo>::empty()) =~= spec_pair_up(
        companies[i].0,
        pred(companies[i].1),
    ));
    lemma_scan_step_append(companies, pred, i, prior, Seq::empty());
}

/// The one-match step: the partial scan result grows by that match.
pub proof fn lemma_scan_step_push(
    companies: Seq<(Seq<char>, Seq<StockData>)>,
    pred: spec_fn(Seq<StockData>) -> Seq<StockData>,
    i: int,
    prior: Seq<StockDataWithNo>,
    x: StockDataWithNo,
)
    requires
        0 <= i < companies.len(),
        spec_matches_view(prior) == spec_scan(companies.take(i), pred),
        pred(companies[i].1) == seq![x.stock_data],
        x.stock_no@ == companies[i].0,
    ensures
        spec_matches_view(prior.push(x)) == spec_scan(companies.take(i + 1), pred),
{
    assert(spec_matches_view(seq![x]) =~= spec_pair_up(companies[i].0, pred(companies[i].1)));
    assert(prior.push(x) =~= prior + seq![x]);
    lemma_scan_step_append(companies, pred, i, prior, seq![x]);
}

} // verus!
