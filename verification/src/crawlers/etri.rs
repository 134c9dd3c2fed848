//! ETRI, the Electronics and Telecommunications Research Institute: its
//! electronic bidding list.
use crate::crawlers::base::{
    lemma_prefixed_starts, tagged,
    longest_cell, longest_cell_exec, pattern, prefixed, selector, spec_trimmed, trimmed_text, Crawler, ScrapeError,
};
use crate::dom::{spec_attr, spec_css_ok, spec_node_count, spec_select_doc, spec_select_in, Css, Page};
use crate::models::{views, Announcement, AnnouncementView};
use crate::pattern::{spec_capture, spec_regex_ok, Pattern};
use crate::text::{byte_prefix, byte_prefix_exec, concat, from_chars, strip, strip_char, to_chars, trim, trim_seq};
use vstd::prelude::*;

verus! {

broadcast use vstd::seq_lib::group_seq_properties;

/// The crawler of ETRI.
pub struct EtriCrawler {
    timeout: u64,
}

/// The page that lists the bids.
pub const ETRI_LIST_URL: &'static str = "https://ebid.etri.re.kr/ebid/main.do?tabId=&g2b_conn=&dev=ebidList&biNo=&loginpage=Y&login_regnum=&pgmUrl=.%2Febid%2FebidCustProgressList.do&pageGb=";

/// The pattern that finds a bid's number in a cell's click handler.
pub open spec fn etri_onclick() -> Seq<char> {
    "fnDetailCustView\\('([^']+)'\\)"@
}

/// The pattern of a cell that begins with a date.
pub open spec fn etri_date_pattern() -> Seq<char> {
    "^\\d{4}-\\d{2}-\\d{2}"@
}

/// The selectors that the listing needs both parse.
pub open spec fn etri_selectors_ok() -> bool {
    spec_css_ok("tr[onmouseover]"@) && spec_css_ok("td"@)
}

/// The patterns that the listing needs both parse.
pub open spec fn etri_patterns_ok() -> bool {
    spec_regex_ok(etri_onclick()) && spec_regex_ok(etri_date_pattern())
}

/// The bid number: from the click handler of the first cell whose handler holds one.
pub open spec fn etri_bid_no(src: Seq<char>, tds: Seq<usize>) -> Option<Seq<char>>
    decreases tds.len(),
{
    if tds.len() == 0 {
        None
    } else {
        match etri_bid_no(src, tds.drop_last()) {
            Some(x) => Some(x),
            None => match spec_attr(src, tds.last(), "onclick"@) {
                Some(o) => spec_capture(etri_onclick(), o, 1),
                None => None,
            },
        }
    }
}

/// The first ten bytes of each cell that begins with a date, in order; `None`
/// where such a cut would fall inside a character.
pub open spec fn etri_dates(src: Seq<char>, tds: Seq<usize>) -> Option<Seq<Seq<char>>>
    decreases tds.len(),
{
    if tds.len() == 0 {
        Some(Seq::empty())
    } else {
        match etri_dates(src, tds.drop_last()) {
            None => None,
            Some(prev) => {
                let t = spec_trimmed(src, tds.last());
                if spec_capture(etri_date_pattern(), t, 0) is Some {
                    match byte_prefix(t, 10) {
                        Some(p) => Some(prev.push(p)),
                        None => None,
                    }
                } else {
                    Some(prev)
                }
            },
        }
    }
}

/// A bid's title: the text of the longest cell, trimmed, stripped of double
/// quotes at either end, and trimmed again.
pub open spec fn etri_title(src: Seq<char>, tds: Seq<usize>) -> Seq<char> {
    match longest_cell(src, tds) {
        Some(c) => trim_seq(strip_char(spec_trimmed(src, c), '"')),
        None => Seq::empty(),
    }
}

/// What a table row gives: nothing for a row with fewer than three cells, no bid
/// number or an empty title; else the bid, dated by the first two date cells.
/// `Err` where a date cell cannot be cut.
#[verifier::opaque]
pub open spec fn etri_row(src: Seq<char>, tr: usize) -> Result<Option<AnnouncementView>, ()> {
    let tds = spec_select_in(src, tr, "td"@);
    if tds.len() < 3 {
        Ok(None)
    } else {
        match etri_bid_no(src, tds) {
            None => Ok(None),
            Some(no) => if etri_title(src, tds).len() == 0 {
                Ok(None)
            } else {
                match etri_dates(src, tds) {
                    None => Err(()),
                    Some(ds) => Ok(
                        Some(
                            AnnouncementView {
                                id: "etri_"@ + no,
                                title: etri_title(src, tds),
                                url: "https://ebid.etri.re.kr/ebid/ebidCustProgressView.do?biNo="@
                                    + no,
                                source: "ETRI"@,
                                date: if ds.len() > 0 {
                                    Some(ds[0])
                                } else {
                                    None
                                },
                                agency: None,
                                deadline: if ds.len() > 1 {
                                    Some(ds[1])
                                } else {
                                    None
                                },
                                matched_keywords: Seq::empty(),
                                extra: Map::empty(),
                            },
                        ),
                    ),
                }
            },
        }
    }
}

/// The bids of the rows `trs`, in order; `Err` where some row fails.
pub open spec fn etri_rows(src: Seq<char>, trs: Seq<usize>) -> Result<Seq<AnnouncementView>, ()>
    decreases trs.len(),
{
    if trs.len() == 0 {
        Ok(Seq::empty())
    } else {
        match etri_rows(src, trs.drop_last()) {
            Err(()) => Err(()),
            Ok(prev) => match etri_row(src, trs.last()) {
                Err(()) => Err(()),
                Ok(None) => Ok(prev),
                Ok(Some(a)) => Ok(prev.push(a)),
            },
        }
    }
}

/// The bids of the listing page `src`: one per `tr[onmouseover]` row that holds one.
pub open spec fn etri_listing(src: Seq<char>) -> Result<Seq<AnnouncementView>, ()> {
    etri_rows(src, spec_select_doc(src, "tr[onmouseover]"@))
}

proof fn lemma_rows_err_extends(src: Seq<char>, trs: Seq<usize>, k: int)
    requires
        0 <= k <= trs.len(),
        etri_rows(src, trs.take(k)) is Err,
    ensures
        etri_rows(src, trs) is Err,
    decreases trs.len() - k,
{
    if k < trs.len() {
        assert(trs.take(k + 1).drop_last() =~= trs.take(k));
        lemma_rows_err_extends(src, trs, k + 1);
    } else {
        assert(trs.take(k) =~= trs);
    }
}

/// Every bid of the listing is reported under "ETRI", with an id that begins
/// with "etri_", and with no keywords or details yet.
pub proof fn lemma_etri_tagged(src: Seq<char>, trs: Seq<usize>)
    ensures
        etri_rows(src, trs) matches Ok(v) ==> forall|i: int|
            0 <= i < v.len() ==> tagged(#[trigger] v[i], "ETRI"@, "etri_"@),
    decreases trs.len(),
{
    reveal(etri_row);
    if trs.len() > 0 {
        lemma_etri_tagged(src, trs.drop_last());
        if let Ok(Some(a)) = etri_row(src, trs.last()) {
            lemma_prefixed_starts("etri_"@, a.id.skip(5));
            assert(a.id =~= "etri_"@ + a.id.skip(5)) by {
                reveal_strlit("etri_");
            }
        }
    }
}

struct EtriKit {
    tr: Css,
    td: Css,
    onclick: Pattern,
    date: Pattern,
}

impl EtriCrawler {
    /// A crawler whose requests time out after `timeout` seconds.
    pub fn new(timeout: u64) -> (r: Self)
        ensures
            r.timeout_spec() == timeout,
    {
        EtriCrawler { timeout }
    }

    fn kit() -> (r: Result<EtriKit, ScrapeError>)
        ensures
            !etri_selectors_ok() ==> r == Err::<EtriKit, ScrapeError>(ScrapeError::Selector),
            etri_selectors_ok() && !etri_patterns_ok() ==> r == Err::<EtriKit, ScrapeError>(
                ScrapeError::Pattern,
            ),
            etri_selectors_ok() && etri_patterns_ok() ==> r is Ok,
            r matches Ok(k) ==> k.tr@ == "tr[onmouseover]"@ && k.td@ == "td"@ && k.onclick@
                == etri_onclick() && k.date@ == etri_date_pattern(),
    {
        let tr = selector("tr[onmouseover]")?;
        let td = selector("td")?;
        let onclick = pattern("fnDetailCustView\\('([^']+)'\\)")?;
        let date = pattern("^\\d{4}-\\d{2}-\\d{2}")?;
        Ok(EtriKit { tr, td, onclick, date })
    }

    fn bid_no(page: &Page, kit: &EtriKit, tds: &Vec<usize>) -> (r: Option<Vec<char>>)
        requires
            forall|k: int| 0 <= k < tds@.len() ==> #[trigger] tds@[k] < spec_node_count(page@),
            kit.onclick@ == etri_onclick(),
        ensures
            match r {
                Some(x) => etri_bid_no(page@, tds@) == Some(x@),
                None => etri_bid_no(page@, tds@) is None,
            },
    {
        let mut i: usize = 0;
        while i < tds.len()
            invariant
                i <= tds@.len(),
                forall|k: int| 0 <= k < tds@.len() ==> #[trigger] tds@[k] < spec_node_count(page@),
                kit.onclick@ == etri_onclick(),
                etri_bid_no(page@, tds@.take(i as int)) is None,
            decreases tds@.len() - i,
        {
            assert(tds@.take(i + 1).drop_last() =~= tds@.take(i as int));
            assert(tds@.take(i + 1).last() == tds@[i as int]);
            if let Some(onclick) = page.attr(tds[i], "onclick") {
                if let Some(no) = kit.onclick.capture(onclick.as_str(), 1) {
                    proof {
                        lemma_bid_no_prefix(page@, tds@, i + 1);
                    }
                    return Some(to_chars(no.as_str()));
                }
            }
            i = i + 1;
        }
        assert(tds@.take(tds@.len() as int) =~= tds@);
        None
    }

    fn dates(page: &Page, kit: &EtriKit, tds: &Vec<usize>) -> (r: Option<Vec<String>>)
        requires
            forall|k: int| 0 <= k < tds@.len() ==> #[trigger] tds@[k] < spec_node_count(page@),
            kit.date@ == etri_date_pattern(),
        ensures
            match r {
                Some(v) => etri_dates(page@, tds@) == Some(crate::text::string_views(v@)),
                None => etri_dates(page@, tds@) is None,
            },
    {
        let mut out: Vec<String> = Vec::new();
        let mut i: usize = 0;
        while i < tds.len()
            invariant
                i <= tds@.len(),
                forall|k: int| 0 <= k < tds@.len() ==> #[trigger] tds@[k] < spec_node_count(page@),
                kit.date@ == etri_date_pattern(),
                etri_dates(page@, tds@.take(i as int)) == Some(crate::text::string_views(out@)),
            decreases tds@.len() - i,
        {
            assert(tds@.take(i + 1).drop_last() =~= tds@.take(i as int));
            assert(tds@.take(i + 1).last() == tds@[i as int]);
            let text = trimmed_text(page, tds[i]);
            let text_string = from_chars(&text);
            if kit.date.is_match(text_string.as_str()) {
                match byte_prefix_exec(&text, 10) {
                    Some(p) => {
                        let piece = from_chars(&p);
                        proof {
                            crate::text::lemma_string_views_push(out@, piece);
                        }
                        out.push(piece);
                    },
                    None => {
                        proof {
                            lemma_dates_none_extends(page@, tds@, i + 1);
                        }
                        return None;
                    },
                }
            }
            i = i + 1;
        }
        assert(tds@.take(tds@.len() as int) =~= tds@);
        Some(out)
    }

    fn row(page: &Page, kit: &EtriKit, tr: usize) -> (r: Result<Option<Announcement>, ()>)
        requires
            tr < spec_node_count(page@),
            kit.td@ == "td"@,
            kit.onclick@ == etri_onclick(),
            kit.date@ == etri_date_pattern(),
        ensures
            match r {
                Ok(Some(x)) => etri_row(page@, tr) == Ok::<Option<AnnouncementView>, ()>(
                    Some(x@),
                ),
                Ok(None) => etri_row(page@, tr) == Ok::<Option<AnnouncementView>, ()>(None),
                Err(()) => etri_row(page@, tr) is Err,
            },
    {
        reveal(etri_row);
        let tds = page.select_in(tr, &kit.td);
        if tds.len() < 3 {
            return Ok(None);
        }
        let no = match Self::bid_no(page, kit, &tds) {
            Some(n) => n,
            None => return Ok(None),
        };
        let title = match longest_cell_exec(page, &tds) {
            Some(c) => trim(&strip(&trimmed_text(page, c), '"')),
            None => Vec::new(),
        };
        if title.len() == 0 {
            return Ok(None);
        }
        let dates = match Self::dates(page, kit, &tds) {
            Some(d) => d,
            None => return Err(()),
        };
        let url = concat(&to_chars("https://ebid.etri.re.kr/ebid/ebidCustProgressView.do?biNo="), &no);
        let mut ann = Announcement::new(
            prefixed("etri_", &no),
            from_chars(&title),
            from_chars(&url),
            "ETRI".to_owned(),
        );
        if dates.len() > 0 {
            ann.date = Some(dates[0].clone());
        }
        if dates.len() > 1 {
            ann.deadline = Some(dates[1].clone());
        }
        Ok(Some(ann))
    }

    /// The bids of the ETRI listing page `html` (see `etri_listing`): an error
    /// where a selector or a pattern does not parse, and `ScrapeError::Cut`
    /// where a date cell would be cut inside a character.
    pub fn parse_listing(&self, html: &str) -> (r: Result<Vec<Announcement>, ScrapeError>)
        ensures
            !etri_selectors_ok() ==> r == Err::<Vec<Announcement>, ScrapeError>(
                ScrapeError::Selector,
            ),
            etri_selectors_ok() && !etri_patterns_ok() ==> r == Err::<
                Vec<Announcement>,
                ScrapeError,
            >(ScrapeError::Pattern),
            etri_selectors_ok() && etri_patterns_ok() ==> match etri_listing(html@) {
                Ok(s) => r matches Ok(v) && views(v@) == s,
                Err(()) => r == Err::<Vec<Announcement>, ScrapeError>(ScrapeError::Cut),
            },
    {
        let kit = Self::kit()?;
        let page = Page::parse(html);
        let rows = page.select(&kit.tr);
        let mut results: Vec<Announcement> = Vec::new();
        let ghost src = page@;
        assert(rows@.take(0) =~= Seq::<usize>::empty());
        assert(views(results@) =~= Seq::<AnnouncementView>::empty());
        let mut i: usize = 0;
        while i < rows.len()
            invariant
                i <= rows@.len(),
                etri_selectors_ok() && etri_patterns_ok(),
                src == page@,
                src == html@,
                rows@ == spec_select_doc(src, "tr[onmouseover]"@),
                kit.td@ == "td"@,
                kit.onclick@ == etri_onclick(),
                kit.date@ == etri_date_pattern(),
                forall|k: int| 0 <= k < rows@.len() ==> #[trigger] rows@[k] < spec_node_count(page@),
                etri_rows(src, rows@.take(i as int)) == Ok::<Seq<AnnouncementView>, ()>(
                    views(results@),
                ),
            decreases rows@.len() - i,
        {
            assert(rows@.take(i + 1).drop_last() =~= rows@.take(i as int));
            assert(rows@.take(i + 1).last() == rows@[i as int]);
            match Self::row(&page, &kit, rows[i]) {
                Ok(Some(a)) => {
                    let ghost before = results@;
                    results.push(a);
                    assert(views(results@) =~= views(before).push(a@));
                },
                Ok(None) => {},
                Err(()) => {
                    proof {
                        lemma_rows_err_extends(src, rows@, i + 1);
                    }
                    return Err(ScrapeError::Cut);
                },
            }
            i = i + 1;
        }
        assert(rows@.take(rows@.len() as int) =~= rows@);
        Ok(results)
    }
}

proof fn lemma_bid_no_prefix(src: Seq<char>, tds: Seq<usize>, k: int)
    requires
        0 <= k <= tds.len(),
        etri_bid_no(src, tds.take(k)) is Some,
    ensures
        etri_bid_no(src, tds) == etri_bid_no(src, tds.take(k)),
    decreases tds.len() - k,
{
    if k < tds.len() {
        assert(tds.take(k + 1).drop_last() =~= tds.take(k));
        lemma_bid_no_prefix(src, tds, k + 1);
    } else {
        assert(tds.take(k) =~= tds);
    }
}

proof fn lemma_dates_none_extends(src: Seq<char>, tds: Seq<usize>, k: int)
    requires
        0 <= k <= tds.len(),
        etri_dates(src, tds.take(k)) is None,
    ensures
        etri_dates(src, tds) is None,
    decreases tds.len() - k,
{
    if k < tds.len() {
        assert(tds.take(k + 1).drop_last() =~= tds.take(k));
        lemma_dates_none_extends(src, tds, k + 1);
    } else {
        assert(tds.take(k) =~= tds);
    }
}

impl Crawler for EtriCrawler {
    open spec fn name_spec(&self) -> Seq<char> {
        "ETRI"@
    }

    closed spec fn timeout_spec(&self) -> u64 {
        self.timeout
    }

    fn source_name(&self) -> (r: &'static str) {
        "ETRI"
    }

    fn timeout(&self) -> u64 {
        self.timeout
    }
}

} // verus!
