//! KISA, the Korea Internet & Security Agency: its notices on security, each
//! with a detail page.
use crate::crawlers::base::{
    lemma_listing_tagged, lemma_prefixed_starts, tagged,
    absolute, absolute_exec, cell_text, cell_text_exec, first_capture, first_capture_exec,
    first_in, first_in_exec, id_from, id_from_exec, patterns, prefixed, selector, spec_text,
    spec_trimmed, text_of, trimmed_text, Crawler, ScrapeError,
};
use crate::dom::{
    spec_attr, spec_css_ok, spec_node_count, spec_select_doc, spec_select_in, spec_text_nodes, Css,
    Page,
};
use crate::models::{opt_view, views, Announcement, AnnouncementView, Extra};
use crate::pattern::{spec_regex_ok, Pattern};
use crate::text::{contains, contains_seq, from_chars, join_seq, join_strings, to_chars};
use vstd::prelude::*;

verus! {

broadcast use vstd::seq_lib::group_seq_properties;

/// The crawler of KISA.
pub struct KisaCrawler {
    timeout: u64,
}

/// The page that lists the notices.
pub const KISA_LIST_URL: &'static str = "https://www.kisa.or.kr/403?page=1&searchDiv=10&searchWord=보안";

/// The selectors that the listing needs all parse.
pub open spec fn kisa_selectors_ok() -> bool {
    &&& spec_css_ok("table.tbl_board.notice tbody"@)
    &&& spec_css_ok("tr"@)
    &&& spec_css_ok("td.sbj"@)
    &&& spec_css_ok("td.date"@)
    &&& spec_css_ok("a"@)
}

/// The announcement that a table row holds: a `td.sbj` cell with a link; the
/// link gives the title and the url, the `td.date` cell the date. The deadline
/// and the details come from the detail page.
pub open spec fn kisa_row(src: Seq<char>, tr: usize) -> Option<AnnouncementView> {
    match first_in(src, tr, "td.sbj"@) {
        None => None,
        Some(sbj) => match first_in(src, sbj, "a"@) {
            None => None,
            Some(a) => {
                let href = match spec_attr(src, a, "href"@) {
                    Some(h) => h,
                    None => Seq::empty(),
                };
                let url = absolute("https://www.kisa.or.kr"@, href);
                Some(
                    AnnouncementView {
                        id: "kisa_"@ + id_from(url, "postSeq="@),
                        title: spec_trimmed(src, a),
                        url,
                        source: "KISA"@,
                        date: cell_text(src, first_in(src, tr, "td.date"@)),
                        agency: None,
                        deadline: None,
                        matched_keywords: Seq::empty(),
                        extra: Map::empty(),
                    },
                )
            },
        },
    }
}

/// The announcements of the listing page `src`: one per row of the first
/// notice table, in order; none without that table.
pub open spec fn kisa_listing(src: Seq<char>) -> Seq<AnnouncementView> {
    let bodies = spec_select_doc(src, "table.tbl_board.notice tbody"@);
    if bodies.len() == 0 {
        Seq::empty()
    } else {
        spec_select_in(src, bodies[0], "tr"@).filter_map(|tr: usize| kisa_row(src, tr))
    }
}

/// The patterns that find the budget in a notice's text.
pub open spec fn kisa_money() -> Seq<Seq<char>> {
    seq![
        r"소요예산\s*:\s*([\d,]+\s*원[^\n]*)"@,
        r"예산액\s*:\s*([\d,]+\s*원[^\n]*)"@,
        r"사업비\s*:\s*([\d,]+\s*원[^\n]*)"@,
    ]
}

/// The patterns that find the period in a notice's text.
pub open spec fn kisa_period() -> Seq<Seq<char>> {
    seq![
        r"공개기간\s*:\s*([^\n]{5,50}~[^\n]{5,50})"@,
        r"수행기간\s*:\s*([^\n]{5,50}~[^\n]{5,50})"@,
        r"사업기간\s*:\s*([^\n]{5,50}~[^\n]{5,50})"@,
    ]
}

/// The selectors and the patterns that a detail page needs all parse.
pub open spec fn kisa_detail_ok() -> bool {
    &&& spec_css_ok("tr"@)
    &&& spec_css_ok("td"@)
    &&& spec_css_ok("div.board_detail_contents"@)
    &&& forall|k: int| 0 <= k < 3 ==> spec_regex_ok(#[trigger] kisa_money()[k])
    &&& forall|k: int| 0 <= k < 3 ==> spec_regex_ok(#[trigger] kisa_period()[k])
}

/// The position of the first cell whose text holds "등록마감" (registration
/// deadline).
pub open spec fn header_col(src: Seq<char>, tds: Seq<usize>) -> Option<int>
    decreases tds.len(),
{
    if tds.len() == 0 {
        None
    } else {
        match header_col(src, tds.drop_last()) {
            Some(i) => Some(i),
            None => if contains_seq(spec_text(src, tds.last()), "등록마감"@) {
                Some(tds.len() - 1)
            } else {
                None
            },
        }
    }
}

/// The deadline column's search over the rows `trs`: the column found in the
/// first row that has one, and the deadline read from that column of the next
/// row (its trimmed text, where not empty), after which the search is done.
pub open spec fn deadline_scan(src: Seq<char>, trs: Seq<usize>) -> (
    Option<int>,
    Option<Seq<char>>,
    bool,
)
    decreases trs.len(),
{
    if trs.len() == 0 {
        (None, None, false)
    } else {
        let prev = deadline_scan(src, trs.drop_last());
        if prev.2 {
            prev
        } else {
            let tds = spec_select_in(src, trs.last(), "td"@);
            match prev.0 {
                None => (header_col(src, tds), None, false),
                Some(i) => {
                    let found = if i < tds.len() && spec_trimmed(src, tds[i]).len() > 0 {
                        Some(spec_trimmed(src, tds[i]))
                    } else {
                        None
                    };
                    (prev.0, found, true)
                },
            }
        }
    }
}

/// The text of a node, its text pieces joined by line breaks.
pub open spec fn joined_text(src: Seq<char>, node: usize) -> Seq<char> {
    join_seq(spec_text_nodes(src, node), "\n"@)
}

/// The details that a detail page `src` gives: the deadline ("마감일") from its
/// tables, and the budget ("금액") and the period ("기간") from the text of its
/// first `div.board_detail_contents`.
pub open spec fn kisa_detail_map(src: Seq<char>) -> Map<Seq<char>, Seq<char>> {
    let m0 = match deadline_scan(src, spec_select_doc(src, "tr"@)).1 {
        Some(d) => Map::empty().insert("마감일"@, d),
        None => Map::empty(),
    };
    let contents = spec_select_doc(src, "div.board_detail_contents"@);
    if contents.len() == 0 {
        m0
    } else {
        let text = joined_text(src, contents[0]);
        let m1 = match first_capture(kisa_money(), text) {
            Some(v) => m0.insert("금액"@, v),
            None => m0,
        };
        match first_capture(kisa_period(), text) {
            Some(v) => m1.insert("기간"@, v),
            None => m1,
        }
    }
}

/// The text to summarize: that of the first `div.board_detail_contents`.
pub open spec fn kisa_detail_body(src: Seq<char>) -> Option<Seq<char>> {
    let contents = spec_select_doc(src, "div.board_detail_contents"@);
    if contents.len() == 0 {
        None
    } else {
        Some(joined_text(src, contents[0]))
    }
}

/// What a detail page gives: its details, and the text to summarize.
pub struct KisaDetail {
    pub extra: Extra,
    pub body: Option<String>,
}

/// Every announcement of the listing is reported under "KISA", with an id
/// that begins with "kisa_", and with no keywords or details yet.
pub proof fn lemma_kisa_tagged(src: Seq<char>)
    ensures
        forall|i: int|
            0 <= i < kisa_listing(src).len() ==> tagged(#[trigger] kisa_listing(src)[i], "KISA"@, "kisa_"@),
{
    let f = |r: usize| kisa_row(src, r);
    assert forall|r: usize| #[trigger] f(r) is Some implies tagged(f(r)->0, "KISA"@, "kisa_"@) by {
        if let Some(a) = f(r) {
            lemma_prefixed_starts("kisa_"@, a.id.skip(5));
            assert(a.id =~= "kisa_"@ + a.id.skip(5)) by {
                reveal_strlit("kisa_");
            }
        }
    }
    let bodies = spec_select_doc(src, "table.tbl_board.notice tbody"@);
    if bodies.len() > 0 {
        let rows = spec_select_in(src, bodies[0], "tr"@);
        lemma_listing_tagged(rows, f, "KISA"@, "kisa_"@);
        assert(kisa_listing(src) == rows.filter_map(f));
    }
}

struct KisaKit {
    tbody: Css,
    tr: Css,
    sbj: Css,
    date: Css,
    a: Css,
}

struct KisaDetailKit {
    tr: Css,
    td: Css,
    content: Css,
    money: Vec<Pattern>,
    period: Vec<Pattern>,
}

proof fn lemma_scan_done(src: Seq<char>, trs: Seq<usize>, k: int)
    requires
        0 <= k <= trs.len(),
        deadline_scan(src, trs.take(k)).2,
    ensures
        deadline_scan(src, trs) == deadline_scan(src, trs.take(k)),
    decreases trs.len() - k,
{
    if k < trs.len() {
        assert(trs.take(k + 1).drop_last() =~= trs.take(k));
        lemma_scan_done(src, trs, k + 1);
    } else {
        assert(trs.take(k) =~= trs);
    }
}

impl KisaCrawler {
    /// A crawler whose requests time out after `timeout` seconds.
    pub fn new(timeout: u64) -> (r: Self)
        ensures
            r.timeout_spec() == timeout,
    {
        KisaCrawler { timeout }
    }

    fn kit() -> (r: Result<KisaKit, ScrapeError>)
        ensures
            r is Ok <==> kisa_selectors_ok(),
            r matches Err(e) ==> e == ScrapeError::Selector,
            r matches Ok(k) ==> k.tbody@ == "table.tbl_board.notice tbody"@ && k.tr@ == "tr"@
                && k.sbj@ == "td.sbj"@ && k.date@ == "td.date"@ && k.a@ == "a"@,
    {
        let tbody = selector("table.tbl_board.notice tbody")?;
        let tr = selector("tr")?;
        let sbj = selector("td.sbj")?;
        let date = selector("td.date")?;
        let a = selector("a")?;
        Ok(KisaKit { tbody, tr, sbj, date, a })
    }

    fn row(page: &Page, kit: &KisaKit, tr: usize) -> (r: Option<Announcement>)
        requires
            tr < spec_node_count(page@),
            kit.sbj@ == "td.sbj"@,
            kit.date@ == "td.date"@,
            kit.a@ == "a"@,
        ensures
            match r {
                Some(x) => kisa_row(page@, tr) == Some(x@),
                None => kisa_row(page@, tr) is None,
            },
    {
        let sbj = match first_in_exec(page, tr, &kit.sbj) {
            Some(s) => s,
            None => return None,
        };
        let a = match first_in_exec(page, sbj, &kit.a) {
            Some(a) => a,
            None => return None,
        };
        let title = trimmed_text(page, a);
        let href = match page.attr(a, "href") {
            Some(h) => to_chars(h.as_str()),
            None => Vec::new(),
        };
        let url = absolute_exec("https://www.kisa.or.kr", &href);
        let id = id_from_exec(&url, &to_chars("postSeq="));
        let mut ann = Announcement::new(
            prefixed("kisa_", &id),
            from_chars(&title),
            from_chars(&url),
            "KISA".to_owned(),
        );
        let date = first_in_exec(page, tr, &kit.date);
        ann.date = cell_text_exec(page, date);
        Some(ann)
    }

    /// The announcements of the KISA listing page `html` (see `kisa_listing`),
    /// before their detail pages are read; an error where a selector does not
    /// parse.
    pub fn parse_listing(&self, html: &str) -> (r: Result<Vec<Announcement>, ScrapeError>)
        ensures
            r is Ok <==> kisa_selectors_ok(),
            r matches Ok(v) ==> views(v@) == kisa_listing(html@),
            r matches Err(e) ==> e == ScrapeError::Selector,
    {
        let kit = Self::kit()?;
        let page = Page::parse(html);
        let bodies = page.select(&kit.tbody);
        let mut results: Vec<Announcement> = Vec::new();
        if bodies.len() == 0 {
            return Ok(results);
        }
        let rows = page.select_in(bodies[0], &kit.tr);
        let ghost src = page@;
        let ghost f = |tr: usize| kisa_row(src, tr);
        let mut i: usize = 0;
        while i < rows.len()
            invariant
                i <= rows@.len(),
                src == page@,
                src == html@,
                f == (|tr: usize| kisa_row(src, tr)),
                kit.sbj@ == "td.sbj"@,
                kit.date@ == "td.date"@,
                kit.a@ == "a"@,
                forall|k: int| 0 <= k < rows@.len() ==> #[trigger] rows@[k] < spec_node_count(page@),
                views(results@) == rows@.take(i as int).filter_map(f),
            decreases rows@.len() - i,
        {
            proof {
                rows@.lemma_filter_map_take_succ(f, i as int);
            }
            match Self::row(&page, &kit, rows[i]) {
                Some(a) => {
                    let ghost before = results@;
                    results.push(a);
                    assert(views(results@) =~= views(before).push(a@));
                },
                None => {},
            }
            i = i + 1;
        }
        assert(rows@.take(rows@.len() as int) =~= rows@);
        Ok(results)
    }

    fn detail_kit() -> (r: Result<KisaDetailKit, ScrapeError>)
        ensures
            r is Ok <==> kisa_detail_ok(),
            r matches Ok(k) ==> k.tr@ == "tr"@ && k.td@ == "td"@ && k.content@
                == "div.board_detail_contents"@ && k.money@.map_values(|p: Pattern| p@)
                == kisa_money() && k.period@.map_values(|p: Pattern| p@) == kisa_period(),
            r matches Err(e) ==> (e == ScrapeError::Selector || e == ScrapeError::Pattern),
    {
        let tr = selector("tr")?;
        let td = selector("td")?;
        let content = selector("div.board_detail_contents")?;
        let money_texts = [
            r"소요예산\s*:\s*([\d,]+\s*원[^\n]*)",
            r"예산액\s*:\s*([\d,]+\s*원[^\n]*)",
            r"사업비\s*:\s*([\d,]+\s*원[^\n]*)",
        ];
        let period_texts = [
            r"공개기간\s*:\s*([^\n]{5,50}~[^\n]{5,50})",
            r"수행기간\s*:\s*([^\n]{5,50}~[^\n]{5,50})",
            r"사업기간\s*:\s*([^\n]{5,50}~[^\n]{5,50})",
        ];
        assert(money_texts@.map_values(|t: &str| t@) =~= kisa_money());
        assert(period_texts@.map_values(|t: &str| t@) =~= kisa_period());
        let money = patterns(&money_texts);
        let money = match money {
            Ok(m) => m,
            Err(e) => {
                proof {
                    let k = choose|k: int| 0 <= k < 3 && !spec_regex_ok(#[trigger] money_texts@[k]@);
                    assert(kisa_money()[k] == money_texts@[k]@);
                }
                return Err(e);
            },
        };
        let period = match patterns(&period_texts) {
            Ok(p) => p,
            Err(e) => {
                proof {
                    let k = choose|k: int|
                        0 <= k < 3 && !spec_regex_ok(#[trigger] period_texts@[k]@);
                    assert(kisa_period()[k] == period_texts@[k]@);
                }
                return Err(e);
            },
        };
        assert(money@.map_values(|p: Pattern| p@) =~= kisa_money());
        assert(period@.map_values(|p: Pattern| p@) =~= kisa_period());
        Ok(KisaDetailKit { tr, td, content, money, period })
    }

    fn header_col_exec(page: &Page, tds: &Vec<usize>) -> (r: Option<usize>)
        requires
            forall|k: int| 0 <= k < tds@.len() ==> #[trigger] tds@[k] < spec_node_count(page@),
        ensures
            match r {
                Some(i) => header_col(page@, tds@) == Some(i as int),
                None => header_col(page@, tds@) is None,
            },
    {
        let label = to_chars("등록마감");
        let mut i: usize = 0;
        while i < tds.len()
            invariant
                i <= tds@.len(),
                forall|k: int| 0 <= k < tds@.len() ==> #[trigger] tds@[k] < spec_node_count(page@),
                label@ == "등록마감"@,
                header_col(page@, tds@.take(i as int)) is None,
            decreases tds@.len() - i,
        {
            assert(tds@.take(i + 1).drop_last() =~= tds@.take(i as int));
            assert(tds@.take(i + 1).last() == tds@[i as int]);
            if contains(&text_of(page, tds[i]), &label) {
                proof {
                    lemma_header_col_prefix(page@, tds@, i + 1);
                }
                return Some(i);
            }
            i = i + 1;
        }
        assert(tds@.take(tds@.len() as int) =~= tds@);
        None
    }

    fn deadline(page: &Page, kit: &KisaDetailKit) -> (r: Option<String>)
        requires
            kit.tr@ == "tr"@,
            kit.td@ == "td"@,
        ensures
            opt_view(r) == deadline_scan(page@, spec_select_doc(page@, "tr"@)).1,
    {
        let rows = page.select(&kit.tr);
        let mut col: Option<usize> = None;
        let mut found: Option<String> = None;
        let mut done = false;
        let mut i: usize = 0;
        while i < rows.len()
            invariant
                i <= rows@.len(),
                kit.td@ == "td"@,
                forall|k: int| 0 <= k < rows@.len() ==> #[trigger] rows@[k] < spec_node_count(page@),
                deadline_scan(page@, rows@.take(i as int)) == (
                    match col {
                        Some(c) => Some(c as int),
                        None => None,
                    },
                    opt_view(found),
                    done,
                ),
            decreases rows@.len() - i,
        {
            assert(rows@.take(i + 1).drop_last() =~= rows@.take(i as int));
            assert(rows@.take(i + 1).last() == rows@[i as int]);
            if !done {
                let tds = page.select_in(rows[i], &kit.td);
                match col {
                    None => {
                        col = Self::header_col_exec(page, &tds);
                    },
                    Some(c) => {
                        if c < tds.len() {
                            let t = trimmed_text(page, tds[c]);
                            if t.len() > 0 {
                                found = Some(from_chars(&t));
                            }
                        }
                        done = true;
                    },
                }
            }
            i = i + 1;
        }
        assert(rows@.take(rows@.len() as int) =~= rows@);
        found
    }

    /// The details of a KISA detail page `html` (see `kisa_detail_map`) and the
    /// text to summarize (see `kisa_detail_body`); an error where a selector or
    /// a pattern does not parse.
    pub fn parse_detail(&self, html: &str) -> (r: Result<KisaDetail, ScrapeError>)
        ensures
            r is Ok <==> kisa_detail_ok(),
            r matches Ok(d) ==> d.extra@ == kisa_detail_map(html@) && opt_view(d.body)
                == kisa_detail_body(html@),
            r matches Err(e) ==> (e == ScrapeError::Selector || e == ScrapeError::Pattern),
    {
        let kit = Self::detail_kit()?;
        let page = Page::parse(html);
        let mut extra = Extra::new();
        match Self::deadline(&page, &kit) {
            Some(d) => extra.insert("마감일", d),
            None => {},
        }
        let contents = page.select(&kit.content);
        if contents.len() == 0 {
            return Ok(KisaDetail { extra, body: None });
        }
        let nodes = page.text_nodes(contents[0]);
        let text = from_chars(&join_strings(&nodes, &to_chars("\n")));
        match first_capture_exec(&kit.money, text.as_str()) {
            Some(v) => extra.insert("금액", v),
            None => {},
        }
        match first_capture_exec(&kit.period, text.as_str()) {
            Some(v) => extra.insert("기간", v),
            None => {},
        }
        Ok(KisaDetail { extra, body: Some(text) })
    }

    /// Completes a listed announcement with its detail page: the summary, where
    /// there is one, is stored under "AI요약" among the details, the details
    /// replace the announcement's, and the deadline is the detail "마감일".
    pub fn attach_detail(ann: &mut Announcement, extra: Extra, summary: Option<String>)
        ensures
            final(ann)@.extra == match summary {
                Some(s) => extra@.insert("AI요약"@, s@),
                None => extra@,
            },
            opt_view(final(ann).deadline) == (if extra@.contains_key("마감일"@) {
                Some(extra@["마감일"@])
            } else {
                None
            }),
            final(ann).id == old(ann).id,
            final(ann).title == old(ann).title,
            final(ann).url == old(ann).url,
            final(ann).source == old(ann).source,
            final(ann).date == old(ann).date,
            final(ann).agency == old(ann).agency,
            final(ann).matched_keywords == old(ann).matched_keywords,
    {
        let mut extra = extra;
        match summary {
            Some(s) => extra.insert("AI요약", s),
            None => {},
        }
        proof {
            reveal_strlit("AI요약");
            reveal_strlit("마감일");
            assert("AI요약"@[0] != "마감일"@[0]);
        }
        ann.deadline = extra.get("마감일");
        ann.extra = extra;
    }
}

proof fn lemma_header_col_prefix(src: Seq<char>, tds: Seq<usize>, k: int)
    requires
        0 <= k <= tds.len(),
        header_col(src, tds.take(k)) is Some,
    ensures
        header_col(src, tds) == header_col(src, tds.take(k)),
    decreases tds.len() - k,
{
    if k < tds.len() {
        assert(tds.take(k + 1).drop_last() =~= tds.take(k));
        lemma_header_col_prefix(src, tds, k + 1);
    } else {
        assert(tds.take(k) =~= tds);
    }
}

impl Crawler for KisaCrawler {
    open spec fn name_spec(&self) -> Seq<char> {
        "KISA"@
    }

    closed spec fn timeout_spec(&self) -> u64 {
        self.timeout
    }

    fn source_name(&self) -> (r: &'static str) {
        "KISA"
    }

    fn timeout(&self) -> u64 {
        self.timeout
    }
}

} // verus!
