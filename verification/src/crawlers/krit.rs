//! KRIT, the Korea Research Institute for defense Technology planning: its list
//! of R&D projects.
use crate::crawlers::base::{
    lemma_listing_tagged, lemma_prefixed_starts, tagged,
    cell_text, cell_text_exec, last_of, longest_cell, longest_cell_exec, pattern, prefixed,
    selector, trimmed_text, Crawler, ScrapeError,
};
use crate::dom::{spec_attr, spec_css_ok, spec_node_count, spec_select_doc, spec_select_in, Css, Page};
use crate::models::{views, Announcement, AnnouncementView};
use crate::pattern::{spec_capture, spec_regex_ok, Pattern};
use crate::text::{concat, from_chars, to_chars, trim, trim_seq};
use vstd::prelude::*;

verus! {

broadcast use vstd::seq_lib::group_seq_properties;

/// The crawler of KRIT.
pub struct KritCrawler {
    timeout: u64,
}

/// The page that lists the projects.
pub const KRIT_LIST_URL: &'static str = "https://dtims.krit.re.kr/vps/OINF_RndProjList.do";

/// The pattern that finds a project's number in the click handler of its row.
pub open spec fn krit_onclick() -> Seq<char> {
    "fncBusinessInfo\\('([^']+)'\\)"@
}

/// The selectors that the listing needs all parse.
pub open spec fn krit_selectors_ok() -> bool {
    &&& spec_css_ok("table[data-skin='board_list'] tbody"@)
    &&& spec_css_ok("tr"@)
    &&& spec_css_ok("td"@)
}

/// The selectors and the pattern that the listing needs all parse.
pub open spec fn krit_ok() -> bool {
    krit_selectors_ok() && spec_regex_ok(krit_onclick())
}

/// The `title` attribute of the first cell that has one.
pub open spec fn first_title_attr(src: Seq<char>, tds: Seq<usize>) -> Option<Seq<char>>
    decreases tds.len(),
{
    if tds.len() == 0 {
        None
    } else {
        match first_title_attr(src, tds.drop_last()) {
            Some(t) => Some(t),
            None => spec_attr(src, tds.last(), "title"@),
        }
    }
}

/// A project's title: the trimmed `title` attribute of the first cell that has
/// one, else the trimmed text of the longest cell.
pub open spec fn krit_title(src: Seq<char>, tds: Seq<usize>) -> Option<Seq<char>> {
    match first_title_attr(src, tds) {
        Some(t) => Some(trim_seq(t)),
        None => cell_text(src, longest_cell(src, tds)),
    }
}

/// The announcement that a table row holds: its click handler gives the
/// project's number, its cells a non-empty title, and its last cell the agency.
pub open spec fn krit_row(src: Seq<char>, tr: usize) -> Option<AnnouncementView> {
    let onclick = match spec_attr(src, tr, "onclick"@) {
        Some(o) => o,
        None => Seq::empty(),
    };
    let tds = spec_select_in(src, tr, "td"@);
    match spec_capture(krit_onclick(), onclick, 1) {
        None => None,
        Some(no) => match krit_title(src, tds) {
            Some(t) if t.len() > 0 => Some(
                AnnouncementView {
                    id: "krit_"@ + no,
                    title: t,
                    url: "https://dtims.krit.re.kr/vps/OINF_RndProjView.do?rndNo="@ + no,
                    source: "KRIT"@,
                    date: None,
                    agency: cell_text(src, last_of(tds)),
                    deadline: None,
                    matched_keywords: Seq::empty(),
                    extra: Map::empty(),
                },
            ),
            _ => None,
        },
    }
}

/// The announcements of the listing page `src`: one per row of the first board
/// table, in order; none without that table.
pub open spec fn krit_listing(src: Seq<char>) -> Seq<AnnouncementView> {
    let bodies = spec_select_doc(src, "table[data-skin='board_list'] tbody"@);
    if bodies.len() == 0 {
        Seq::empty()
    } else {
        spec_select_in(src, bodies[0], "tr"@).filter_map(|tr: usize| krit_row(src, tr))
    }
}

/// Every announcement of the listing is reported under "KRIT", with an id
/// that begins with "krit_", and with no keywords or details yet.
pub proof fn lemma_krit_tagged(src: Seq<char>)
    ensures
        forall|i: int|
            0 <= i < krit_listing(src).len() ==> tagged(#[trigger] krit_listing(src)[i], "KRIT"@, "krit_"@),
{
    let f = |r: usize| krit_row(src, r);
    assert forall|r: usize| #[trigger] f(r) is Some implies tagged(f(r)->0, "KRIT"@, "krit_"@) by {
        if let Some(a) = f(r) {
            lemma_prefixed_starts("krit_"@, a.id.skip(5));
            assert(a.id =~= "krit_"@ + a.id.skip(5)) by {
                reveal_strlit("krit_");
            }
        }
    }
    let bodies = spec_select_doc(src, "table[data-skin='board_list'] tbody"@);
    if bodies.len() > 0 {
        let rows = spec_select_in(src, bodies[0], "tr"@);
        lemma_listing_tagged(rows, f, "KRIT"@, "krit_"@);
        assert(krit_listing(src) == rows.filter_map(f));
    }
}

struct KritKit {
    tbody: Css,
    tr: Css,
    td: Css,
    onclick: Pattern,
}

impl KritCrawler {
    /// A crawler whose requests time out after `timeout` seconds.
    pub fn new(timeout: u64) -> (r: Self)
        ensures
            r.timeout_spec() == timeout,
    {
        KritCrawler { timeout }
    }

    fn kit() -> (r: Result<KritKit, ScrapeError>)
        ensures
            r is Ok <==> krit_ok(),
            r matches Err(e) ==> (e == ScrapeError::Selector <==> !krit_selectors_ok()) && (e
                == ScrapeError::Selector || e == ScrapeError::Pattern),
            r matches Ok(k) ==> k.tbody@ == "table[data-skin='board_list'] tbody"@ && k.tr@
                == "tr"@ && k.td@ == "td"@ && k.onclick@ == krit_onclick(),
    {
        let tbody = selector("table[data-skin='board_list'] tbody")?;
        let tr = selector("tr")?;
        let td = selector("td")?;
        let onclick = pattern("fncBusinessInfo\\('([^']+)'\\)")?;
        Ok(KritKit { tbody, tr, td, onclick })
    }

    fn title(page: &Page, tds: &Vec<usize>) -> (r: Option<Vec<char>>)
        requires
            forall|k: int| 0 <= k < tds@.len() ==> #[trigger] tds@[k] < spec_node_count(page@),
        ensures
            match r {
                Some(t) => krit_title(page@, tds@) == Some(t@),
                None => krit_title(page@, tds@) is None,
            },
    {
        let mut found: Option<String> = None;
        let mut i: usize = 0;
        while i < tds.len()
            invariant
                i <= tds@.len(),
                forall|k: int| 0 <= k < tds@.len() ==> #[trigger] tds@[k] < spec_node_count(page@),
                crate::models::opt_view(found) == first_title_attr(page@, tds@.take(i as int)),
            decreases tds@.len() - i,
        {
            assert(tds@.take(i + 1).drop_last() =~= tds@.take(i as int));
            assert(tds@.take(i + 1).last() == tds@[i as int]);
            if found.is_none() {
                found = page.attr(tds[i], "title");
            }
            i = i + 1;
        }
        assert(tds@.take(tds@.len() as int) =~= tds@);
        match found {
            Some(t) => Some(trim(&to_chars(t.as_str()))),
            None => match longest_cell_exec(page, tds) {
                Some(c) => Some(trimmed_text(page, c)),
                None => None,
            },
        }
    }

    fn row(page: &Page, kit: &KritKit, tr: usize) -> (r: Option<Announcement>)
        requires
            tr < spec_node_count(page@),
            kit.td@ == "td"@,
            kit.onclick@ == krit_onclick(),
        ensures
            match r {
                Some(x) => krit_row(page@, tr) == Some(x@),
                None => krit_row(page@, tr) is None,
            },
    {
        let onclick = match page.attr(tr, "onclick") {
            Some(o) => o,
            None => String::new(),
        };
        let tds = page.select_in(tr, &kit.td);
        let no = match kit.onclick.capture(onclick.as_str(), 1) {
            Some(n) => to_chars(n.as_str()),
            None => return None,
        };
        let title = match Self::title(page, &tds) {
            Some(t) => t,
            None => return None,
        };
        if title.len() == 0 {
            return None;
        }
        let url = concat(&to_chars("https://dtims.krit.re.kr/vps/OINF_RndProjView.do?rndNo="), &no);
        let mut ann = Announcement::new(
            prefixed("krit_", &no),
            from_chars(&title),
            from_chars(&url),
            "KRIT".to_owned(),
        );
        let last = if tds.len() > 0 {
            Some(tds[tds.len() - 1])
        } else {
            None
        };
        ann.agency = cell_text_exec(page, last);
        Some(ann)
    }

    /// The announcements of the KRIT listing page `html` (see `krit_listing`);
    /// an error where a selector or the pattern does not parse.
    pub fn parse_listing(&self, html: &str) -> (r: Result<Vec<Announcement>, ScrapeError>)
        ensures
            r is Ok <==> krit_ok(),
            r matches Ok(v) ==> views(v@) == krit_listing(html@),
            r matches Err(e) ==> (e == ScrapeError::Selector <==> !krit_selectors_ok()) && (e
                == ScrapeError::Selector || e == ScrapeError::Pattern),
    {
        let kit = Self::kit()?;
        let page = Page::parse(html);
        let bodies = page.select(&kit.tbody);
        let mut results: Vec<Announcement> = Vec::new();
        if bodies.len() == 0 {
            return Ok(results);
        }
        let rows = page.select_in(bodies[0], &kit.tr);
        let ghost src = page@;
        let ghost f = |tr: usize| krit_row(src, tr);
        let mut i: usize = 0;
        while i < rows.len()
            invariant
                i <= rows@.len(),
                src == page@,
                src == html@,
                f == (|tr: usize| krit_row(src, tr)),
                kit.td@ == "td"@,
                kit.onclick@ == krit_onclick(),
                forall|k: int| 0 <= k < rows@.len() ==> #[trigger] rows@[k] < spec_node_count(page@),
                views(results@) == rows@.take(i as int).filter_map(f),
            decreases rows@.len() - i,
        {
            proof {
                rows@.lemma_filter_map_take_succ(f, i as int);
            }
            match Self::row(&page, &kit, rows[i]) {
                Some(a) => {
                    let ghost before = results@;
                    results.push(a);
                    assert(views(results@) =~= views(before).push(a@));
                },
                None => {},
            }
            i = i + 1;
        }
        assert(rows@.take(rows@.len() as int) =~= rows@);
        Ok(results)
    }
}

impl Crawler for KritCrawler {
    open spec fn name_spec(&self) -> Seq<char> {
        "KRIT"@
    }

    closed spec fn timeout_spec(&self) -> u64 {
        self.timeout
    }

    fn source_name(&self) -> (r: &'static str) {
        "KRIT"
    }

    fn timeout(&self) -> u64 {
        self.timeout
    }
}

} // verus!
