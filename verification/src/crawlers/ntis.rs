//! NTIS, the national R&D information service: its list of calls.
use crate::crawlers::base::{
    lemma_listing_tagged, lemma_prefixed_starts, tagged,
    absolute, absolute_exec, cell_text, cell_text_exec, first_in, first_in_exec, id_from, id_from_exec, prefixed, selector,
    spec_trimmed, trimmed_text, Crawler, ScrapeError,
};
use crate::dom::{spec_attr, spec_css_ok, spec_node_count, spec_select_doc, spec_select_in, Css, Page};
use crate::models::{views, Announcement, AnnouncementView};
use crate::text::{chars_eq, to_chars, trim, trim_seq};
use vstd::prelude::*;

verus! {

broadcast use vstd::seq_lib::group_seq_properties;

/// The crawler of NTIS.
pub struct NtisCrawler {
    timeout: u64,
}

/// The page that lists the calls.
pub const NTIS_LIST_URL: &'static str = "https://www.ntis.go.kr/rndgate/eg/un/ra/mng.do";

/// The selectors that the listing needs all parse.
pub open spec fn ntis_selectors_ok() -> bool {
    &&& spec_css_ok("table.basic_list tbody"@)
    &&& spec_css_ok("tr"@)
    &&& spec_css_ok("td"@)
    &&& spec_css_ok("a"@)
}

/// The last cell of `tds` whose trimmed `data-title` is `label`.
pub open spec fn labeled_cell(src: Seq<char>, tds: Seq<usize>, label: Seq<char>) -> Option<usize>
    decreases tds.len(),
{
    if tds.len() == 0 {
        None
    } else if match spec_attr(src, tds.last(), "data-title"@) {
        Some(t) => trim_seq(t) == label,
        None => false,
    } {
        Some(tds.last())
    } else {
        labeled_cell(src, tds.drop_last(), label)
    }
}

/// The announcement that a table row holds: the row needs a cell labeled
/// "공고명" (title) with a link in it; the link gives the title and the url, and
/// the cells labeled "등록일", "기관명" and "마감일" give the date, the agency and
/// the deadline.
pub open spec fn ntis_row(src: Seq<char>, tr: usize) -> Option<AnnouncementView> {
    let tds = spec_select_in(src, tr, "td"@);
    match labeled_cell(src, tds, "공고명"@) {
        None => None,
        Some(title_td) => match first_in(src, title_td, "a"@) {
            None => None,
            Some(a) => {
                let href = match spec_attr(src, a, "href"@) {
                    Some(h) => h,
                    None => Seq::empty(),
                };
                let url = absolute("https://www.ntis.go.kr"@, href);
                Some(
                    AnnouncementView {
                        id: "ntis_"@ + id_from(url, "roRndUid="@),
                        title: spec_trimmed(src, a),
                        url,
                        source: "NTIS"@,
                        date: cell_text(src, labeled_cell(src, tds, "등록일"@)),
                        agency: cell_text(src, labeled_cell(src, tds, "기관명"@)),
                        deadline: cell_text(src, labeled_cell(src, tds, "마감일"@)),
                        matched_keywords: Seq::empty(),
                        extra: Map::empty(),
                    },
                )
            },
        },
    }
}

/// The announcements of the listing page `src`: one per row of the first
/// `table.basic_list tbody` that holds one, in order; none without that table.
pub open spec fn ntis_listing(src: Seq<char>) -> Seq<AnnouncementView> {
    let bodies = spec_select_doc(src, "table.basic_list tbody"@);
    if bodies.len() == 0 {
        Seq::empty()
    } else {
        spec_select_in(src, bodies[0], "tr"@).filter_map(|tr: usize| ntis_row(src, tr))
    }
}

/// Every announcement of the listing is reported under "NTIS", with an id
/// that begins with "ntis_", and with no keywords or details yet.
pub proof fn lemma_ntis_tagged(src: Seq<char>)
    ensures
        forall|i: int|
            0 <= i < ntis_listing(src).len() ==> tagged(#[trigger] ntis_listing(src)[i], "NTIS"@, "ntis_"@),
{
    let f = |r: usize| ntis_row(src, r);
    assert forall|r: usize| #[trigger] f(r) is Some implies tagged(f(r)->0, "NTIS"@, "ntis_"@) by {
        if let Some(a) = f(r) {
            lemma_prefixed_starts("ntis_"@, a.id.skip(5));
            assert(a.id =~= "ntis_"@ + a.id.skip(5)) by {
                reveal_strlit("ntis_");
            }
        }
    }
    let bodies = spec_select_doc(src, "table.basic_list tbody"@);
    if bodies.len() > 0 {
        let rows = spec_select_in(src, bodies[0], "tr"@);
        lemma_listing_tagged(rows, f, "NTIS"@, "ntis_"@);
        assert(ntis_listing(src) == rows.filter_map(f));
    }
}

struct NtisKit {
    tbody: Css,
    tr: Css,
    td: Css,
    a: Css,
}

impl NtisCrawler {
    /// A crawler whose requests time out after `timeout` seconds.
    pub fn new(timeout: u64) -> (r: Self)
        ensures
            r.timeout_spec() == timeout,
    {
        NtisCrawler { timeout }
    }

    fn kit() -> (r: Result<NtisKit, ScrapeError>)
        ensures
            r is Ok <==> ntis_selectors_ok(),
            r matches Err(e) ==> e == ScrapeError::Selector,
            r matches Ok(k) ==> k.tbody@ == "table.basic_list tbody"@ && k.tr@ == "tr"@ && k.td@
                == "td"@ && k.a@ == "a"@,
    {
        let tbody = selector("table.basic_list tbody")?;
        let tr = selector("tr")?;
        let td = selector("td")?;
        let a = selector("a")?;
        Ok(NtisKit { tbody, tr, td, a })
    }

    /// The cells of a row that carry the four labels, as `labeled_cell` picks them.
    fn labeled_cells(page: &Page, tds: &Vec<usize>) -> (r: (
        Option<usize>,
        Option<usize>,
        Option<usize>,
        Option<usize>,
    ))
        requires
            forall|k: int| 0 <= k < tds@.len() ==> #[trigger] tds@[k] < spec_node_count(page@),
        ensures
            r.0 == labeled_cell(page@, tds@, "공고명"@),
            r.1 == labeled_cell(page@, tds@, "등록일"@),
            r.2 == labeled_cell(page@, tds@, "기관명"@),
            r.3 == labeled_cell(page@, tds@, "마감일"@),
            r.0 matches Some(c) ==> c < spec_node_count(page@),
            r.1 matches Some(c) ==> c < spec_node_count(page@),
            r.2 matches Some(c) ==> c < spec_node_count(page@),
            r.3 matches Some(c) ==> c < spec_node_count(page@),
    {
        let l_title = to_chars("공고명");
        let l_date = to_chars("등록일");
        let l_agency = to_chars("기관명");
        let l_deadline = to_chars("마감일");
        let mut title_td: Option<usize> = None;
        let mut date_td: Option<usize> = None;
        let mut agency_td: Option<usize> = None;
        let mut deadline_td: Option<usize> = None;
        let mut i: usize = 0;
        while i < tds.len()
            invariant
                i <= tds@.len(),
                forall|k: int| 0 <= k < tds@.len() ==> #[trigger] tds@[k] < spec_node_count(page@),
                l_title@ == "공고명"@,
                l_date@ == "등록일"@,
                l_agency@ == "기관명"@,
                l_deadline@ == "마감일"@,
                title_td == labeled_cell(page@, tds@.take(i as int), "공고명"@),
                date_td == labeled_cell(page@, tds@.take(i as int), "등록일"@),
                agency_td == labeled_cell(page@, tds@.take(i as int), "기관명"@),
                deadline_td == labeled_cell(page@, tds@.take(i as int), "마감일"@),
                title_td matches Some(c) ==> c < spec_node_count(page@),
                date_td matches Some(c) ==> c < spec_node_count(page@),
                agency_td matches Some(c) ==> c < spec_node_count(page@),
                deadline_td matches Some(c) ==> c < spec_node_count(page@),
            decreases tds@.len() - i,
        {
            proof {
                reveal_strlit("공고명");
                reveal_strlit("등록일");
                reveal_strlit("기관명");
                reveal_strlit("마감일");
                assert("공고명"@[0] != "등록일"@[0]);
                assert("공고명"@[0] != "기관명"@[0]);
                assert("등록일"@[0] != "기관명"@[0]);
            }
            let td = tds[i];
            assert(tds@.take(i + 1).drop_last() =~= tds@.take(i as int));
            assert(tds@.take(i + 1).last() == td);
            if let Some(dt) = page.attr(td, "data-title") {
                let label = trim(&to_chars(dt.as_str()));
                if chars_eq(&label, &l_title) {
                    title_td = Some(td);
                } else if chars_eq(&label, &l_date) {
                    date_td = Some(td);
                } else if chars_eq(&label, &l_agency) {
                    agency_td = Some(td);
                } else if chars_eq(&label, &l_deadline) {
                    deadline_td = Some(td);
                }
            }
            i = i + 1;
        }
        assert(tds@.take(tds@.len() as int) =~= tds@);
        (title_td, date_td, agency_td, deadline_td)
    }

    fn row(page: &Page, kit: &NtisKit, tr: usize) -> (r: Option<Announcement>)
        requires
            tr < spec_node_count(page@),
            kit.td@ == "td"@,
            kit.a@ == "a"@,
        ensures
            match r {
                Some(a) => ntis_row(page@, tr) == Some(a@),
                None => ntis_row(page@, tr) is None,
            },
    {
        let tds = page.select_in(tr, &kit.td);
        let (title_td, date_td, agency_td, deadline_td) = Self::labeled_cells(page, &tds);
        let title_td = match title_td {
            Some(t) => t,
            None => return None,
        };
        let a = match first_in_exec(page, title_td, &kit.a) {
            Some(a) => a,
            None => return None,
        };
        let title = trimmed_text(page, a);
        let href = match page.attr(a, "href") {
            Some(h) => to_chars(h.as_str()),
            None => Vec::new(),
        };
        let url = absolute_exec("https://www.ntis.go.kr", &href);
        let id = id_from_exec(&url, &to_chars("roRndUid="));
        let mut ann = Announcement::new(
            prefixed("ntis_", &id),
            crate::text::from_chars(&title),
            crate::text::from_chars(&url),
            "NTIS".to_owned(),
        );
        ann.agency = cell_text_exec(page, agency_td);
        ann.date = cell_text_exec(page, date_td);
        ann.deadline = cell_text_exec(page, deadline_td);
        Some(ann)
    }

    /// The announcements of the NTIS listing page `html` (see `ntis_listing`);
    /// an error where a selector does not parse.
    pub fn parse_listing(&self, html: &str) -> (r: Result<Vec<Announcement>, ScrapeError>)
        ensures
            r is Ok <==> ntis_selectors_ok(),
            r matches Ok(v) ==> views(v@) == ntis_listing(html@),
            r matches Err(e) ==> e == ScrapeError::Selector,
    {
        let kit = Self::kit()?;
        let page = Page::parse(html);
        let bodies = page.select(&kit.tbody);
        let mut results: Vec<Announcement> = Vec::new();
        if bodies.len() == 0 {
            return Ok(results);
        }
        let rows = page.select_in(bodies[0], &kit.tr);
        let ghost src = page@;
        let ghost f = |tr: usize| ntis_row(src, tr);
        let mut i: usize = 0;
        while i < rows.len()
            invariant
                i <= rows@.len(),
                src == page@,
                src == html@,
                f == (|tr: usize| ntis_row(src, tr)),
                kit.td@ == "td"@,
                kit.a@ == "a"@,
                forall|k: int| 0 <= k < rows@.len() ==> #[trigger] rows@[k] < spec_node_count(page@),
                views(results@) == rows@.take(i as int).filter_map(f),
            decreases rows@.len() - i,
        {
            proof {
                rows@.lemma_filter_map_take_succ(f, i as int);
            }
            match Self::row(&page, &kit, rows[i]) {
                Some(a) => {
                    let ghost before = results@;
                    results.push(a);
                    assert(views(results@) =~= views(before).push(a@));
                },
                None => {},
            }
            i = i + 1;
        }
        assert(rows@.take(rows@.len() as int) =~= rows@);
        Ok(results)
    }
}

impl Crawler for NtisCrawler {
    open spec fn name_spec(&self) -> Seq<char> {
        "NTIS"@
    }

    closed spec fn timeout_spec(&self) -> u64 {
        self.timeout
    }

    fn source_name(&self) -> (r: &'static str) {
        "NTIS"
    }

    fn timeout(&self) -> u64 {
        self.timeout
    }
}

} // verus!
