//! IRIS, the integrated R&D information system: its guide to current programmes.
use crate::crawlers::base::{
    lemma_listing_tagged, lemma_prefixed_starts, tagged,
    cell_text, cell_text_exec, first_in, first_in_exec, pattern, prefixed, selector, spec_trimmed,
    trimmed_text, Crawler, ScrapeError,
};
use crate::dom::{spec_attr, spec_css_ok, spec_node_count, spec_select_doc, spec_select_in, Css, Page};
use crate::models::{views, Announcement, AnnouncementView};
use crate::pattern::{spec_capture, spec_regex_ok, Pattern};
use crate::text::{chars_eq, concat, from_chars, to_chars};
use vstd::prelude::*;

verus! {

broadcast use vstd::seq_lib::group_seq_properties;

/// The crawler of IRIS.
pub struct IrisCrawler {
    timeout: u64,
}

/// The page that lists the programmes.
pub const IRIS_LIST_URL: &'static str = "https://www.iris.go.kr/contents/retrieveBsnsPrgGuidListView.do";

/// The pattern that finds a programme's code and notice number in the click
/// handler of its link.
pub open spec fn iris_onclick() -> Seq<char> {
    "f_bsnsPrgGuid_view\\('([^']+)','([^']+)'\\)"@
}

/// The selectors that the listing needs all parse.
pub open spec fn iris_selectors_ok() -> bool {
    &&& spec_css_ok("tbody#listView"@)
    &&& spec_css_ok("tr"@)
    &&& spec_css_ok("td.title"@)
    &&& spec_css_ok("td"@)
    &&& spec_css_ok("a"@)
}

/// The selectors and the pattern that the listing needs all parse.
pub open spec fn iris_ok() -> bool {
    iris_selectors_ok() && spec_regex_ok(iris_onclick())
}

/// The last cell whose `data-title` is exactly `label`.
pub open spec fn iris_cell(src: Seq<char>, tds: Seq<usize>, label: Seq<char>) -> Option<usize>
    decreases tds.len(),
{
    if tds.len() == 0 {
        None
    } else if spec_attr(src, tds.last(), "data-title"@) == Some(label) {
        Some(tds.last())
    } else {
        iris_cell(src, tds.drop_last(), label)
    }
}

/// The announcement that a table row holds: a `td.title` cell with a link whose
/// click handler gives the programme's code and notice number; the cells
/// labeled "전문기관", "등록일" and "수정일" give the agency, the date and the
/// deadline.
pub open spec fn iris_row(src: Seq<char>, tr: usize) -> Option<AnnouncementView> {
    match first_in(src, tr, "td.title"@) {
        None => None,
        Some(cell) => match first_in(src, cell, "a"@) {
            None => None,
            Some(a) => {
                let onclick = match spec_attr(src, a, "onclick"@) {
                    Some(o) => o,
                    None => Seq::empty(),
                };
                match (
                    spec_capture(iris_onclick(), onclick, 1),
                    spec_capture(iris_onclick(), onclick, 2),
                ) {
                    (Some(code), Some(sn)) => {
                        let tds = spec_select_in(src, tr, "td"@);
                        Some(
                            AnnouncementView {
                                id: "iris_"@ + code + "_"@ + sn,
                                title: spec_trimmed(src, a),
                                url: "https://www.iris.go.kr/contents/retrieveBsnsPrgGuidView.do?bsnsCd="@
                                    + code + "&pbancSn="@ + sn,
                                source: "IRIS"@,
                                date: cell_text(src, iris_cell(src, tds, "등록일"@)),
                                agency: cell_text(src, iris_cell(src, tds, "전문기관"@)),
                                deadline: cell_text(src, iris_cell(src, tds, "수정일"@)),
                                matched_keywords: Seq::empty(),
                                extra: Map::empty(),
                            },
                        )
                    },
                    _ => None,
                }
            },
        },
    }
}

/// The announcements of the listing page `src`: one per row of the first
/// `tbody#listView`, in order; none without it.
pub open spec fn iris_listing(src: Seq<char>) -> Seq<AnnouncementView> {
    let bodies = spec_select_doc(src, "tbody#listView"@);
    if bodies.len() == 0 {
        Seq::empty()
    } else {
        spec_select_in(src, bodies[0], "tr"@).filter_map(|tr: usize| iris_row(src, tr))
    }
}

/// Every announcement of the listing is reported under "IRIS", with an id
/// that begins with "iris_", and with no keywords or details yet.
pub proof fn lemma_iris_tagged(src: Seq<char>)
    ensures
        forall|i: int|
            0 <= i < iris_listing(src).len() ==> tagged(#[trigger] iris_listing(src)[i], "IRIS"@, "iris_"@),
{
    let f = |r: usize| iris_row(src, r);
    assert forall|r: usize| #[trigger] f(r) is Some implies tagged(f(r)->0, "IRIS"@, "iris_"@) by {
        if let Some(a) = f(r) {
            lemma_prefixed_starts("iris_"@, a.id.skip(5));
            assert(a.id =~= "iris_"@ + a.id.skip(5)) by {
                reveal_strlit("iris_");
            }
        }
    }
    let bodies = spec_select_doc(src, "tbody#listView"@);
    if bodies.len() > 0 {
        let rows = spec_select_in(src, bodies[0], "tr"@);
        lemma_listing_tagged(rows, f, "IRIS"@, "iris_"@);
        assert(iris_listing(src) == rows.filter_map(f));
    }
}

struct IrisKit {
    tbody: Css,
    tr: Css,
    title: Css,
    td: Css,
    a: Css,
    onclick: Pattern,
}

impl IrisCrawler {
    /// A crawler whose requests time out after `timeout` seconds.
    pub fn new(timeout: u64) -> (r: Self)
        ensures
            r.timeout_spec() == timeout,
    {
        IrisCrawler { timeout }
    }

    fn kit() -> (r: Result<IrisKit, ScrapeError>)
        ensures
            r is Ok <==> iris_ok(),
            r matches Err(e) ==> (e == ScrapeError::Selector <==> !iris_selectors_ok()) && (e
                == ScrapeError::Selector || e == ScrapeError::Pattern),
            r matches Ok(k) ==> k.tbody@ == "tbody#listView"@ && k.tr@ == "tr"@ && k.title@
                == "td.title"@ && k.td@ == "td"@ && k.a@ == "a"@ && k.onclick@ == iris_onclick(),
    {
        let tbody = selector("tbody#listView")?;
        let tr = selector("tr")?;
        let title = selector("td.title")?;
        let td = selector("td")?;
        let a = selector("a")?;
        let onclick = pattern("f_bsnsPrgGuid_view\\('([^']+)','([^']+)'\\)")?;
        Ok(IrisKit { tbody, tr, title, td, a, onclick })
    }

    fn cells(page: &Page, tds: &Vec<usize>) -> (r: (Option<usize>, Option<usize>, Option<usize>))
        requires
            forall|k: int| 0 <= k < tds@.len() ==> #[trigger] tds@[k] < spec_node_count(page@),
        ensures
            r.0 == iris_cell(page@, tds@, "전문기관"@),
            r.1 == iris_cell(page@, tds@, "등록일"@),
            r.2 == iris_cell(page@, tds@, "수정일"@),
            r.0 matches Some(c) ==> c < spec_node_count(page@),
            r.1 matches Some(c) ==> c < spec_node_count(page@),
            r.2 matches Some(c) ==> c < spec_node_count(page@),
    {
        let l_agency = to_chars("전문기관");
        let l_date = to_chars("등록일");
        let l_deadline = to_chars("수정일");
        let mut agency: Option<usize> = None;
        let mut date: Option<usize> = None;
        let mut deadline: Option<usize> = None;
        let mut i: usize = 0;
        while i < tds.len()
            invariant
                i <= tds@.len(),
                forall|k: int| 0 <= k < tds@.len() ==> #[trigger] tds@[k] < spec_node_count(page@),
                l_agency@ == "전문기관"@,
                l_date@ == "등록일"@,
                l_deadline@ == "수정일"@,
                agency == iris_cell(page@, tds@.take(i as int), "전문기관"@),
                date == iris_cell(page@, tds@.take(i as int), "등록일"@),
                deadline == iris_cell(page@, tds@.take(i as int), "수정일"@),
                agency matches Some(c) ==> c < spec_node_count(page@),
                date matches Some(c) ==> c < spec_node_count(page@),
                deadline matches Some(c) ==> c < spec_node_count(page@),
            decreases tds@.len() - i,
        {
            proof {
                reveal_strlit("전문기관");
                reveal_strlit("등록일");
                reveal_strlit("수정일");
                assert("전문기관"@[0] != "등록일"@[0]);
                assert("전문기관"@[0] != "수정일"@[0]);
                assert("등록일"@[0] != "수정일"@[0]);
            }
            let td = tds[i];
            assert(tds@.take(i + 1).drop_last() =~= tds@.take(i as int));
            assert(tds@.take(i + 1).last() == td);
            if let Some(dt) = page.attr(td, "data-title") {
                let label = to_chars(dt.as_str());
                if chars_eq(&label, &l_agency) {
                    agency = Some(td);
                } else if chars_eq(&label, &l_date) {
                    date = Some(td);
                } else if chars_eq(&label, &l_deadline) {
                    deadline = Some(td);
                }
            }
            i = i + 1;
        }
        assert(tds@.take(tds@.len() as int) =~= tds@);
        (agency, date, deadline)
    }

    fn row(page: &Page, kit: &IrisKit, tr: usize) -> (r: Option<Announcement>)
        requires
            tr < spec_node_count(page@),
            kit.title@ == "td.title"@,
            kit.td@ == "td"@,
            kit.a@ == "a"@,
            kit.onclick@ == iris_onclick(),
        ensures
            match r {
                Some(x) => iris_row(page@, tr) == Some(x@),
                None => iris_row(page@, tr) is None,
            },
    {
        let cell = match first_in_exec(page, tr, &kit.title) {
            Some(c) => c,
            None => return None,
        };
        let a = match first_in_exec(page, cell, &kit.a) {
            Some(a) => a,
            None => return None,
        };
        let title = trimmed_text(page, a);
        let onclick = match page.attr(a, "onclick") {
            Some(o) => o,
            None => String::new(),
        };
        let code = kit.onclick.capture(onclick.as_str(), 1);
        let sn = kit.onclick.capture(onclick.as_str(), 2);
        let (code, sn) = match (code, sn) {
            (Some(c), Some(s)) => (to_chars(c.as_str()), to_chars(s.as_str())),
            _ => return None,
        };
        let url = concat(
            &concat(
                &concat(
                    &to_chars("https://www.iris.go.kr/contents/retrieveBsnsPrgGuidView.do?bsnsCd="),
                    &code,
                ),
                &to_chars("&pbancSn="),
            ),
            &sn,
        );
        let id = concat(&concat(&code, &to_chars("_")), &sn);
        let tds = page.select_in(tr, &kit.td);
        let (agency, date, deadline) = Self::cells(page, &tds);
        let mut ann = Announcement::new(
            prefixed("iris_", &id),
            from_chars(&title),
            from_chars(&url),
            "IRIS".to_owned(),
        );
        ann.agency = cell_text_exec(page, agency);
        ann.date = cell_text_exec(page, date);
        ann.deadline = cell_text_exec(page, deadline);
        assert(ann@.id =~= "iris_"@ + code@ + "_"@ + sn@);
        Some(ann)
    }

    /// The announcements of the IRIS listing page `html` (see `iris_listing`);
    /// an error where a selector or the pattern does not parse.
    pub fn parse_listing(&self, html: &str) -> (r: Result<Vec<Announcement>, ScrapeError>)
        ensures
            r is Ok <==> iris_ok(),
            r matches Ok(v) ==> views(v@) == iris_listing(html@),
            r matches Err(e) ==> (e == ScrapeError::Selector <==> !iris_selectors_ok()) && (e
                == ScrapeError::Selector || e == ScrapeError::Pattern),
    {
        let kit = Self::kit()?;
        let page = Page::parse(html);
        let bodies = page.select(&kit.tbody);
        let mut results: Vec<Announcement> = Vec::new();
        if bodies.len() == 0 {
            return Ok(results);
        }
        let rows = page.select_in(bodies[0], &kit.tr);
        let ghost src = page@;
        let ghost f = |tr: usize| iris_row(src, tr);
        let mut i: usize = 0;
        while i < rows.len()
            invariant
                i <= rows@.len(),
                src == page@,
                src == html@,
                f == (|tr: usize| iris_row(src, tr)),
                kit.title@ == "td.title"@,
                kit.td@ == "td"@,
                kit.a@ == "a"@,
                kit.onclick@ == iris_onclick(),
                forall|k: int| 0 <= k < rows@.len() ==> #[trigger] rows@[k] < spec_node_count(page@),
                views(results@) == rows@.take(i as int).filter_map(f),
            decreases rows@.len() - i,
        {
            proof {
                rows@.lemma_filter_map_take_succ(f, i as int);
            }
            match Self::row(&page, &kit, rows[i]) {
                Some(a) => {
                    let ghost before = results@;
                    results.push(a);
                    assert(views(results@) =~= views(before).push(a@));
                },
                None => {},
            }
            i = i + 1;
        }
        assert(rows@.take(rows@.len() as int) =~= rows@);
        Ok(results)
    }
}

impl Crawler for IrisCrawler {
    open spec fn name_spec(&self) -> Seq<char> {
        "IRIS"@
    }

    closed spec fn timeout_spec(&self) -> u64 {
        self.timeout
    }

    fn source_name(&self) -> (r: &'static str) {
        "IRIS"
    }

    fn timeout(&self) -> u64 {
        self.timeout
    }
}

} // verus!
