//! NST, the National Research Council of Science & Technology: its notices.
use crate::crawlers::base::{
    lemma_listing_tagged, lemma_prefixed_starts, tagged,
    first_in, first_in_exec, id_from, id_from_exec, prefixed, selector, spec_trimmed, trimmed_text,
    Crawler, ScrapeError,
};
use crate::dom::{spec_attr, spec_css_ok, spec_node_count, spec_select_doc, spec_select_in, Css, Page};
use crate::models::{opt_view, views, Announcement, AnnouncementView};
use crate::text::{
    byte_len, byte_len_exec, concat, contains, contains_seq, count_char, count_char_exec, from_chars,
    slice_chars, starts_with, starts_with_seq, to_chars,
};
use vstd::prelude::*;

verus! {

broadcast use vstd::seq_lib::group_seq_properties;

/// The crawler of NST.
pub struct NstCrawler {
    timeout: u64,
}

/// The page that lists the notices.
pub const NST_LIST_URL: &'static str = "https://www.nst.re.kr/www/selectBbsNttList.do?bbsNo=18&key=60";

/// The selectors that the listing needs all parse.
pub open spec fn nst_selectors_ok() -> bool {
    &&& spec_css_ok("table.p-table tbody"@)
    &&& spec_css_ok("tr"@)
    &&& spec_css_ok("td"@)
    &&& spec_css_ok("td.p-subject"@)
    &&& spec_css_ok("a"@)
}

/// A link made absolute on the NST site: `./x` is taken relative to `/www/`,
/// `/x` relative to the host, anything else as it is.
pub open spec fn nst_url(href: Seq<char>) -> Seq<char> {
    if starts_with_seq(href, "./"@) {
        "https://www.nst.re.kr/www/"@ + href.skip(2)
    } else if starts_with_seq(href, "/"@) {
        "https://www.nst.re.kr"@ + href
    } else {
        href
    }
}

/// A cell text that looks like a date: ten bytes with two dashes.
pub open spec fn date_like(t: Seq<char>) -> bool {
    byte_len(t) == 10 && count_char(t, '-') == 2
}

/// A cell text that names an institute or a council.
pub open spec fn names_institute(t: Seq<char>) -> bool {
    contains_seq(t, "연구원"@) || contains_seq(t, "연구회"@)
}

/// The date, the deadline and the agency that the cells give: the first date-like
/// cell is the date, a later one the deadline (the last such), and the last cell
/// that names an institute is the agency.
pub open spec fn nst_cells(src: Seq<char>, tds: Seq<usize>) -> (
    Option<Seq<char>>,
    Option<Seq<char>>,
    Option<Seq<char>>,
)
    decreases tds.len(),
{
    if tds.len() == 0 {
        (None, None, None)
    } else {
        let prev = nst_cells(src, tds.drop_last());
        let t = spec_trimmed(src, tds.last());
        if date_like(t) {
            if prev.0 is None {
                (Some(t), prev.1, prev.2)
            } else {
                (prev.0, Some(t), prev.2)
            }
        } else if names_institute(t) {
            (prev.0, prev.1, Some(t))
        } else {
            prev
        }
    }
}

/// A cell that gives the agency: its trimmed text is not date-like and holds
/// "연구원" or "연구회".
pub open spec fn agency_cell(src: Seq<char>, td: usize) -> bool {
    let t = spec_trimmed(src, td);
    !date_like(t) && (contains_seq(t, "연구원"@) || contains_seq(t, "연구회"@))
}

proof fn lemma_cells_agency(src: Seq<char>, tds: Seq<usize>)
    ensures
        (forall|k: int| 0 <= k < tds.len() ==> !#[trigger] agency_cell(src, tds[k]))
            ==> nst_cells(src, tds).2 is None,
        forall|j: int|
            0 <= j < tds.len() && #[trigger] agency_cell(src, tds[j]) && (forall|k: int|
                j < k < tds.len() ==> !#[trigger] agency_cell(src, tds[k])) ==> nst_cells(src, tds).2
                == Some(spec_trimmed(src, tds[j])),
    decreases tds.len(),
{
    if tds.len() > 0 {
        let prefix = tds.drop_last();
        lemma_cells_agency(src, prefix);
        assert forall|k: int| 0 <= k < prefix.len() implies prefix[k] == tds[k] by {}
        if !agency_cell(src, tds.last()) {
            assert forall|j: int|
                0 <= j < tds.len() && #[trigger] agency_cell(src, tds[j]) && (forall|k: int|
                    j < k < tds.len() ==> !#[trigger] agency_cell(src, tds[k])) implies nst_cells(
                src,
                tds,
            ).2 == Some(spec_trimmed(src, tds[j])) by {
                assert(j < tds.len() - 1);
                assert(agency_cell(src, prefix[j]));
                assert forall|k: int| j < k < prefix.len() implies !#[trigger] agency_cell(
                    src,
                    prefix[k],
                ) by {
                    assert(prefix[k] == tds[k]);
                }
            }
        }
    }
}

/// In an NST row, the agency is the trimmed text of the last cell that is not
/// date-like and names an institute ("연구원") or a council ("연구회"); a row
/// without such a cell has no agency.
pub proof fn lemma_nst_agency(src: Seq<char>, tr: usize)
    ensures
        nst_row(src, tr) matches Some(a) ==> {
            let tds = spec_select_in(src, tr, "td"@);
            &&& (forall|k: int| 0 <= k < tds.len() ==> !#[trigger] agency_cell(src, tds[k]))
                ==> a.agency is None
            &&& forall|j: int|
                0 <= j < tds.len() && #[trigger] agency_cell(src, tds[j]) && (forall|k: int|
                    j < k < tds.len() ==> !#[trigger] agency_cell(src, tds[k])) ==> a.agency == Some(
                    spec_trimmed(src, tds[j]),
                )
        },
{
    lemma_cells_agency(src, spec_select_in(src, tr, "td"@));
}

/// The announcement that a table row holds: the row needs a `td.p-subject` cell
/// with a link in it.
pub open spec fn nst_row(src: Seq<char>, tr: usize) -> Option<AnnouncementView> {
    match first_in(src, tr, "td.p-subject"@) {
        None => None,
        Some(subj) => match first_in(src, subj, "a"@) {
            None => None,
            Some(a) => {
                let href = match spec_attr(src, a, "href"@) {
                    Some(h) => h,
                    None => Seq::empty(),
                };
                let url = nst_url(href);
                let cells = nst_cells(src, spec_select_in(src, tr, "td"@));
                Some(
                    AnnouncementView {
                        id: "nst_"@ + id_from(url, "nttNo="@),
                        title: spec_trimmed(src, a),
                        url,
                        source: "NST"@,
                        date: cells.0,
                        agency: cells.2,
                        deadline: cells.1,
                        matched_keywords: Seq::empty(),
                        extra: Map::empty(),
                    },
                )
            },
        },
    }
}

/// The announcements of the listing page `src`: one per row of the first
/// `table.p-table tbody`, in order; none without that table.
pub open spec fn nst_listing(src: Seq<char>) -> Seq<AnnouncementView> {
    let bodies = spec_select_doc(src, "table.p-table tbody"@);
    if bodies.len() == 0 {
        Seq::empty()
    } else {
        spec_select_in(src, bodies[0], "tr"@).filter_map(|tr: usize| nst_row(src, tr))
    }
}

/// Every announcement of the listing is reported under "NST", with an id
/// that begins with "nst_", and with no keywords or details yet.
pub proof fn lemma_nst_tagged(src: Seq<char>)
    ensures
        forall|i: int|
            0 <= i < nst_listing(src).len() ==> tagged(#[trigger] nst_listing(src)[i], "NST"@, "nst_"@),
{
    let f = |r: usize| nst_row(src, r);
    assert forall|r: usize| #[trigger] f(r) is Some implies tagged(f(r)->0, "NST"@, "nst_"@) by {
        if let Some(a) = f(r) {
            lemma_prefixed_starts("nst_"@, a.id.skip(4));
            assert(a.id =~= "nst_"@ + a.id.skip(4)) by {
                reveal_strlit("nst_");
            }
        }
    }
    let bodies = spec_select_doc(src, "table.p-table tbody"@);
    if bodies.len() > 0 {
        let rows = spec_select_in(src, bodies[0], "tr"@);
        lemma_listing_tagged(rows, f, "NST"@, "nst_"@);
        assert(nst_listing(src) == rows.filter_map(f));
    }
}

struct NstKit {
    tbody: Css,
    tr: Css,
    td: Css,
    subj: Css,
    a: Css,
}

impl NstCrawler {
    /// A crawler whose requests time out after `timeout` seconds.
    pub fn new(timeout: u64) -> (r: Self)
        ensures
            r.timeout_spec() == timeout,
    {
        NstCrawler { timeout }
    }

    fn kit() -> (r: Result<NstKit, ScrapeError>)
        ensures
            r is Ok <==> nst_selectors_ok(),
            r matches Err(e) ==> e == ScrapeError::Selector,
            r matches Ok(k) ==> k.tbody@ == "table.p-table tbody"@ && k.tr@ == "tr"@ && k.td@
                == "td"@ && k.subj@ == "td.p-subject"@ && k.a@ == "a"@,
    {
        let tbody = selector("table.p-table tbody")?;
        let tr = selector("tr")?;
        let td = selector("td")?;
        let subj = selector("td.p-subject")?;
        let a = selector("a")?;
        Ok(NstKit { tbody, tr, td, subj, a })
    }

    fn url(href: &[char]) -> (r: Vec<char>)
        ensures
            r@ == nst_url(href@),
    {
        if starts_with(href, &to_chars("./")) {
            proof {
                reveal_strlit("./");
            }
            concat(&to_chars("https://www.nst.re.kr/www/"), &slice_chars(href, 2, href.len()))
        } else if starts_with(href, &to_chars("/")) {
            concat(&to_chars("https://www.nst.re.kr"), href)
        } else {
            concat(href, &[])
        }
    }

    fn cells(page: &Page, tds: &Vec<usize>) -> (r: (Option<String>, Option<String>, Option<String>))
        requires
            forall|k: int| 0 <= k < tds@.len() ==> #[trigger] tds@[k] < spec_node_count(page@),
        ensures
            (opt_view(r.0), opt_view(r.1), opt_view(r.2)) == nst_cells(page@, tds@),
    {
        let inst = to_chars("연구원");
        let council = to_chars("연구회");
        let mut date: Option<String> = None;
        let mut deadline: Option<String> = None;
        let mut agency: Option<String> = None;
        let mut i: usize = 0;
        while i < tds.len()
            invariant
                i <= tds@.len(),
                forall|k: int| 0 <= k < tds@.len() ==> #[trigger] tds@[k] < spec_node_count(page@),
                inst@ == "연구원"@,
                council@ == "연구회"@,
                (opt_view(date), opt_view(deadline), opt_view(agency)) == nst_cells(
                    page@,
                    tds@.take(i as int),
                ),
            decreases tds@.len() - i,
        {
            assert(tds@.take(i + 1).drop_last() =~= tds@.take(i as int));
            assert(tds@.take(i + 1).last() == tds@[i as int]);
            let text = trimmed_text(page, tds[i]);
            if byte_len_exec(&text) == 10 && count_char_exec(&text, '-') == 2 {
                if date.is_none() {
                    date = Some(from_chars(&text));
                } else {
                    deadline = Some(from_chars(&text));
                }
            } else if contains(&text, &inst) || contains(&text, &council) {
                agency = Some(from_chars(&text));
            }
            i = i + 1;
        }
        assert(tds@.take(tds@.len() as int) =~= tds@);
        (date, deadline, agency)
    }

    fn row(page: &Page, kit: &NstKit, tr: usize) -> (r: Option<Announcement>)
        requires
            tr < spec_node_count(page@),
            kit.td@ == "td"@,
            kit.subj@ == "td.p-subject"@,
            kit.a@ == "a"@,
        ensures
            match r {
                Some(a) => nst_row(page@, tr) == Some(a@),
                None => nst_row(page@, tr) is None,
            },
    {
        let subj = match first_in_exec(page, tr, &kit.subj) {
            Some(s) => s,
            None => return None,
        };
        let a = match first_in_exec(page, subj, &kit.a) {
            Some(a) => a,
            None => return None,
        };
        let title = trimmed_text(page, a);
        let href = match page.attr(a, "href") {
            Some(h) => to_chars(h.as_str()),
            None => Vec::new(),
        };
        let url = Self::url(&href);
        let id = id_from_exec(&url, &to_chars("nttNo="));
        let tds = page.select_in(tr, &kit.td);
        let (date, deadline, agency) = Self::cells(page, &tds);
        let mut ann = Announcement::new(
            prefixed("nst_", &id),
            from_chars(&title),
            from_chars(&url),
            "NST".to_owned(),
        );
        ann.date = date;
        ann.deadline = deadline;
        ann.agency = agency;
        Some(ann)
    }

    /// The announcements of the NST listing page `html` (see `nst_listing`);
    /// an error where a selector does not parse.
    pub fn parse_listing(&self, html: &str) -> (r: Result<Vec<Announcement>, ScrapeError>)
        ensures
            r is Ok <==> nst_selectors_ok(),
            r matches Ok(v) ==> views(v@) == nst_listing(html@),
            r matches Err(e) ==> e == ScrapeError::Selector,
    {
        let kit = Self::kit()?;
        let page = Page::parse(html);
        let bodies = page.select(&kit.tbody);
        let mut results: Vec<Announcement> = Vec::new();
        if bodies.len() == 0 {
            return Ok(results);
        }
        let rows = page.select_in(bodies[0], &kit.tr);
        let ghost src = page@;
        let ghost f = |tr: usize| nst_row(src, tr);
        let mut i: usize = 0;
        while i < rows.len()
            invariant
                i <= rows@.len(),
                src == page@,
                src == html@,
                f == (|tr: usize| nst_row(src, tr)),
                kit.td@ == "td"@,
                kit.subj@ == "td.p-subject"@,
                kit.a@ == "a"@,
                forall|k: int| 0 <= k < rows@.len() ==> #[trigger] rows@[k] < spec_node_count(page@),
                views(results@) == rows@.take(i as int).filter_map(f),
            decreases rows@.len() - i,
        {
            proof {
                rows@.lemma_filter_map_take_succ(f, i as int);
            }
            match Self::row(&page, &kit, rows[i]) {
                Some(a) => {
                    let ghost before = results@;
                    results.push(a);
                    assert(views(results@) =~= views(before).push(a@));
                },
                None => {},
            }
            i = i + 1;
        }
        assert(rows@.take(rows@.len() as int) =~= rows@);
        Ok(results)
    }
}

impl Crawler for NstCrawler {
    open spec fn name_spec(&self) -> Seq<char> {
        "NST"@
    }

    closed spec fn timeout_spec(&self) -> u64 {
        self.timeout
    }

    fn source_name(&self) -> (r: &'static str) {
        "NST"
    }

    fn timeout(&self) -> u64 {
        self.timeout
    }
}

} // verus!
