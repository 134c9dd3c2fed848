//! MSIT, the Ministry of Science and ICT: its notices on security.
use crate::crawlers::base::{
    lemma_listing_tagged, lemma_prefixed_starts, tagged,
    cell_text, cell_text_exec, first_in, first_in_exec, pattern, prefixed, selector, spec_trimmed,
    trimmed_text, Crawler, ScrapeError,
};
use crate::dom::{spec_attr, spec_css_ok, spec_node_count, spec_select_doc, Css, Page};
use crate::models::{views, Announcement, AnnouncementView};
use crate::pattern::{spec_capture, spec_regex_ok, Pattern};
use crate::text::{concat, from_chars, to_chars};
use vstd::prelude::*;

verus! {

broadcast use vstd::seq_lib::group_seq_properties;

/// The crawler of MSIT.
pub struct MsitCrawler {
    timeout: u64,
}

/// The page that lists the notices.
pub const MSIT_LIST_URL: &'static str = "https://www.msit.go.kr/bbs/list.do?sCode=user&mId=311&mPid=121&pageIndex=1&bbsSeqNo=100&searchOpt=ALL&searchTxt=보안";

/// The pattern that finds a notice's number in the click handler of its link.
pub open spec fn msit_onclick() -> Seq<char> {
    "fn_detail\\((\\d+)\\)"@
}

/// The selectors that the listing needs all parse.
pub open spec fn msit_selectors_ok() -> bool {
    &&& spec_css_ok("div.board_list div.toggle > a"@)
    &&& spec_css_ok("p.title"@)
    &&& spec_css_ok("div.date"@)
    &&& spec_css_ok("div.meta"@)
}

/// The selectors and the pattern that the listing needs all parse.
pub open spec fn msit_ok() -> bool {
    msit_selectors_ok() && spec_regex_ok(msit_onclick())
}

/// The announcement that a notice link holds: its click handler gives the
/// notice's number, its `p.title` the title, its `div.date` and `div.meta` the
/// date and the agency.
pub open spec fn msit_item(src: Seq<char>, a: usize) -> Option<AnnouncementView> {
    let onclick = match spec_attr(src, a, "onclick"@) {
        Some(o) => o,
        None => Seq::empty(),
    };
    match spec_capture(msit_onclick(), onclick, 1) {
        None => None,
        Some(no) => match first_in(src, a, "p.title"@) {
            None => None,
            Some(t) => Some(
                AnnouncementView {
                    id: "msit_"@ + no,
                    title: spec_trimmed(src, t),
                    url: "https://www.msit.go.kr/bbs/view.do?sCode=user&mId=311&mPid=121&bbsSeqNo=100&nttSeqNo="@
                        + no,
                    source: "MSIT"@,
                    date: cell_text(src, first_in(src, a, "div.date"@)),
                    agency: cell_text(src, first_in(src, a, "div.meta"@)),
                    deadline: None,
                    matched_keywords: Seq::empty(),
                    extra: Map::empty(),
                },
            ),
        },
    }
}

/// The announcements of the listing page `src`, one per notice link, in order.
pub open spec fn msit_listing(src: Seq<char>) -> Seq<AnnouncementView> {
    spec_select_doc(src, "div.board_list div.toggle > a"@).filter_map(
        |a: usize| msit_item(src, a),
    )
}

/// Every announcement of the listing is reported under "MSIT", with an id
/// that begins with "msit_", and with no keywords or details yet.
pub proof fn lemma_msit_tagged(src: Seq<char>)
    ensures
        forall|i: int|
            0 <= i < msit_listing(src).len() ==> tagged(#[trigger] msit_listing(src)[i], "MSIT"@, "msit_"@),
{
    let f = |r: usize| msit_item(src, r);
    assert forall|r: usize| #[trigger] f(r) is Some implies tagged(f(r)->0, "MSIT"@, "msit_"@) by {
        if let Some(a) = f(r) {
            lemma_prefixed_starts("msit_"@, a.id.skip(5));
            assert(a.id =~= "msit_"@ + a.id.skip(5)) by {
                reveal_strlit("msit_");
            }
        }
    }
    lemma_listing_tagged(spec_select_doc(src, "div.board_list div.toggle > a"@), f, "MSIT"@, "msit_"@);
    assert(msit_listing(src) == spec_select_doc(src, "div.board_list div.toggle > a"@).filter_map(f));
}

struct MsitKit {
    link: Css,
    title: Css,
    date: Css,
    meta: Css,
    onclick: Pattern,
}

impl MsitCrawler {
    /// A crawler whose requests time out after `timeout` seconds.
    pub fn new(timeout: u64) -> (r: Self)
        ensures
            r.timeout_spec() == timeout,
    {
        MsitCrawler { timeout }
    }

    fn kit() -> (r: Result<MsitKit, ScrapeError>)
        ensures
            r is Ok <==> msit_ok(),
            r matches Err(e) ==> (e == ScrapeError::Selector <==> !msit_selectors_ok()) && (e
                == ScrapeError::Selector || e == ScrapeError::Pattern),
            r matches Ok(k) ==> k.link@ == "div.board_list div.toggle > a"@ && k.title@
                == "p.title"@ && k.date@ == "div.date"@ && k.meta@ == "div.meta"@ && k.onclick@
                == msit_onclick(),
    {
        let link = selector("div.board_list div.toggle > a")?;
        let title = selector("p.title")?;
        let date = selector("div.date")?;
        let meta = selector("div.meta")?;
        let onclick = pattern("fn_detail\\((\\d+)\\)")?;
        Ok(MsitKit { link, title, date, meta, onclick })
    }

    fn item(page: &Page, kit: &MsitKit, a: usize) -> (r: Option<Announcement>)
        requires
            a < spec_node_count(page@),
            kit.title@ == "p.title"@,
            kit.date@ == "div.date"@,
            kit.meta@ == "div.meta"@,
            kit.onclick@ == msit_onclick(),
        ensures
            match r {
                Some(x) => msit_item(page@, a) == Some(x@),
                None => msit_item(page@, a) is None,
            },
    {
        let onclick = match page.attr(a, "onclick") {
            Some(o) => o,
            None => String::new(),
        };
        let no = match kit.onclick.capture(onclick.as_str(), 1) {
            Some(n) => to_chars(n.as_str()),
            None => return None,
        };
        let t = match first_in_exec(page, a, &kit.title) {
            Some(t) => t,
            None => return None,
        };
        let url = concat(
            &to_chars(
                "https://www.msit.go.kr/bbs/view.do?sCode=user&mId=311&mPid=121&bbsSeqNo=100&nttSeqNo=",
            ),
            &no,
        );
        let mut ann = Announcement::new(
            prefixed("msit_", &no),
            from_chars(&trimmed_text(page, t)),
            from_chars(&url),
            "MSIT".to_owned(),
        );
        let date = first_in_exec(page, a, &kit.date);
        ann.date = cell_text_exec(page, date);
        let meta = first_in_exec(page, a, &kit.meta);
        ann.agency = cell_text_exec(page, meta);
        Some(ann)
    }

    /// The announcements of the MSIT listing page `html` (see `msit_listing`);
    /// an error where a selector or the pattern does not parse.
    pub fn parse_listing(&self, html: &str) -> (r: Result<Vec<Announcement>, ScrapeError>)
        ensures
            r is Ok <==> msit_ok(),
            r matches Ok(v) ==> views(v@) == msit_listing(html@),
            r matches Err(e) ==> (e == ScrapeError::Selector <==> !msit_selectors_ok()) && (e
                == ScrapeError::Selector || e == ScrapeError::Pattern),
    {
        let kit = Self::kit()?;
        let page = Page::parse(html);
        let links = page.select(&kit.link);
        let mut results: Vec<Announcement> = Vec::new();
        let ghost src = page@;
        let ghost f = |a: usize| msit_item(src, a);
        let mut i: usize = 0;
        while i < links.len()
            invariant
                i <= links@.len(),
                src == page@,
                src == html@,
                f == (|a: usize| msit_item(src, a)),
                kit.title@ == "p.title"@,
                kit.date@ == "div.date"@,
                kit.meta@ == "div.meta"@,
                kit.onclick@ == msit_onclick(),
                forall|k: int| 0 <= k < links@.len() ==> #[trigger] links@[k] < spec_node_count(
                    page@,
                ),
                views(results@) == links@.take(i as int).filter_map(f),
            decreases links@.len() - i,
        {
            proof {
                links@.lemma_filter_map_take_succ(f, i as int);
            }
            match Self::item(&page, &kit, links[i]) {
                Some(a) => {
                    let ghost before = results@;
                    results.push(a);
                    assert(views(results@) =~= views(before).push(a@));
                },
                None => {},
            }
            i = i + 1;
        }
        assert(links@.take(links@.len() as int) =~= links@);
        Ok(results)
    }
}

impl Crawler for MsitCrawler {
    open spec fn name_spec(&self) -> Seq<char> {
        "MSIT"@
    }

    closed spec fn timeout_spec(&self) -> u64 {
        self.timeout
    }

    fn source_name(&self) -> (r: &'static str) {
        "MSIT"
    }

    fn timeout(&self) -> u64 {
        self.timeout
    }
}

} // verus!
