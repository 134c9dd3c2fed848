//! IITP, the Institute of Information & communications Technology Planning &
//! evaluation: its list of calls.
use crate::crawlers::base::{
    lemma_listing_tagged, lemma_prefixed_starts, tagged,
    first_in, first_in_exec, hashed_id, hashed_id_exec, pattern, prefixed, selector, spec_trimmed,
    trimmed_text, Crawler, ScrapeError,
};
use crate::dom::{spec_attr, spec_css_ok, spec_node_count, spec_select_doc, Css, Page};
use crate::models::{opt_view, views, Announcement, AnnouncementView};
use crate::pattern::{spec_capture, spec_regex_ok, Pattern};
use crate::text::{
    after_first, after_first_exec, before_first, before_first_exec, concat, count_char,
    count_char_exec, from_chars, lemma_count_pos_found, to_chars, trim, trim_seq,
};
use vstd::prelude::*;

verus! {

broadcast use vstd::seq_lib::group_seq_properties;

/// The crawler of IITP.
pub struct IitpCrawler {
    timeout: u64,
}

/// The page that lists the calls.
pub const IITP_LIST_URL: &'static str = "https://ezone.iitp.kr/common/anno/list";

/// The pattern that finds a call's path in the click handler of its link.
pub open spec fn iitp_onclick() -> Seq<char> {
    "post_to_url\\('([^']+)'"@
}

/// The pattern that finds a call's id in its link.
pub open spec fn iitp_id_pattern() -> Seq<char> {
    "(?:PMS_TSK_PBNC_ID|PMS_DMSY_PBNC_ID|PMS_TK_PBNC_ID)=([^&]+)"@
}

/// The selectors that the listing needs all parse.
pub open spec fn iitp_selectors_ok() -> bool {
    &&& spec_css_ok("ul.basic_bbs li.clearfix"@)
    &&& spec_css_ok("span.tit"@)
    &&& spec_css_ok("a[onclick]"@)
    &&& spec_css_ok("span.bbs_info span"@)
}

/// The selectors and the patterns that the listing needs all parse.
pub open spec fn iitp_ok() -> bool {
    iitp_selectors_ok() && spec_regex_ok(iitp_onclick()) && spec_regex_ok(iitp_id_pattern())
}

/// The two ends of a period `start ~ end`, trimmed, where it holds exactly one `~`.
pub open spec fn period_ends(period: Seq<char>) -> (Option<Seq<char>>, Option<Seq<char>>) {
    if count_char(period, '~') == 1 {
        (
            Some(trim_seq(before_first(period, "~"@))),
            Some(trim_seq(after_first(period, "~"@)->0)),
        )
    } else {
        (None, None)
    }
}

/// The announcement that a list item holds: a non-empty `span.tit` title and a
/// link whose click handler gives the path; the id comes from the link, or is
/// the hashed link; the period in `span.bbs_info span` gives the date and the
/// deadline.
pub open spec fn iitp_item(src: Seq<char>, li: usize) -> Option<AnnouncementView> {
    match first_in(src, li, "span.tit"@) {
        None => None,
        Some(t) => if spec_trimmed(src, t).len() == 0 {
            None
        } else {
            match first_in(src, li, "a[onclick]"@) {
                None => None,
                Some(a) => {
                    let onclick = match spec_attr(src, a, "onclick"@) {
                        Some(o) => o,
                        None => Seq::empty(),
                    };
                    match spec_capture(iitp_onclick(), onclick, 1) {
                        None => None,
                        Some(path) => {
                            let url = "https://ezone.iitp.kr"@ + path;
                            let id = match spec_capture(iitp_id_pattern(), url, 1) {
                                Some(x) => x,
                                None => hashed_id(url),
                            };
                            let ends = match first_in(src, li, "span.bbs_info span"@) {
                                Some(sp) => period_ends(spec_trimmed(src, sp)),
                                None => (None, None),
                            };
                            Some(
                                AnnouncementView {
                                    id: "iitp_"@ + id,
                                    title: spec_trimmed(src, t),
                                    url,
                                    source: "IITP"@,
                                    date: ends.0,
                                    agency: None,
                                    deadline: ends.1,
                                    matched_keywords: Seq::empty(),
                                    extra: Map::empty(),
                                },
                            )
                        },
                    }
                },
            }
        },
    }
}

/// The announcements of the listing page `src`, one per list item, in order.
pub open spec fn iitp_listing(src: Seq<char>) -> Seq<AnnouncementView> {
    spec_select_doc(src, "ul.basic_bbs li.clearfix"@).filter_map(|li: usize| iitp_item(src, li))
}

/// Every announcement of the listing is reported under "IITP", with an id
/// that begins with "iitp_", and with no keywords or details yet.
pub proof fn lemma_iitp_tagged(src: Seq<char>)
    ensures
        forall|i: int|
            0 <= i < iitp_listing(src).len() ==> tagged(#[trigger] iitp_listing(src)[i], "IITP"@, "iitp_"@),
{
    let f = |r: usize| iitp_item(src, r);
    assert forall|r: usize| #[trigger] f(r) is Some implies tagged(f(r)->0, "IITP"@, "iitp_"@) by {
        if let Some(a) = f(r) {
            lemma_prefixed_starts("iitp_"@, a.id.skip(5));
            assert(a.id =~= "iitp_"@ + a.id.skip(5)) by {
                reveal_strlit("iitp_");
            }
        }
    }
    lemma_listing_tagged(spec_select_doc(src, "ul.basic_bbs li.clearfix"@), f, "IITP"@, "iitp_"@);
    assert(iitp_listing(src) == spec_select_doc(src, "ul.basic_bbs li.clearfix"@).filter_map(f));
}

struct IitpKit {
    li: Css,
    tit: Css,
    a: Css,
    info: Css,
    onclick: Pattern,
    id: Pattern,
}

impl IitpCrawler {
    /// A crawler whose requests time out after `timeout` seconds.
    pub fn new(timeout: u64) -> (r: Self)
        ensures
            r.timeout_spec() == timeout,
    {
        IitpCrawler { timeout }
    }

    fn kit() -> (r: Result<IitpKit, ScrapeError>)
        ensures
            r is Ok <==> iitp_ok(),
            r matches Err(e) ==> (e == ScrapeError::Selector <==> !iitp_selectors_ok()) && (e
                == ScrapeError::Selector || e == ScrapeError::Pattern),
            r matches Ok(k) ==> k.li@ == "ul.basic_bbs li.clearfix"@ && k.tit@ == "span.tit"@
                && k.a@ == "a[onclick]"@ && k.info@ == "span.bbs_info span"@ && k.onclick@
                == iitp_onclick() && k.id@ == iitp_id_pattern(),
    {
        let li = selector("ul.basic_bbs li.clearfix")?;
        let tit = selector("span.tit")?;
        let a = selector("a[onclick]")?;
        let info = selector("span.bbs_info span")?;
        let onclick = pattern("post_to_url\\('([^']+)'")?;
        let id = pattern("(?:PMS_TSK_PBNC_ID|PMS_DMSY_PBNC_ID|PMS_TK_PBNC_ID)=([^&]+)")?;
        Ok(IitpKit { li, tit, a, info, onclick, id })
    }

    fn period(period: &[char]) -> (r: (Option<String>, Option<String>))
        ensures
            (opt_view(r.0), opt_view(r.1)) == period_ends(period@),
    {
        if count_char_exec(period, '~') == 1 {
            let tilde = to_chars("~");
            proof {
                reveal_strlit("~");
                assert(tilde@ == seq!['~']);
                lemma_count_pos_found(period@, '~');
            }
            let start = trim(&before_first_exec(period, &tilde));
            match after_first_exec(period, &tilde) {
                Some(rest) => (Some(from_chars(&start)), Some(from_chars(&trim(&rest)))),
                None => (None, None),
            }
        } else {
            (None, None)
        }
    }

    fn item(page: &Page, kit: &IitpKit, li: usize) -> (r: Option<Announcement>)
        requires
            li < spec_node_count(page@),
            kit.tit@ == "span.tit"@,
            kit.a@ == "a[onclick]"@,
            kit.info@ == "span.bbs_info span"@,
            kit.onclick@ == iitp_onclick(),
            kit.id@ == iitp_id_pattern(),
        ensures
            match r {
                Some(x) => iitp_item(page@, li) == Some(x@),
                None => iitp_item(page@, li) is None,
            },
    {
        let t = match first_in_exec(page, li, &kit.tit) {
            Some(t) => t,
            None => return None,
        };
        let title = trimmed_text(page, t);
        if title.len() == 0 {
            return None;
        }
        let a = match first_in_exec(page, li, &kit.a) {
            Some(a) => a,
            None => return None,
        };
        let onclick = match page.attr(a, "onclick") {
            Some(o) => o,
            None => String::new(),
        };
        let path = match kit.onclick.capture(onclick.as_str(), 1) {
            Some(p) => to_chars(p.as_str()),
            None => return None,
        };
        let url = concat(&to_chars("https://ezone.iitp.kr"), &path);
        let url_string = from_chars(&url);
        let id = match kit.id.capture(url_string.as_str(), 1) {
            Some(x) => to_chars(x.as_str()),
            None => hashed_id_exec(&url),
        };
        let (date, deadline) = match first_in_exec(page, li, &kit.info) {
            Some(sp) => Self::period(&trimmed_text(page, sp)),
            None => (None, None),
        };
        let mut ann = Announcement::new(
            prefixed("iitp_", &id),
            from_chars(&title),
            url_string,
            "IITP".to_owned(),
        );
        ann.date = date;
        ann.deadline = deadline;
        Some(ann)
    }

    /// The announcements of the IITP listing page `html` (see `iitp_listing`);
    /// an error where a selector or a pattern does not parse.
    pub fn parse_listing(&self, html: &str) -> (r: Result<Vec<Announcement>, ScrapeError>)
        ensures
            r is Ok <==> iitp_ok(),
            r matches Ok(v) ==> views(v@) == iitp_listing(html@),
            r matches Err(e) ==> (e == ScrapeError::Selector <==> !iitp_selectors_ok()) && (e
                == ScrapeError::Selector || e == ScrapeError::Pattern),
    {
        let kit = Self::kit()?;
        let page = Page::parse(html);
        let items = page.select(&kit.li);
        let mut results: Vec<Announcement> = Vec::new();
        let ghost src = page@;
        let ghost f = |li: usize| iitp_item(src, li);
        let mut i: usize = 0;
        while i < items.len()
            invariant
                i <= items@.len(),
                src == page@,
                src == html@,
                f == (|li: usize| iitp_item(src, li)),
                kit.tit@ == "span.tit"@,
                kit.a@ == "a[onclick]"@,
                kit.info@ == "span.bbs_info span"@,
                kit.onclick@ == iitp_onclick(),
                kit.id@ == iitp_id_pattern(),
                forall|k: int| 0 <= k < items@.len() ==> #[trigger] items@[k] < spec_node_count(
                    page@,
                ),
                views(results@) == items@.take(i as int).filter_map(f),
            decreases items@.len() - i,
        {
            proof {
                items@.lemma_filter_map_take_succ(f, i as int);
            }
            match Self::item(&page, &kit, items[i]) {
                Some(a) => {
                    let ghost before = results@;
                    results.push(a);
                    assert(views(results@) =~= views(before).push(a@));
                },
                None => {},
            }
            i = i + 1;
        }
        assert(items@.take(items@.len() as int) =~= items@);
        Ok(results)
    }
}

impl Crawler for IitpCrawler {
    open spec fn name_spec(&self) -> Seq<char> {
        "IITP"@
    }

    closed spec fn timeout_spec(&self) -> u64 {
        self.timeout
    }

    fn source_name(&self) -> (r: &'static str) {
        "IITP"
    }

    fn timeout(&self) -> u64 {
        self.timeout
    }
}

} // verus!
