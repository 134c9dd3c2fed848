//! KISTI, the Korea Institute of Science and Technology Information: its
//! research tasks, each with a detail page and, for some, a request for
//! proposals that can be previewed.
use crate::crawlers::base::{
    lemma_listing_tagged, lemma_prefixed_starts, tagged,
    absolute, absolute_exec, first_capture, first_capture_exec, first_in, first_in_exec,
    hashed_id, hashed_id_exec, pattern, patterns, prefixed, selector, spec_text, spec_trimmed,
    text_of, trimmed_text, Crawler, ScrapeError,
};
use crate::dom::{
    spec_attr, spec_css_ok, spec_node_count, spec_select_doc, spec_select_in, spec_siblings,
    texts_among, Css, Page,
};
use crate::models::{opt_view, views, Announcement, AnnouncementView, Extra};
use crate::pattern::{spec_capture, spec_regex_ok, spec_replace_first, Pattern};
use crate::text::{
    after_last, after_last_exec, all_ascii_digits, all_ascii_digits_exec, before_first,
    before_first_exec, concat, contains, contains_seq, from_chars, lemma_contains_concat, strip_end,
    strip_end_char, to_chars,
};
use vstd::prelude::*;

verus! {

broadcast use vstd::seq_lib::group_seq_properties;

/// The crawler of KISTI.
pub struct KistiCrawler {
    timeout: u64,
}

/// The page that lists the research tasks.
pub const KISTI_LIST_URL: &'static str = "https://www.kisti.re.kr/notifications/post/research-task";

/// The pattern of a session id in a link.
pub open spec fn kisti_session() -> Seq<char> {
    r";jsessionid=[^?&]*"@
}

/// The pattern of a date in the date cell.
pub open spec fn kisti_date() -> Seq<char> {
    r"(\d{4}[\.\-]\s*\d{2}[\.\-]\s*\d{2})"@
}

/// The selectors that the listing needs all parse.
pub open spec fn kisti_selectors_ok() -> bool {
    &&& spec_css_ok("ul.basic_board"@)
    &&& spec_css_ok("li"@)
    &&& spec_css_ok("p.title a"@)
    &&& spec_css_ok("span.date"@)
}

/// The selectors and the patterns that the listing needs all parse.
pub open spec fn kisti_ok() -> bool {
    kisti_selectors_ok() && spec_regex_ok(kisti_session()) && spec_regex_ok(kisti_date())
}

/// The last path segment of a link, without its query: the part after the last
/// `/` once trailing slashes are gone, up to the first `?`.
pub open spec fn last_segment(url: Seq<char>) -> Seq<char> {
    before_first(after_last(strip_end_char(url, '/'), '/'), "?"@)
}

/// A task's id: the last path segment of its link where that is a non-empty run
/// of ASCII digits, else the hashed link.
pub open spec fn kisti_id(url: Seq<char>) -> Seq<char> {
    if all_ascii_digits(last_segment(url)) && last_segment(url).len() > 0 {
        last_segment(url)
    } else {
        hashed_id(url)
    }
}

/// The announcement that a list item holds: a `p.title a` link, whose link
/// (without its session id) gives the url and the id; the `span.date` cell
/// gives the date where it holds one. The deadline and the details come from
/// the detail page.
pub open spec fn kisti_item(src: Seq<char>, li: usize) -> Option<AnnouncementView> {
    match first_in(src, li, "p.title a"@) {
        None => None,
        Some(a) => {
            let href = match spec_attr(src, a, "href"@) {
                Some(h) => h,
                None => Seq::empty(),
            };
            let url = absolute(
                "https://www.kisti.re.kr"@,
                spec_replace_first(kisti_session(), href, ""@),
            );
            Some(
                AnnouncementView {
                    id: "kisti_"@ + kisti_id(url),
                    title: spec_trimmed(src, a),
                    url,
                    source: "KISTI"@,
                    date: match first_in(src, li, "span.date"@) {
                        Some(t) => spec_capture(kisti_date(), spec_trimmed(src, t), 1),
                        None => None,
                    },
                    agency: None,
                    deadline: None,
                    matched_keywords: Seq::empty(),
                    extra: Map::empty(),
                },
            )
        },
    }
}

/// The announcements of the listing page `src`: one per item of the first
/// `ul.basic_board`, in order; none without that list.
pub open spec fn kisti_listing(src: Seq<char>) -> Seq<AnnouncementView> {
    let lists = spec_select_doc(src, "ul.basic_board"@);
    if lists.len() == 0 {
        Seq::empty()
    } else {
        spec_select_in(src, lists[0], "li"@).filter_map(|li: usize| kisti_item(src, li))
    }
}

/// The pattern of the application period on a detail page.
pub open spec fn kisti_deadline_pattern() -> Seq<char> {
    r"접수기간\s*:\s*([^\n]+)"@
}

/// The pattern of an attachment's file name in its click handler.
pub open spec fn kisti_preview_pattern() -> Seq<char> {
    r"filePreview\('([^']+)'"@
}

/// The pattern of the research period in a preview.
pub open spec fn kisti_period_pattern() -> Seq<char> {
    r"연구기간\s*[:\s]*(\d{4}[\.\-]\d{2}[\.\-]?\d{0,2}\s*[~～]\s*\d{4}[\.\-]\d{2}[\.\-]?\d{0,2})"@
}

/// The pattern of the research budget in a preview.
pub open spec fn kisti_money_pattern() -> Seq<char> {
    r"(?:위탁연구비|연구비|예산)[^\d]*?([\d,]+\s*천원|[\d,]+\s*원|[\d,]+\s*백만원)"@
}

/// The selector and the patterns that a detail page needs all parse.
pub open spec fn kisti_detail_ok() -> bool {
    spec_regex_ok(kisti_deadline_pattern()) && spec_css_ok("div.board_file a"@) && spec_regex_ok(
        kisti_preview_pattern(),
    )
}

/// An attachment link that reads as a request for proposals: its text and the
/// text beside it hold "제안요청", "RFP" or "제안 요청".
pub open spec fn is_rfp(src: Seq<char>, a: usize) -> bool {
    let c = spec_text(src, a) + texts_among(spec_siblings(src, a));
    contains_seq(c, "제안요청"@) || contains_seq(c, "RFP"@) || contains_seq(c, "제안 요청"@)
}

/// The file name of an attachment link that can be previewed and reads as a
/// request for proposals.
pub open spec fn rfp_file(src: Seq<char>, a: usize) -> Option<Seq<char>> {
    let onclick = match spec_attr(src, a, "onclick"@) {
        Some(o) => o,
        None => Seq::empty(),
    };
    match spec_capture(kisti_preview_pattern(), onclick, 1) {
        Some(f) => if is_rfp(src, a) {
            Some(f)
        } else {
            None
        },
        None => None,
    }
}

/// The first attachment link that `rfp_file` accepts, by its file name.
pub open spec fn first_rfp(src: Seq<char>, links: Seq<usize>) -> Option<Seq<char>>
    decreases links.len(),
{
    if links.len() == 0 {
        None
    } else {
        match first_rfp(src, links.drop_last()) {
            Some(f) => Some(f),
            None => rfp_file(src, links.last()),
        }
    }
}

/// The click handler of a link, empty where it has none.
pub open spec fn onclick_of(src: Seq<char>, a: usize) -> Seq<char> {
    match spec_attr(src, a, "onclick"@) {
        Some(o) => o,
        None => Seq::empty(),
    }
}

/// Text that marks a request for proposals: "제안요청", "RFP" or "제안 요청".
pub open spec fn marks_rfp(t: Seq<char>) -> bool {
    contains_seq(t, "제안요청"@) || contains_seq(t, "RFP"@) || contains_seq(t, "제안 요청"@)
}

/// An attachment link whose click handler names a file to preview, and whose
/// own text or the text beside it holds "제안요청", "RFP" or "제안 요청", is a
/// request for proposals for that file; one whose handler names no file, or
/// with no such mark in its text and the text beside it taken together, is
/// none.
pub proof fn lemma_rfp_link(src: Seq<char>, a: usize)
    ensures
        spec_capture(kisti_preview_pattern(), onclick_of(src, a), 1) is Some && (marks_rfp(
            spec_text(src, a),
        ) || marks_rfp(texts_among(spec_siblings(src, a)))) ==> rfp_file(src, a) == spec_capture(
            kisti_preview_pattern(),
            onclick_of(src, a),
            1,
        ),
        spec_capture(kisti_preview_pattern(), onclick_of(src, a), 1) is None ==> rfp_file(src, a) is None,
        !marks_rfp(spec_text(src, a) + texts_among(spec_siblings(src, a))) ==> rfp_file(src, a) is None,
{
    let x = spec_text(src, a);
    let y = texts_among(spec_siblings(src, a));
    lemma_contains_concat(x, y, "제안요청"@);
    lemma_contains_concat(x, y, "RFP"@);
    lemma_contains_concat(x, y, "제안 요청"@);
}

/// The first of the attachment links that is a request for proposals gives
/// the file: where link `k` names file `f` and is marked (see `lemma_rfp_link`),
/// and no earlier link is a request for proposals, the search gives `f`.
pub proof fn lemma_first_rfp_link(src: Seq<char>, links: Seq<usize>, k: int, f: Seq<char>)
    requires
        0 <= k < links.len(),
        spec_capture(kisti_preview_pattern(), onclick_of(src, links[k]), 1) == Some(f),
        marks_rfp(spec_text(src, links[k])) || marks_rfp(texts_among(spec_siblings(src, links[k]))),
        forall|i: int| 0 <= i < k ==> #[trigger] rfp_file(src, links[i]) is None,
    ensures
        first_rfp(src, links) == Some(f),
    decreases links.len(),
{
    lemma_rfp_link(src, links[k]);
    if k < links.len() - 1 {
        let prefix = links.drop_last();
        assert forall|i: int| 0 <= i < k implies #[trigger] rfp_file(src, prefix[i]) is None by {
            assert(prefix[i] == links[i]);
        }
        assert(prefix[k] == links[k]);
        lemma_first_rfp_link(src, prefix, k, f);
    } else {
        lemma_first_rfp_none(src, links.drop_last());
    }
}

proof fn lemma_first_rfp_none(src: Seq<char>, links: Seq<usize>)
    requires
        forall|i: int| 0 <= i < links.len() ==> #[trigger] rfp_file(src, links[i]) is None,
    ensures
        first_rfp(src, links) is None,
    decreases links.len(),
{
    if links.len() > 0 {
        let prefix = links.drop_last();
        assert forall|i: int| 0 <= i < prefix.len() implies #[trigger] rfp_file(src, prefix[i]) is None by {
            assert(prefix[i] == links[i]);
        }
        lemma_first_rfp_none(src, prefix);
        assert(rfp_file(src, links[links.len() - 1]) is None);
    }
}

/// The preview address of a file.
pub open spec fn preview_url(file: Seq<char>) -> Seq<char> {
    "https://www.kisti.re.kr/resources/htmlconverter_skin/doc.jsp?fn="@ + file
        + "&rs=/fatt/htmlconverter_preview"@
}

/// What a detail page gives: the application period as the deadline, and the
/// preview address of the request for proposals.
pub struct KistiDetail {
    pub deadline: Option<String>,
    pub preview_url: Option<String>,
}

/// The details that a preview `src` gives: the research period ("기간") and the
/// budget ("금액").
pub open spec fn kisti_preview_map(src: Seq<char>) -> Map<Seq<char>, Seq<char>> {
    let m0 = match first_capture(seq![kisti_period_pattern()], src) {
        Some(v) => Map::empty().insert("기간"@, v),
        None => Map::empty(),
    };
    match first_capture(seq![kisti_money_pattern()], src) {
        Some(v) => m0.insert("금액"@, v),
        None => m0,
    }
}

/// Every announcement of the listing is reported under "KISTI", with an id
/// that begins with "kisti_", and with no keywords or details yet.
pub proof fn lemma_kisti_tagged(src: Seq<char>)
    ensures
        forall|i: int|
            0 <= i < kisti_listing(src).len() ==> tagged(#[trigger] kisti_listing(src)[i], "KISTI"@, "kisti_"@),
{
    let f = |r: usize| kisti_item(src, r);
    assert forall|r: usize| #[trigger] f(r) is Some implies tagged(f(r)->0, "KISTI"@, "kisti_"@) by {
        if let Some(a) = f(r) {
            lemma_prefixed_starts("kisti_"@, a.id.skip(6));
            assert(a.id =~= "kisti_"@ + a.id.skip(6)) by {
                reveal_strlit("kisti_");
            }
        }
    }
    let lists = spec_select_doc(src, "ul.basic_board"@);
    if lists.len() > 0 {
        let rows = spec_select_in(src, lists[0], "li"@);
        lemma_listing_tagged(rows, f, "KISTI"@, "kisti_"@);
        assert(kisti_listing(src) == rows.filter_map(f));
    }
}

struct KistiKit {
    ul: Css,
    li: Css,
    title: Css,
    date: Css,
    session: Pattern,
    date_pattern: Pattern,
}

impl KistiCrawler {
    /// A crawler whose requests time out after `timeout` seconds.
    pub fn new(timeout: u64) -> (r: Self)
        ensures
            r.timeout_spec() == timeout,
    {
        KistiCrawler { timeout }
    }

    fn kit() -> (r: Result<KistiKit, ScrapeError>)
        ensures
            r is Ok <==> kisti_ok(),
            r matches Err(e) ==> (e == ScrapeError::Selector <==> !kisti_selectors_ok()) && (e
                == ScrapeError::Selector || e == ScrapeError::Pattern),
            r matches Ok(k) ==> k.ul@ == "ul.basic_board"@ && k.li@ == "li"@ && k.title@
                == "p.title a"@ && k.date@ == "span.date"@ && k.session@ == kisti_session()
                && k.date_pattern@ == kisti_date(),
    {
        let ul = selector("ul.basic_board")?;
        let li = selector("li")?;
        let title = selector("p.title a")?;
        let date = selector("span.date")?;
        let session = pattern(r";jsessionid=[^?&]*")?;
        let date_pattern = pattern(r"(\d{4}[\.\-]\s*\d{2}[\.\-]\s*\d{2})")?;
        Ok(KistiKit { ul, li, title, date, session, date_pattern })
    }

    fn id(url: &[char]) -> (r: Vec<char>)
        ensures
            r@ == kisti_id(url@),
    {
        let seg = before_first_exec(&after_last_exec(&strip_end(url, '/'), '/'), &to_chars("?"));
        if all_ascii_digits_exec(&seg) && seg.len() > 0 {
            seg
        } else {
            hashed_id_exec(url)
        }
    }

    fn item(page: &Page, kit: &KistiKit, li: usize) -> (r: Option<Announcement>)
        requires
            li < spec_node_count(page@),
            kit.title@ == "p.title a"@,
            kit.date@ == "span.date"@,
            kit.session@ == kisti_session(),
            kit.date_pattern@ == kisti_date(),
        ensures
            match r {
                Some(x) => kisti_item(page@, li) == Some(x@),
                None => kisti_item(page@, li) is None,
            },
    {
        let a = match first_in_exec(page, li, &kit.title) {
            Some(a) => a,
            None => return None,
        };
        let title = trimmed_text(page, a);
        let href = match page.attr(a, "href") {
            Some(h) => h,
            None => String::new(),
        };
        let clean = kit.session.replace_first(href.as_str(), "");
        let url = absolute_exec("https://www.kisti.re.kr", &to_chars(clean.as_str()));
        let id = Self::id(&url);
        let mut ann = Announcement::new(
            prefixed("kisti_", &id),
            from_chars(&title),
            from_chars(&url),
            "KISTI".to_owned(),
        );
        ann.date = match first_in_exec(page, li, &kit.date) {
            Some(t) => kit.date_pattern.capture(from_chars(&trimmed_text(page, t)).as_str(), 1),
            None => None,
        };
        Some(ann)
    }

    /// The announcements of the KISTI listing page `html` (see
    /// `kisti_listing`), before their detail pages are read; an error where a
    /// selector or a pattern does not parse.
    pub fn parse_listing(&self, html: &str) -> (r: Result<Vec<Announcement>, ScrapeError>)
        ensures
            r is Ok <==> kisti_ok(),
            r matches Ok(v) ==> views(v@) == kisti_listing(html@),
            r matches Err(e) ==> (e == ScrapeError::Selector <==> !kisti_selectors_ok()) && (e
                == ScrapeError::Selector || e == ScrapeError::Pattern),
    {
        let kit = Self::kit()?;
        let page = Page::parse(html);
        let lists = page.select(&kit.ul);
        let mut results: Vec<Announcement> = Vec::new();
        if lists.len() == 0 {
            return Ok(results);
        }
        let items = page.select_in(lists[0], &kit.li);
        let ghost src = page@;
        let ghost f = |li: usize| kisti_item(src, li);
        let mut i: usize = 0;
        while i < items.len()
            invariant
                i <= items@.len(),
                src == page@,
                src == html@,
                f == (|li: usize| kisti_item(src, li)),
                kit.title@ == "p.title a"@,
                kit.date@ == "span.date"@,
                kit.session@ == kisti_session(),
                kit.date_pattern@ == kisti_date(),
                forall|k: int| 0 <= k < items@.len() ==> #[trigger] items@[k] < spec_node_count(
                    page@,
                ),
                views(results@) == items@.take(i as int).filter_map(f),
            decreases items@.len() - i,
        {
            proof {
                items@.lemma_filter_map_take_succ(f, i as int);
            }
            match Self::item(&page, &kit, items[i]) {
                Some(a) => {
                    let ghost before = results@;
                    results.push(a);
                    assert(views(results@) =~= views(before).push(a@));
                },
                None => {},
            }
            i = i + 1;
        }
        assert(items@.take(items@.len() as int) =~= items@);
        Ok(results)
    }

    fn rfp_exec(page: &Page, pat: &Pattern, a: usize) -> (r: Option<String>)
        requires
            a < spec_node_count(page@),
            pat@ == kisti_preview_pattern(),
        ensures
            opt_view(r) == rfp_file(page@, a),
    {
        let onclick = match page.attr(a, "onclick") {
            Some(o) => o,
            None => String::new(),
        };
        match pat.capture(onclick.as_str(), 1) {
            Some(f) => {
                let around = page.parent_text(a);
                let c = concat(&text_of(page, a), &around);
                if contains(&c, &to_chars("제안요청")) || contains(&c, &to_chars("RFP")) || contains(
                    &c,
                    &to_chars("제안 요청"),
                ) {
                    Some(f)
                } else {
                    None
                }
            },
            None => None,
        }
    }

    /// What a KISTI detail page `html` gives: the trimmed application period
    /// ("접수기간 : ...") as the deadline, and the preview address of the first
    /// attachment that reads as a request for proposals; an error where the
    /// selector or a pattern does not parse.
    pub fn parse_detail(&self, html: &str) -> (r: Result<KistiDetail, ScrapeError>)
        ensures
            r is Ok <==> kisti_detail_ok(),
            r matches Ok(d) ==> opt_view(d.deadline) == first_capture(
                seq![kisti_deadline_pattern()],
                html@,
            ) && opt_view(d.preview_url) == match first_rfp(
                html@,
                spec_select_doc(html@, "div.board_file a"@),
            ) {
                Some(f) => Some(preview_url(f)),
                None => None,
            },
            r matches Err(e) ==> (e == ScrapeError::Selector || e == ScrapeError::Pattern),
    {
        let deadline_pattern = pattern(r"접수기간\s*:\s*([^\n]+)")?;
        let mut deadline_patterns: Vec<Pattern> = Vec::new();
        deadline_patterns.push(deadline_pattern);
        assert(deadline_patterns@.map_values(|p: Pattern| p@) =~= seq![kisti_deadline_pattern()]);
        let deadline = first_capture_exec(&deadline_patterns, html);
        let links_css = selector("div.board_file a")?;
        let preview = pattern(r"filePreview\('([^']+)'")?;
        let page = Page::parse(html);
        let links = page.select(&links_css);
        let mut i: usize = 0;
        while i < links.len()
            invariant
                i <= links@.len(),
                page@ == html@,
                kisti_detail_ok(),
                opt_view(deadline) == first_capture(seq![kisti_deadline_pattern()], html@),
                preview@ == kisti_preview_pattern(),
                links@ == spec_select_doc(html@, "div.board_file a"@),
                forall|k: int| 0 <= k < links@.len() ==> #[trigger] links@[k] < spec_node_count(
                    page@,
                ),
                first_rfp(page@, links@.take(i as int)) is None,
            decreases links@.len() - i,
        {
            assert(links@.take(i + 1).drop_last() =~= links@.take(i as int));
            assert(links@.take(i + 1).last() == links@[i as int]);
            match Self::rfp_exec(&page, &preview, links[i]) {
                Some(f) => {
                    proof {
                        lemma_first_rfp_prefix(page@, links@, i + 1);
                    }
                    let url = concat(
                        &concat(
                            &to_chars(
                                "https://www.kisti.re.kr/resources/htmlconverter_skin/doc.jsp?fn=",
                            ),
                            &to_chars(f.as_str()),
                        ),
                        &to_chars("&rs=/fatt/htmlconverter_preview"),
                    );
                    return Ok(KistiDetail { deadline, preview_url: Some(from_chars(&url)) });
                },
                None => {},
            }
            i = i + 1;
        }
        assert(links@.take(links@.len() as int) =~= links@);
        Ok(KistiDetail { deadline, preview_url: None })
    }

    /// The details of a request-for-proposals preview `html` (see
    /// `kisti_preview_map`); an error where a pattern does not parse.
    pub fn parse_preview(&self, html: &str) -> (r: Result<Extra, ScrapeError>)
        ensures
            r is Ok <==> spec_regex_ok(kisti_period_pattern()) && spec_regex_ok(
                kisti_money_pattern(),
            ),
            r matches Ok(e) ==> e@ == kisti_preview_map(html@),
            r matches Err(e) ==> e == ScrapeError::Pattern,
    {
        let texts = [
            r"연구기간\s*[:\s]*(\d{4}[\.\-]\d{2}[\.\-]?\d{0,2}\s*[~～]\s*\d{4}[\.\-]\d{2}[\.\-]?\d{0,2})",
            r"(?:위탁연구비|연구비|예산)[^\d]*?([\d,]+\s*천원|[\d,]+\s*원|[\d,]+\s*백만원)",
        ];
        let compiled = match patterns(&texts) {
            Ok(c) => c,
            Err(e) => {
                proof {
                    let k = choose|k: int| 0 <= k < 2 && !spec_regex_ok(#[trigger] texts@[k]@);
                    assert(k == 0 || k == 1);
                }
                return Err(e);
            },
        };
        let mut compiled = compiled;
        let money = compiled.pop().unwrap();
        let period = compiled.pop().unwrap();
        let mut extra = Extra::new();
        let mut ps: Vec<Pattern> = Vec::new();
        ps.push(period);
        assert(ps@.map_values(|p: Pattern| p@) =~= seq![kisti_period_pattern()]);
        match first_capture_exec(&ps, html) {
            Some(v) => extra.insert("기간", v),
            None => {},
        }
        let mut ms: Vec<Pattern> = Vec::new();
        ms.push(money);
        assert(ms@.map_values(|p: Pattern| p@) =~= seq![kisti_money_pattern()]);
        match first_capture_exec(&ms, html) {
            Some(v) => extra.insert("금액", v),
            None => {},
        }
        Ok(extra)
    }
}

proof fn lemma_first_rfp_prefix(src: Seq<char>, links: Seq<usize>, k: int)
    requires
        0 <= k <= links.len(),
        first_rfp(src, links.take(k)) is Some,
    ensures
        first_rfp(src, links) == first_rfp(src, links.take(k)),
    decreases links.len() - k,
{
    if k < links.len() {
        assert(links.take(k + 1).drop_last() =~= links.take(k));
        lemma_first_rfp_prefix(src, links, k + 1);
    } else {
        assert(links.take(k) =~= links);
    }
}

impl Crawler for KistiCrawler {
    open spec fn name_spec(&self) -> Seq<char> {
        "KISTI"@
    }

    closed spec fn timeout_spec(&self) -> u64 {
        self.timeout
    }

    fn source_name(&self) -> (r: &'static str) {
        "KISTI"
    }

    fn timeout(&self) -> u64 {
        self.timeout
    }
}

} // verus!
