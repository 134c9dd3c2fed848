//! The details of an announcement's own page: its deadline, budget, period and
//! eligibility.
use crate::crawlers::base::{
    first_capture, first_capture_exec, patterns, selector, spec_trimmed, trimmed_text, ScrapeError,
};
use crate::crawlers::kisa::joined_text;
use crate::dom::{spec_css_ok, spec_node_count, spec_select_doc, spec_select_in, Css, Page};
use crate::models::Extra;
use crate::pattern::{spec_regex_ok, Pattern};
use crate::text::{contains, contains_seq, from_chars, join_strings, to_chars};
use vstd::prelude::*;

verus! {

broadcast use vstd::seq_lib::group_seq_properties;

/// The patterns that find the budget.
pub open spec fn money_patterns() -> Seq<Seq<char>> {
    seq![
        r"소요예산\s*:\s*([\d,]+원[^\n]*)"@,
        r"예산액\s*:\s*([\d,]+원[^\n]*)"@,
        r"사업비\s*:\s*([\d,]+원[^\n]*)"@,
        r"예산\s*:\s*([\d,]+원[^\n]*)"@,
        r"([\d,]+원)\s*\(부가세\s*포함\)"@,
    ]
}

/// The patterns that find the period.
pub open spec fn period_patterns() -> Seq<Seq<char>> {
    seq![
        r"공개기간\s*:\s*([^\n]{5,50}~[^\n]{5,50})"@,
        r"수행기간\s*:\s*([^\n]{5,50}~[^\n]{5,50})"@,
        r"사업기간\s*:\s*([^\n]{5,50}~[^\n]{5,50})"@,
        r"계약기간\s*:\s*([^\n]{5,50}~[^\n]{5,50})"@,
    ]
}

/// The patterns that find who may apply.
pub open spec fn qualification_patterns() -> Seq<Seq<char>> {
    seq![
        r"신청자격\s*:\s*([^\n]{10,150})"@,
        r"지원자격\s*:\s*([^\n]{10,150})"@,
        r"참여자격\s*:\s*([^\n]{10,150})"@,
        r"입찰참가자격\s*:\s*([^\n]{10,150})"@,
    ]
}

/// Every pattern of the three lists parses.
pub open spec fn detail_patterns_ok() -> bool {
    &&& forall|k: int| 0 <= k < 5 ==> spec_regex_ok(#[trigger] money_patterns()[k])
    &&& forall|k: int| 0 <= k < 4 ==> spec_regex_ok(#[trigger] period_patterns()[k])
    &&& forall|k: int| 0 <= k < 4 ==> spec_regex_ok(#[trigger] qualification_patterns()[k])
}

/// A cell that labels the deadline: its text holds "등록마감" or "마감일시".
pub open spec fn deadline_label(t: Seq<char>) -> bool {
    contains_seq(t, "등록마감"@) || contains_seq(t, "마감일시"@)
}

/// The walk over the cells: whether the last cell labeled the deadline, and the
/// deadline read so far (the trimmed text of the last cell that follows a label).
pub open spec fn label_scan(src: Seq<char>, cells: Seq<usize>) -> (bool, Option<Seq<char>>)
    decreases cells.len(),
{
    if cells.len() == 0 {
        (false, None)
    } else {
        let prev = label_scan(src, cells.drop_last());
        let t = spec_trimmed(src, cells.last());
        let found = if prev.0 {
            Some(t)
        } else {
            prev.1
        };
        (deadline_label(t), found)
    }
}

/// The details that the first element matching the content selector gives: the
/// deadline ("마감일") from its table cells, and the budget ("금액"), the period
/// ("기간") and the eligibility ("자격") from its text.
pub open spec fn detail_map(src: Seq<char>, content: usize) -> Map<Seq<char>, Seq<char>> {
    let m0 = match label_scan(src, spec_select_in(src, content, "th, td"@)).1 {
        Some(d) => Map::empty().insert("마감일"@, d),
        None => Map::empty(),
    };
    let text = joined_text(src, content);
    let m1 = match first_capture(money_patterns(), text) {
        Some(v) => m0.insert("금액"@, v),
        None => m0,
    };
    let m2 = match first_capture(period_patterns(), text) {
        Some(v) => m1.insert("기간"@, v),
        None => m1,
    };
    match first_capture(qualification_patterns(), text) {
        Some(v) => m2.insert("자격"@, v),
        None => m2,
    }
}

proof fn lemma_label_scan_after(src: Seq<char>, cells: Seq<usize>, j: int)
    requires
        0 <= j < cells.len() - 1,
        contains_seq(spec_trimmed(src, cells[j]), "등록마감"@) || contains_seq(
            spec_trimmed(src, cells[j]),
            "마감일시"@,
        ),
        forall|k: int|
            j < k < cells.len() - 1 ==> !contains_seq(#[trigger] spec_trimmed(src, cells[k]), "등록마감"@)
                && !contains_seq(spec_trimmed(src, cells[k]), "마감일시"@),
    ensures
        label_scan(src, cells).1 == Some(spec_trimmed(src, cells[j + 1])),
    decreases cells.len(),
{
    let prefix = cells.drop_last();
    if j == cells.len() - 2 {
        assert(prefix.last() == cells[j]);
    } else {
        assert(prefix.last() == cells[cells.len() - 2]);
        assert(!contains_seq(spec_trimmed(src, cells[cells.len() - 2]), "등록마감"@));
        assert forall|k: int| j < k < prefix.len() - 1 implies !contains_seq(
            #[trigger] spec_trimmed(src, prefix[k]),
            "등록마감"@,
        ) && !contains_seq(spec_trimmed(src, prefix[k]), "마감일시"@) by {
            assert(prefix[k] == cells[k]);
            assert(!contains_seq(spec_trimmed(src, cells[k]), "등록마감"@));
        }
        lemma_label_scan_after(src, prefix, j);
    }
}

/// Among the `th`/`td` cells of the content, a cell whose trimmed text holds
/// "등록마감" or "마감일시" labels the deadline: where another cell follows it
/// and no later cell but the last holds either, the deadline ("마감일") of the
/// details is the trimmed text of the cell right after it.
pub proof fn lemma_deadline_after_label(src: Seq<char>, content: usize, j: int)
    requires
        0 <= j < spec_select_in(src, content, "th, td"@).len() - 1,
        contains_seq(spec_trimmed(src, spec_select_in(src, content, "th, td"@)[j]), "등록마감"@)
            || contains_seq(spec_trimmed(src, spec_select_in(src, content, "th, td"@)[j]), "마감일시"@),
        forall|k: int|
            j < k < spec_select_in(src, content, "th, td"@).len() - 1 ==> !contains_seq(
                #[trigger] spec_trimmed(src, spec_select_in(src, content, "th, td"@)[k]),
                "등록마감"@,
            ) && !contains_seq(
                spec_trimmed(src, spec_select_in(src, content, "th, td"@)[k]),
                "마감일시"@,
            ),
    ensures
        detail_map(src, content).contains_key("마감일"@),
        detail_map(src, content)["마감일"@] == spec_trimmed(
            src,
            spec_select_in(src, content, "th, td"@)[j + 1],
        ),
{
    let cells = spec_select_in(src, content, "th, td"@);
    lemma_label_scan_after(src, cells, j);
    reveal_strlit("마감일");
    reveal_strlit("금액");
    reveal_strlit("기간");
    reveal_strlit("자격");
    assert("마감일"@ != "금액"@ && "마감일"@ != "기간"@ && "마감일"@ != "자격"@) by {
        assert("마감일"@.len() != "금액"@.len());
    }
}

/// The content element of a page: the first match of `css`, where it parses.
pub open spec fn content_of(src: Seq<char>, css: Seq<char>) -> Option<usize> {
    if spec_css_ok(css) && spec_select_doc(src, css).len() > 0 {
        Some(spec_select_doc(src, css)[0])
    } else {
        None
    }
}

fn compile(texts: &[&str], spec_texts: Ghost<Seq<Seq<char>>>) -> (r: Result<Vec<Pattern>, ScrapeError>)
    requires
        texts@.map_values(|t: &str| t@) == spec_texts@,
    ensures
        r is Ok <==> forall|k: int| 0 <= k < spec_texts@.len() ==> spec_regex_ok(#[trigger] spec_texts@[k]),
        r matches Ok(v) ==> v@.map_values(|p: Pattern| p@) == spec_texts@,
        r matches Err(e) ==> e == ScrapeError::Pattern,
{
    match patterns(texts) {
        Ok(v) => {
            assert(v@.map_values(|p: Pattern| p@) =~= spec_texts@);
            Ok(v)
        },
        Err(e) => {
            proof {
                let k = choose|k: int| 0 <= k < texts@.len() && !spec_regex_ok(#[trigger] texts@[k]@);
                assert(spec_texts@[k] == texts@[k]@);
            }
            Err(e)
        },
    }
}

fn deadline(page: &Page, cells: &Vec<usize>) -> (r: Option<String>)
    requires
        forall|k: int| 0 <= k < cells@.len() ==> #[trigger] cells@[k] < spec_node_count(page@),
    ensures
        crate::models::opt_view(r) == label_scan(page@, cells@).1,
{
    let a = to_chars("등록마감");
    let b = to_chars("마감일시");
    let mut after_label = false;
    let mut found: Option<String> = None;
    let mut i: usize = 0;
    while i < cells.len()
        invariant
            i <= cells@.len(),
            forall|k: int| 0 <= k < cells@.len() ==> #[trigger] cells@[k] < spec_node_count(page@),
            a@ == "등록마감"@,
            b@ == "마감일시"@,
            label_scan(page@, cells@.take(i as int)) == (after_label, crate::models::opt_view(found)),
        decreases cells@.len() - i,
    {
        assert(cells@.take(i + 1).drop_last() =~= cells@.take(i as int));
        assert(cells@.take(i + 1).last() == cells@[i as int]);
        let t = trimmed_text(page, cells[i]);
        if after_label {
            found = Some(from_chars(&t));
        }
        after_label = contains(&t, &a) || contains(&t, &b);
        i = i + 1;
    }
    assert(cells@.take(cells@.len() as int) =~= cells@);
    found
}

/// The details of a page `html` (see `detail_map`) within its first element that
/// matches `content_selector`; none where that selector does not parse or
/// matches nothing. An error where the cell selector or a pattern does not parse.
pub fn detail_fields(html: &str, content_selector: &str) -> (r: Result<Extra, ScrapeError>)
    ensures
        content_of(html@, content_selector@) is None ==> (r matches Ok(e) && e@ == Map::<
            Seq<char>,
            Seq<char>,
        >::empty()),
        content_of(html@, content_selector@) matches Some(c) ==> {
            &&& r is Ok <==> spec_css_ok("th, td"@) && detail_patterns_ok()
            &&& r matches Ok(e) ==> e@ == detail_map(html@, c)
            &&& r matches Err(e) ==> (e == ScrapeError::Selector || e == ScrapeError::Pattern)
        },
{
    let css = match Css::parse(content_selector) {
        Some(c) => c,
        None => return Ok(Extra::new()),
    };
    let page = Page::parse(html);
    let found = page.select(&css);
    if found.len() == 0 {
        return Ok(Extra::new());
    }
    let content = found[0];
    let cells_css = selector("th, td")?;
    let money_texts = [
        r"소요예산\s*:\s*([\d,]+원[^\n]*)",
        r"예산액\s*:\s*([\d,]+원[^\n]*)",
        r"사업비\s*:\s*([\d,]+원[^\n]*)",
        r"예산\s*:\s*([\d,]+원[^\n]*)",
        r"([\d,]+원)\s*\(부가세\s*포함\)",
    ];
    let period_texts = [
        r"공개기간\s*:\s*([^\n]{5,50}~[^\n]{5,50})",
        r"수행기간\s*:\s*([^\n]{5,50}~[^\n]{5,50})",
        r"사업기간\s*:\s*([^\n]{5,50}~[^\n]{5,50})",
        r"계약기간\s*:\s*([^\n]{5,50}~[^\n]{5,50})",
    ];
    let qual_texts = [
        r"신청자격\s*:\s*([^\n]{10,150})",
        r"지원자격\s*:\s*([^\n]{10,150})",
        r"참여자격\s*:\s*([^\n]{10,150})",
        r"입찰참가자격\s*:\s*([^\n]{10,150})",
    ];
    assert(money_texts@.map_values(|t: &str| t@) =~= money_patterns());
    assert(period_texts@.map_values(|t: &str| t@) =~= period_patterns());
    assert(qual_texts@.map_values(|t: &str| t@) =~= qualification_patterns());
    let money = compile(&money_texts, Ghost(money_patterns()))?;
    let period = compile(&period_texts, Ghost(period_patterns()))?;
    let qual = compile(&qual_texts, Ghost(qualification_patterns()))?;
    let mut result = Extra::new();
    let cells = page.select_in(content, &cells_css);
    match deadline(&page, &cells) {
        Some(d) => result.insert("마감일", d),
        None => {},
    }
    let nodes = page.text_nodes(content);
    let text = from_chars(&join_strings(&nodes, &to_chars("\n")));
    match first_capture_exec(&money, text.as_str()) {
        Some(v) => result.insert("금액", v),
        None => {},
    }
    match first_capture_exec(&period, text.as_str()) {
        Some(v) => result.insert("기간", v),
        None => {},
    }
    match first_capture_exec(&qual, text.as_str()) {
        Some(v) => result.insert("자격", v),
        None => {},
    }
    Ok(result)
}

} // verus!
