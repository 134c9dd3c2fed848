//! The steps of a crawling run that decide rather than fetch.
use crate::crawlers::kisa::joined_text;
use crate::dom::{spec_css_ok, spec_select_doc, Css, Page};
use crate::models::opt_view;
use crate::text::{byte_len, byte_len_exec, from_chars, join_strings, to_chars};
use vstd::prelude::*;

verus! {

broadcast use vstd::seq_lib::group_seq_properties;

/// The selectors tried, in order, for the body of an announcement's page.
pub open spec fn body_selectors() -> Seq<Seq<char>> {
    seq![
        "div.board_detail_contents"@,
        "div.board_body"@,
        "div.bbs_cnt"@,
        "div.content_body"@,
        "article"@,
        "div#content"@,
        "body"@,
    ]
}

/// The search for the body: for each selector in turn that parses and matches,
/// the text of its first match (pieces joined by line breaks) becomes the body;
/// the search stops at a body of more than 100 bytes.
pub open spec fn body_scan(src: Seq<char>, sels: Seq<Seq<char>>) -> (Seq<char>, bool)
    decreases sels.len(),
{
    if sels.len() == 0 {
        (Seq::empty(), false)
    } else {
        let prev = body_scan(src, sels.drop_last());
        let css = sels.last();
        if prev.1 || !spec_css_ok(css) || spec_select_doc(src, css).len() == 0 {
            prev
        } else {
            let body = joined_text(src, spec_select_doc(src, css)[0]);
            (body, byte_len(body) > 100)
        }
    }
}

/// The body of a page worth summarizing: the body found, where it holds at
/// least 50 bytes.
pub open spec fn summary_body(src: Seq<char>) -> Option<Seq<char>> {
    let body = body_scan(src, body_selectors()).0;
    if byte_len(body) < 50 {
        None
    } else {
        Some(body)
    }
}

/// The body of an announcement's page `html` to summarize (see `summary_body`).
pub fn body_for_summary(html: &str) -> (r: Option<String>)
    ensures
        opt_view(r) == summary_body(html@),
{
    let sels = [
        "div.board_detail_contents",
        "div.board_body",
        "div.bbs_cnt",
        "div.content_body",
        "article",
        "div#content",
        "body",
    ];
    assert(sels@.map_values(|t: &str| t@) =~= body_selectors());
    let ghost names = body_selectors();
    let page = Page::parse(html);
    let mut body: Vec<char> = Vec::new();
    let mut stopped = false;
    let mut i: usize = 0;
    while i < sels.len()
        invariant
            i <= sels@.len(),
            sels@.len() == names.len(),
            names == body_selectors(),
            forall|k: int| 0 <= k < sels@.len() ==> #[trigger] sels@[k]@ == names[k],
            page@ == html@,
            body_scan(html@, names.take(i as int)) == (body@, stopped),
        decreases sels@.len() - i,
    {
        assert(names.take(i + 1).drop_last() =~= names.take(i as int));
        assert(names.take(i + 1).last() == sels@[i as int]@);
        if !stopped {
            match Css::parse(sels[i]) {
                Some(css) => {
                    let found = page.select(&css);
                    if found.len() > 0 {
                        let nodes = page.text_nodes(found[0]);
                        body = join_strings(&nodes, &to_chars("\n"));
                        stopped = byte_len_exec(&body) > 100;
                    }
                },
                None => {},
            }
        }
        i = i + 1;
    }
    assert(names.take(sels@.len() as int) =~= names);
    if byte_len_exec(&body) < 50 {
        None
    } else {
        Some(from_chars(&body))
    }
}

} // verus!
