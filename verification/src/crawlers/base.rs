//! What every source shares: the crawler trait, the errors of a listing's
//! parse, and the small steps from page nodes to announcement fields.
use std::hash::{Hash, Hasher};
use crate::dom::{spec_node_count, spec_select_in, spec_text_nodes, Css, Page};
use crate::models::{AnnouncementView};
use crate::pattern::{spec_capture, spec_regex_ok, Pattern};
use crate::text::{
    before_first, byte_len, byte_len_exec, concat, concat_strings, contains, contains_seq, hex, hex_seq, second_piece,
    second_piece_exec, before_first_exec, starts_with, starts_with_seq, to_chars, trim, trim_seq,
    from_chars,
};
use vstd::prelude::*;

verus! {

/// The user agent that requests to the sources carry.
pub const USER_AGENT: &'static str = "Mozilla/5.0 (Windows NT 10.0; Win64; x64) AppleWebKit/537.36 (KHTML, like Gecko) Chrome/124.0.0.0 Safari/537.36";

/// Why a listing page could not be read.
#[derive(Clone, Copy, Debug, PartialEq, Eq, Structural)]
pub enum ScrapeError {
    /// `scraper` refused one of the source's CSS selectors.
    Selector,
    /// `regex` refused one of the source's patterns.
    Pattern,
    /// A text had to be cut at a byte that falls inside a character.
    Cut,
}

/// A source of announcements.
pub trait Crawler {
    /// The name under which the source's announcements are reported.
    spec fn name_spec(&self) -> Seq<char>;

    /// The request timeout in seconds.
    spec fn timeout_spec(&self) -> u64;

    /// The name under which the source's announcements are reported.
    fn source_name(&self) -> (r: &'static str)
        ensures
            r@ == self.name_spec(),
    ;

    /// The request timeout in seconds.
    fn timeout(&self) -> (r: u64)
        ensures
            r == self.timeout_spec(),
    ;
}

/// What the hasher of `std::collections::hash_map::DefaultHasher::new()`
/// gives for a string.
pub uninterp spec fn spec_default_hash(s: Seq<char>) -> u64;

/// Hashes a string with `std::collections::hash_map::DefaultHasher::new()`.
/// Every hasher made by `new` starts from the same keys, so the result depends
/// on the string alone (within one build of the standard library).
#[verifier::external_body]
pub fn md5_hash(s: &str) -> (r: u64)
    ensures
        r == spec_default_hash(s@),
{
    let mut hasher = std::collections::hash_map::DefaultHasher::new();
    s.hash(&mut hasher);
    hasher.finish()
}

/// The id that a source falls back on when its link holds none: the hash of
/// the link in lower-case hexadecimal.
pub open spec fn hashed_id(url: Seq<char>) -> Seq<char> {
    hex_seq(spec_default_hash(url) as nat)
}

/// See `hashed_id`.
pub fn hashed_id_exec(url: &[char]) -> (r: Vec<char>)
    ensures
        r@ == hashed_id(url@),
{
    let s = from_chars(url);
    hex(md5_hash(s.as_str()))
}

/// The value of the query parameter that begins with `key` in a link where it
/// occurs: what follows the first `key`, up to the next `key` or `&`.
pub open spec fn param_after(url: Seq<char>, key: Seq<char>) -> Seq<char> {
    before_first(second_piece(url, key)->0, "&"@)
}

/// The id of an announcement: the value after `key` where the link holds it,
/// else the hashed link.
pub open spec fn id_from(url: Seq<char>, key: Seq<char>) -> Seq<char> {
    if contains_seq(url, key) {
        param_after(url, key)
    } else {
        hashed_id(url)
    }
}

/// See `id_from`.
pub fn id_from_exec(url: &[char], key: &[char]) -> (r: Vec<char>)
    ensures
        r@ == id_from(url@, key@),
{
    if contains(url, key) {
        match second_piece_exec(url, key) {
            Some(rest) => before_first_exec(&rest, &to_chars("&")),
            None => Vec::new(),
        }
    } else {
        hashed_id_exec(url)
    }
}

/// A link made absolute: `base` put before it where it starts with `/`.
pub open spec fn absolute(base: Seq<char>, href: Seq<char>) -> Seq<char> {
    if starts_with_seq(href, "/"@) {
        base + href
    } else {
        href
    }
}

/// See `absolute`.
pub fn absolute_exec(base: &str, href: &[char]) -> (r: Vec<char>)
    ensures
        r@ == absolute(base@, href@),
{
    if starts_with(href, &to_chars("/")) {
        concat(&to_chars(base), href)
    } else {
        concat(href, &[])
    }
}

/// `prefix` followed by `s`, as a `String`.
pub fn prefixed(prefix: &str, s: &[char]) -> (r: String)
    ensures
        r@ == prefix@ + s@,
{
    from_chars(&concat(&to_chars(prefix), s))
}

/// All the text below a node (`text().collect::<String>()`).
pub open spec fn spec_text(src: Seq<char>, node: usize) -> Seq<char> {
    spec_text_nodes(src, node).flatten()
}

/// All the text below a node, trimmed.
pub open spec fn spec_trimmed(src: Seq<char>, node: usize) -> Seq<char> {
    trim_seq(spec_text(src, node))
}

/// See `spec_text`.
pub fn text_of(page: &Page, node: usize) -> (r: Vec<char>)
    requires
        node < spec_node_count(page@),
    ensures
        r@ == spec_text(page@, node),
{
    let nodes = page.text_nodes(node);
    concat_strings(&nodes)
}

/// See `spec_trimmed`.
pub fn trimmed_text(page: &Page, node: usize) -> (r: Vec<char>)
    requires
        node < spec_node_count(page@),
    ensures
        r@ == spec_trimmed(page@, node),
{
    trim(&text_of(page, node))
}

/// An announcement as a source first reports it: under the source's `name`,
/// with an id that begins with the source's `prefix`, and with no keywords or
/// details yet.
pub open spec fn tagged(a: AnnouncementView, name: Seq<char>, prefix: Seq<char>) -> bool {
    &&& a.source == name
    &&& starts_with_seq(a.id, prefix)
    &&& a.matched_keywords.len() == 0
    &&& a.extra == Map::<Seq<char>, Seq<char>>::empty()
}

/// An id made of `prefix` and anything after it begins with `prefix`.
pub proof fn lemma_prefixed_starts(prefix: Seq<char>, rest: Seq<char>)
    ensures
        starts_with_seq(prefix + rest, prefix),
{
    assert((prefix + rest).take(prefix.len() as int) =~= prefix);
}

/// Where every row gives a tagged announcement or none, so does the listing.
pub proof fn lemma_listing_tagged(
    rows: Seq<usize>,
    f: spec_fn(usize) -> Option<AnnouncementView>,
    name: Seq<char>,
    prefix: Seq<char>,
)
    requires
        forall|r: usize| #[trigger] f(r) is Some ==> tagged(f(r)->0, name, prefix),
    ensures
        forall|i: int|
            0 <= i < rows.filter_map(f).len() ==> tagged(#[trigger] rows.filter_map(f)[i], name, prefix),
    decreases rows.len(),
{
    if rows.len() > 0 {
        lemma_listing_tagged(rows.drop_last(), f, name, prefix);
        let prev = rows.drop_last().filter_map(f);
        assert(f(rows.last()) is Some ==> tagged(f(rows.last())->0, name, prefix));
        assert forall|i: int| 0 <= i < rows.filter_map(f).len() implies tagged(
            #[trigger] rows.filter_map(f)[i],
            name,
            prefix,
        ) by {
            if i < prev.len() {
                assert(rows.filter_map(f)[i] == prev[i]);
            }
        }
    }
}

/// The first match of `css` below `scope`.
pub open spec fn first_in(src: Seq<char>, scope: usize, css: Seq<char>) -> Option<usize> {
    let found = spec_select_in(src, scope, css);
    if found.len() > 0 {
        Some(found[0])
    } else {
        None
    }
}

/// See `first_in`.
pub fn first_in_exec(page: &Page, scope: usize, css: &Css) -> (r: Option<usize>)
    requires
        scope < spec_node_count(page@),
    ensures
        r == first_in(page@, scope, css@),
        r matches Some(n) ==> n < spec_node_count(page@),
{
    let found = page.select_in(scope, css);
    if found.len() > 0 {
        Some(found[0])
    } else {
        None
    }
}

/// The trimmed text of a node, if there is one.
pub open spec fn cell_text(src: Seq<char>, cell: Option<usize>) -> Option<Seq<char>> {
    match cell {
        Some(c) => Some(spec_trimmed(src, c)),
        None => None,
    }
}

/// See `cell_text`.
pub fn cell_text_exec(page: &Page, cell: Option<usize>) -> (r: Option<String>)
    requires
        cell matches Some(c) ==> c < spec_node_count(page@),
    ensures
        crate::models::opt_view(r) == cell_text(page@, cell),
{
    match cell {
        Some(c) => Some(from_chars(&trimmed_text(page, c))),
        None => None,
    }
}

/// The cell whose text is longest in bytes, the last of them on a tie
/// (`Iterator::max_by_key`).
pub open spec fn longest_cell(src: Seq<char>, tds: Seq<usize>) -> Option<usize>
    decreases tds.len(),
{
    if tds.len() == 0 {
        None
    } else {
        match longest_cell(src, tds.drop_last()) {
            None => Some(tds.last()),
            Some(p) => if byte_len(spec_text(src, tds.last())) >= byte_len(spec_text(src, p)) {
                Some(tds.last())
            } else {
                Some(p)
            },
        }
    }
}

/// See `longest_cell`.
pub fn longest_cell_exec(page: &Page, tds: &Vec<usize>) -> (r: Option<usize>)
    requires
        forall|k: int| 0 <= k < tds@.len() ==> #[trigger] tds@[k] < spec_node_count(page@),
    ensures
        r == longest_cell(page@, tds@),
        r matches Some(c) ==> c < spec_node_count(page@),
{
    let mut best: Option<usize> = None;
    let mut best_len: u128 = 0;
    let mut i: usize = 0;
    while i < tds.len()
        invariant
            i <= tds@.len(),
            forall|k: int| 0 <= k < tds@.len() ==> #[trigger] tds@[k] < spec_node_count(page@),
            best == longest_cell(page@, tds@.take(i as int)),
            best matches Some(c) ==> c < spec_node_count(page@) && best_len == byte_len(
                spec_text(page@, c),
            ),
        decreases tds@.len() - i,
    {
        assert(tds@.take(i + 1).drop_last() =~= tds@.take(i as int));
        assert(tds@.take(i + 1).last() == tds@[i as int]);
        let n = byte_len_exec(&text_of(page, tds[i]));
        if best.is_none() || n >= best_len {
            best = Some(tds[i]);
            best_len = n;
        }
        i = i + 1;
    }
    assert(tds@.take(tds@.len() as int) =~= tds@);
    best
}

/// The last node of a sequence, if any.
pub open spec fn last_of(v: Seq<usize>) -> Option<usize> {
    if v.len() > 0 {
        Some(v.last())
    } else {
        None
    }
}

/// Compiles a pattern of the source, or reports that `regex` refused it.
pub fn pattern(text: &str) -> (r: Result<Pattern, ScrapeError>)
    ensures
        r is Ok <==> spec_regex_ok(text@),
        r matches Ok(p) ==> p@ == text@,
        r matches Err(e) ==> e == ScrapeError::Pattern,
{
    match Pattern::new(text) {
        Some(p) => Ok(p),
        None => Err(ScrapeError::Pattern),
    }
}

/// Compiles each of the patterns, in order; an error where `regex` refuses one.
pub fn patterns(texts: &[&str]) -> (r: Result<Vec<Pattern>, ScrapeError>)
    ensures
        r is Ok <==> forall|k: int| 0 <= k < texts@.len() ==> spec_regex_ok(#[trigger] texts@[k]@),
        r matches Ok(v) ==> v@.len() == texts@.len() && forall|k: int|
            0 <= k < texts@.len() ==> #[trigger] v@[k]@ == texts@[k]@,
        r matches Err(e) ==> e == ScrapeError::Pattern,
{
    let mut out: Vec<Pattern> = Vec::new();
    let mut i: usize = 0;
    while i < texts.len()
        invariant
            i <= texts@.len(),
            out@.len() == i,
            forall|k: int| 0 <= k < i ==> #[trigger] out@[k]@ == texts@[k]@,
            forall|k: int| 0 <= k < i ==> spec_regex_ok(#[trigger] texts@[k]@),
        decreases texts@.len() - i,
    {
        let p = pattern(texts[i])?;
        out.push(p);
        i = i + 1;
    }
    Ok(out)
}

/// Group 1 of the first pattern in `pats` that matches `text`, trimmed.
pub open spec fn first_capture(pats: Seq<Seq<char>>, text: Seq<char>) -> Option<Seq<char>>
    decreases pats.len(),
{
    if pats.len() == 0 {
        None
    } else {
        match first_capture(pats.drop_last(), text) {
            Some(v) => Some(v),
            None => match spec_capture(pats.last(), text, 1) {
                Some(v) => Some(trim_seq(v)),
                None => None,
            },
        }
    }
}

/// See `first_capture`.
pub fn first_capture_exec(pats: &Vec<Pattern>, text: &str) -> (r: Option<String>)
    ensures
        crate::models::opt_view(r) == first_capture(pats@.map_values(|p: Pattern| p@), text@),
{
    let ghost ps = pats@.map_values(|p: Pattern| p@);
    let mut i: usize = 0;
    while i < pats.len()
        invariant
            i <= pats@.len(),
            ps == pats@.map_values(|p: Pattern| p@),
            first_capture(ps.take(i as int), text@) is None,
        decreases pats@.len() - i,
    {
        assert(ps.take(i + 1).drop_last() =~= ps.take(i as int));
        assert(ps.take(i + 1).last() == pats@[i as int]@);
        match pats[i].capture(text, 1) {
            Some(v) => {
                proof {
                    lemma_first_capture_prefix(ps, text@, i + 1);
                }
                return Some(trimmed_string(&v));
            },
            None => {},
        }
        i = i + 1;
    }
    assert(ps.take(pats@.len() as int) =~= ps);
    None
}

proof fn lemma_first_capture_prefix(pats: Seq<Seq<char>>, text: Seq<char>, k: int)
    requires
        0 <= k <= pats.len(),
        first_capture(pats.take(k), text) is Some,
    ensures
        first_capture(pats, text) == first_capture(pats.take(k), text),
    decreases pats.len() - k,
{
    if k < pats.len() {
        assert(pats.take(k + 1).drop_last() =~= pats.take(k));
        lemma_first_capture_prefix(pats, text, k + 1);
    } else {
        assert(pats.take(k) =~= pats);
    }
}

/// Compiles a selector of the source, or reports that `scraper` refused it.
pub fn selector(text: &str) -> (r: Result<Css, ScrapeError>)
    ensures
        r is Ok <==> crate::dom::spec_css_ok(text@),
        r matches Ok(c) ==> c@ == text@,
        r matches Err(e) ==> e == ScrapeError::Selector,
{
    match Css::parse(text) {
        Some(c) => Ok(c),
        None => Err(ScrapeError::Selector),
    }
}

/// A string's characters, trimmed.
pub fn trimmed_string(s: &String) -> (r: String)
    ensures
        r@ == trim_seq(s@),
{
    from_chars(&trim(&to_chars(s.as_str())))
}

} // verus!
