//! Regular expressions, by way of the `regex` crate.
//!
//! A compiled pattern is known by its source text; what a search gives back is
//! named as a function of the pattern's text and of the text searched.
use vstd::prelude::*;

verus! {

#[verifier::external_type_specification]
#[verifier::external_body]
pub struct ExRegex(regex::Regex);

/// Whether `regex::Regex::new` accepts a pattern.
pub uninterp spec fn spec_regex_ok(pat: Seq<char>) -> bool;

/// Group `group` of the leftmost-first match of `pat` in `hay`
/// (`regex::Regex::captures`, then `regex::Captures::get`); `None` where there
/// is no match or the group took no part in it.
pub uninterp spec fn spec_capture(pat: Seq<char>, hay: Seq<char>, group: usize) -> Option<Seq<char>>;

/// The successive non-overlapping matches of `pat` in `hay`
/// (`regex::Regex::find_iter`).
pub uninterp spec fn spec_find_all(pat: Seq<char>, hay: Seq<char>) -> Seq<Seq<char>>;

/// `hay` with the leftmost-first match of `pat` replaced by `rep`
/// (`regex::Regex::replace`); `hay` itself where there is no match.
pub uninterp spec fn spec_replace_first(pat: Seq<char>, hay: Seq<char>, rep: Seq<char>) -> Seq<char>;

/// A regular expression that `regex` compiled, with its source text.
pub struct Pattern {
    text: String,
    re: regex::Regex,
}

impl View for Pattern {
    type V = Seq<char>;

    closed spec fn view(&self) -> Seq<char> {
        self.text@
    }
}

impl Pattern {
    /// `regex::Regex::new`; `None` where it reports an error.
    #[verifier::external_body]
    pub fn new(text: &str) -> (r: Option<Pattern>)
        ensures
            r is Some <==> spec_regex_ok(text@),
            r matches Some(p) ==> p@ == text@,
    {
        regex::Regex::new(text).ok().map(|re| Pattern { text: text.to_string(), re })
    }

    /// Group `group` of the first match in `hay`.
    #[verifier::external_body]
    pub fn capture(&self, hay: &str, group: usize) -> (r: Option<String>)
        ensures
            r matches Some(v) ==> spec_capture(self@, hay@, group) == Some(v@),
            r is None ==> spec_capture(self@, hay@, group) is None,
    {
        self.re.captures(hay).and_then(|c| c.get(group)).map(|m| m.as_str().to_string())
    }

    /// Whether the pattern matches somewhere in `hay` (`regex::Regex::is_match`,
    /// which holds exactly where a match, group 0, exists).
    pub fn is_match(&self, hay: &str) -> (r: bool)
        ensures
            r == (spec_capture(self@, hay@, 0) is Some),
    {
        self.capture(hay, 0).is_some()
    }

    /// Every match in `hay`, in order.
    #[verifier::external_body]
    pub fn find_all(&self, hay: &str) -> (r: Vec<String>)
        ensures
            r@.map_values(|s: String| s@) == spec_find_all(self@, hay@),
    {
        self.re.find_iter(hay).map(|m| m.as_str().to_string()).collect()
    }

    /// `hay` with its first match replaced by `rep`, taken literally.
    #[verifier::external_body]
    pub fn replace_first(&self, hay: &str, rep: &str) -> (r: String)
        ensures
            r@ == spec_replace_first(self@, hay@, rep@),
    {
        self.re.replace(hay, regex::NoExpand(rep)).to_string()
    }
}

} // verus!
