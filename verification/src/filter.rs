//! Deadlines and keyword matching: which announcements are worth reporting.
use crate::date::{
    date_ge, day_number, in_range, lemma_date_order, on_or_after, parse_date, spec_parse_date, today,
    Date,
};
use crate::models::{views, Announcement, AnnouncementView};
use crate::pattern::{spec_find_all, spec_regex_ok, Pattern};
use crate::text::{
    byte_len, byte_len_exec, byte_prefix, byte_prefix_exec, concat_strings, contains, contains_seq,
    from_chars, spec_lowercase, string_views, lemma_string_views_push, to_chars, to_lowercase,
};
use vstd::prelude::*;

verus! {

broadcast use vstd::seq_lib::group_seq_properties;

/// The pattern that picks out the digits of a deadline text.
pub open spec fn digit_pattern() -> Seq<char> {
    "\\d"@
}

/// Words that mark a deadline as open-ended ("always", "separately",
/// "undecided", "later").
pub open spec fn open_ended(s: Seq<char>) -> bool {
    ||| contains_seq(s, "상시"@)
    ||| contains_seq(s, "별도"@)
    ||| contains_seq(s, "미정"@)
    ||| contains_seq(s, "추후"@)
}

/// The date that a deadline text gives, from its digits: the first eight as
/// `YYYYMMDD` where there are at least eight bytes of them, else the first six as
/// `YYMMDD`. `None` for an empty or open-ended text, for one with fewer digits,
/// where the date does not parse, and where the cut would fall inside a
/// character.
pub open spec fn deadline_of(s: Seq<char>) -> Option<Date> {
    if s.len() == 0 || open_ended(s) || !spec_regex_ok(digit_pattern()) {
        None
    } else {
        let digits = spec_find_all(digit_pattern(), s).flatten();
        if byte_len(digits) >= 8 {
            match byte_prefix(digits, 8) {
                Some(p) => spec_parse_date(p, "%Y%m%d"@),
                None => None,
            }
        } else if byte_len(digits) >= 6 {
            match byte_prefix(digits, 6) {
                Some(p) => spec_parse_date(p, "%y%m%d"@),
                None => None,
            }
        } else {
            None
        }
    }
}

/// An announcement still open on `today`: one without a deadline, with an empty
/// one or one that gives no date, or whose deadline is `today` or later.
pub open spec fn open_on(a: AnnouncementView, today: Date) -> bool {
    match a.deadline {
        Some(d) => d.len() == 0 || match deadline_of(d) {
            Some(day) => date_ge(day, today),
            None => true,
        },
        None => true,
    }
}

/// `keyword` occurs in `title`, both taken in lower case.
pub open spec fn keyword_in(title: Seq<char>, keyword: Seq<char>) -> bool {
    contains_seq(spec_lowercase(title), spec_lowercase(keyword))
}

/// The keywords, in their order, that occur in the title.
pub open spec fn matched_in(title: Seq<char>, keywords: Seq<Seq<char>>) -> Seq<Seq<char>> {
    keywords.filter(|k: Seq<char>| keyword_in(title, k))
}

/// `a` with its matched keywords replaced by `m`.
pub open spec fn with_keywords(a: AnnouncementView, m: Seq<Seq<char>>) -> AnnouncementView {
    AnnouncementView {
        id: a.id,
        title: a.title,
        url: a.url,
        source: a.source,
        date: a.date,
        agency: a.agency,
        deadline: a.deadline,
        matched_keywords: m,
        extra: a.extra,
    }
}

/// What the filter makes of one announcement on `today`: dropped when closed or
/// when no keyword matches, else kept with its matched keywords.
pub open spec fn screened(a: AnnouncementView, keywords: Seq<Seq<char>>, today: Date) -> Option<
    AnnouncementView,
> {
    if open_on(a, today) && matched_in(a.title, keywords).len() > 0 {
        Some(with_keywords(a, matched_in(a.title, keywords)))
    } else {
        None
    }
}

/// The announcements that the filter keeps on `today`, in their order.
pub open spec fn screened_all(
    anns: Seq<AnnouncementView>,
    keywords: Seq<Seq<char>>,
    today: Date,
) -> Seq<AnnouncementView> {
    anns.filter_map(|a: AnnouncementView| screened(a, keywords, today))
}

/// An announcement without a deadline is open on every day.
pub proof fn lemma_undated_open(a: AnnouncementView, today: Date)
    requires
        a.deadline is None,
    ensures
        open_on(a, today),
{
}

/// Whatever the filter keeps is open on the day, holds at least one keyword,
/// carries exactly the keywords found in its title (each one of the given
/// keywords), and is one of the announcements given with nothing else changed.
pub proof fn lemma_screened_kept(
    anns: Seq<AnnouncementView>,
    keywords: Seq<Seq<char>>,
    today: Date,
    b: AnnouncementView,
)
    requires
        screened_all(anns, keywords, today).contains(b),
    ensures
        open_on(b, today),
        b.matched_keywords.len() > 0,
        b.matched_keywords == matched_in(b.title, keywords),
        forall|k: Seq<char>| #[trigger]
            b.matched_keywords.contains(k) ==> keywords.contains(k) && keyword_in(b.title, k),
        exists|a: AnnouncementView| #[trigger]
            anns.contains(a) && b == with_keywords(a, b.matched_keywords),
{
    let f = |a: AnnouncementView| screened(a, keywords, today);
    anns.lemma_filter_map_contains(f, b);
    let a = choose|a: AnnouncementView| #[trigger] anns.contains(a) && f(a) == Some(b);
    let pred = |k: Seq<char>| keyword_in(a.title, k);
    assert forall|k: Seq<char>| #[trigger] b.matched_keywords.contains(k) implies keywords.contains(
        k,
    ) && keyword_in(b.title, k) by {
        let i = choose|i: int| 0 <= i < b.matched_keywords.len() && b.matched_keywords[i] == k;
        keywords.lemma_filter_pred(pred, i);
        keywords.lemma_filter_contains_rev(pred, k);
    }
}

/// Filtering what the filter kept, on the same day with the same keywords,
/// changes nothing.
pub proof fn lemma_screening_idempotent(
    anns: Seq<AnnouncementView>,
    keywords: Seq<Seq<char>>,
    today: Date,
)
    ensures
        screened_all(screened_all(anns, keywords, today), keywords, today) == screened_all(
            anns,
            keywords,
            today,
        ),
    decreases anns.len(),
{
    let f = |a: AnnouncementView| screened(a, keywords, today);
    if anns.len() > 0 {
        let rest = anns.drop_last();
        lemma_screening_idempotent(rest, keywords, today);
        let s = screened_all(rest, keywords, today);
        match f(anns.last()) {
            Some(b) => {
                assert(screened_all(anns, keywords, today) == s + seq![b]);
                assert((s + seq![b]).drop_last() =~= s);
                assert((s + seq![b]).last() == b);
                assert(f(b) == Some(b)) by {
                    let a = anns.last();
                    assert(b == with_keywords(a, matched_in(a.title, keywords)));
                    assert(with_keywords(b, matched_in(b.title, keywords)) == b);
                }
            },
            None => {
                assert(screened_all(anns, keywords, today) == s);
            },
        }
    }
}

/// An announcement whose deadline text gives a date is open on `today` exactly
/// where that date is `today` or later in the calendar: a deadline in an
/// earlier year, or an earlier month or day of the same year, closes it.
pub proof fn lemma_dated_deadline_decides(a: AnnouncementView, today: Date, d: Seq<char>, day: Date)
    requires
        a.deadline == Some(d),
        deadline_of(d) == Some(day),
        in_range(day),
        in_range(today),
    ensures
        open_on(a, today) <==> day_number(day) >= day_number(today),
        day.year < today.year ==> !open_on(a, today),
{
    lemma_date_order(day, today);
}

fn lit(s: &str) -> (r: Vec<char>)
    ensures
        r@ == s@,
{
    to_chars(s)
}

/// The date that a deadline text gives (see `deadline_of`).
pub fn parse_deadline(s: &str) -> (r: Option<Date>)
    ensures
        r == deadline_of(s@),
{
    let chars = to_chars(s);
    if chars.len() == 0 {
        return None;
    }
    if contains(&chars, &lit("상시")) || contains(&chars, &lit("별도")) || contains(
        &chars,
        &lit("미정"),
    ) || contains(&chars, &lit("추후")) {
        return None;
    }
    let re = match Pattern::new("\\d") {
        Some(re) => re,
        None => return None,
    };
    let found = re.find_all(s);
    let digits = concat_strings(&found);
    let n = byte_len_exec(&digits);
    if n >= 8 {
        match byte_prefix_exec(&digits, 8) {
            Some(p) => parse_date(from_chars(&p).as_str(), "%Y%m%d"),
            None => None,
        }
    } else if n >= 6 {
        match byte_prefix_exec(&digits, 6) {
            Some(p) => parse_date(from_chars(&p).as_str(), "%y%m%d"),
            None => None,
        }
    } else {
        None
    }
}

/// Whether the announcement is still open on `today` (see `open_on`).
pub fn is_not_expired_on(ann: &Announcement, today: Date) -> (r: bool)
    ensures
        r == open_on(ann@, today),
{
    match &ann.deadline {
        Some(d) => {
            if d.as_str().is_empty() {
                true
            } else {
                match parse_deadline(d.as_str()) {
                    Some(day) => on_or_after(day, today),
                    None => true,
                }
            }
        },
        None => true,
    }
}

/// Whether the announcement is still open today, by the local clock.
pub fn is_not_expired(ann: &Announcement) -> (r: bool)
    ensures
        exists|today: Date| r == #[trigger] open_on(ann@, today),
{
    let t = today();
    is_not_expired_on(ann, t)
}

/// The keywords that occur in the announcement's title, both taken in lower
/// case, in the order of `keywords`.
pub fn match_keywords(ann: &Announcement, keywords: &[String]) -> (r: Vec<String>)
    ensures
        string_views(r@) == matched_in(ann.title@, string_views(keywords@)),
{
    let title = to_chars(to_lowercase(ann.title.as_str()).as_str());
    let ghost kws = string_views(keywords@);
    let ghost pred = |k: Seq<char>| keyword_in(ann.title@, k);
    let mut r: Vec<String> = Vec::new();
    let mut i: usize = 0;
    while i < keywords.len()
        invariant
            i <= keywords@.len(),
            kws == string_views(keywords@),
            title@ == spec_lowercase(ann.title@),
            pred == (|k: Seq<char>| keyword_in(ann.title@, k)),
            string_views(r@) == kws.take(i as int).filter(pred),
        decreases keywords@.len() - i,
    {
        let kw = to_chars(to_lowercase(keywords[i].as_str()).as_str());
        let found = contains(&title, &kw);
        assert(kws.take(i + 1) =~= kws.take(i as int).push(kws[i as int]));
        proof {
            kws.take(i as int).lemma_filter_push(kws[i as int], pred);
        }
        if found {
            let k = keywords[i].clone();
            proof {
                lemma_string_views_push(r@, k);
            }
            r.push(k);
        }
        i = i + 1;
    }
    assert(kws.take(keywords@.len() as int) =~= kws);
    r
}

/// Keeps the announcements that are still open on `today` and whose title holds
/// a keyword, each with its matched keywords.
pub fn filter_announcements_on(
    announcements: Vec<Announcement>,
    keywords: &[String],
    today: Date,
) -> (r: Vec<Announcement>)
    ensures
        views(r@) == screened_all(views(announcements@), string_views(keywords@), today),
{
    let ghost kws = string_views(keywords@);
    let ghost all = views(announcements@);
    let ghost f = |a: AnnouncementView| screened(a, kws, today);
    let mut r: Vec<Announcement> = Vec::new();
    for ann in it: announcements.into_iter()
        invariant
            it.seq() == announcements@,
            all == views(announcements@),
            kws == string_views(keywords@),
            f == (|a: AnnouncementView| screened(a, kws, today)),
            views(r@) == all.take(it.index() as int).filter_map(f),
    {
        let ghost idx = it.index() as int;
        proof {
            all.lemma_filter_map_take_succ(f, idx);
        }
        let mut ann = ann;
        if is_not_expired_on(&ann, today) {
            let matched = match_keywords(&ann, keywords);
            if matched.len() > 0 {
                ann.matched_keywords = matched;
                let ghost before = r@;
                r.push(ann);
                assert(views(r@) =~= views(before).push(ann@));
            }
        }
    }
    assert(all.take(announcements@.len() as int) =~= all);
    r
}

/// Keeps the announcements that are still open today, by the local clock, and
/// whose title holds a keyword, each with its matched keywords.
pub fn filter_announcements(announcements: Vec<Announcement>, keywords: &[String]) -> (r: Vec<
    Announcement,
>)
    ensures
        exists|today: Date|
            views(r@) == #[trigger] screened_all(
                views(announcements@),
                string_views(keywords@),
                today,
            ),
{
    let t = today();
    filter_announcements_on(announcements, keywords, t)
}

} // verus!
