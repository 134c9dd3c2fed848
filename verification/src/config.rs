//! Reading the settings: lists and numbers given as text.
use crate::text::{
    all_ascii_digits, decimal_seq, digit_char, lemma_trim_idempotent, from_chars, string_views,
    lemma_string_views_push, to_chars, trim, trim_seq,
};
use vstd::prelude::*;

verus! {

broadcast use vstd::seq_lib::group_seq_properties;

/// The pieces of `s` between the copies of `c` (`str::split` with a char).
pub open spec fn split_char(s: Seq<char>, c: char) -> Seq<Seq<char>>
    decreases s.len(),
{
    if s.len() == 0 {
        seq![Seq::empty()]
    } else {
        let p = split_char(s.drop_last(), c);
        if s.last() == c {
            p.push(Seq::empty())
        } else {
            p.drop_last().push(p.last().push(s.last()))
        }
    }
}

/// The items of a comma-separated list: its pieces, trimmed, without the
/// empty ones.
pub open spec fn list_items(s: Seq<char>) -> Seq<Seq<char>> {
    split_char(s, ',').map_values(|p: Seq<char>| trim_seq(p)).filter(|p: Seq<char>| p.len() > 0)
}

proof fn lemma_split_nonempty(s: Seq<char>, c: char)
    ensures
        split_char(s, c).len() >= 1,
    decreases s.len(),
{
    if s.len() > 0 {
        lemma_split_nonempty(s.drop_last(), c);
    }
}

/// The trimmed, non-empty items of a comma-separated list, in order.
pub fn split_list(raw: &str) -> (r: Vec<String>)
    ensures
        string_views(r@) == list_items(raw@),
{
    let chars = to_chars(raw);
    let ghost s = raw@;
    let ghost keep = |p: Seq<char>| p.len() > 0;
    let ghost tr = |p: Seq<char>| trim_seq(p);
    let mut items: Vec<String> = Vec::new();
    let mut cur: Vec<char> = Vec::new();
    let mut i: usize = 0;
    while i < chars.len()
        invariant
            i <= chars@.len(),
            chars@ == s,
            keep == (|p: Seq<char>| p.len() > 0),
            tr == (|p: Seq<char>| trim_seq(p)),
            split_char(s.take(i as int), ',').len() >= 1,
            cur@ == split_char(s.take(i as int), ',').last(),
            string_views(items@) == split_char(s.take(i as int), ',').drop_last().map_values(
                tr,
            ).filter(keep),
        decreases chars@.len() - i,
    {
        let ghost p = split_char(s.take(i as int), ',');
        assert(s.take(i + 1).drop_last() =~= s.take(i as int));
        assert(s.take(i + 1).last() == chars@[i as int]);
        if chars[i] == ',' {
            let piece = trim(&cur);
            assert(split_char(s.take(i + 1), ',') == p.push(Seq::empty()));
            assert(split_char(s.take(i + 1), ',').drop_last() =~= p);
            assert(p =~= p.drop_last().push(p.last()));
            assert(p.map_values(tr) =~= p.drop_last().map_values(tr).push(trim_seq(p.last())));
            proof {
                p.drop_last().map_values(tr).lemma_filter_push(trim_seq(p.last()), keep);
            }
            if piece.len() > 0 {
                let item = from_chars(&piece);
                proof {
                    lemma_string_views_push(items@, item);
                }
                items.push(item);
            }
            cur = Vec::new();
        } else {
            cur.push(chars[i]);
            assert(split_char(s.take(i + 1), ',').drop_last() =~= p.drop_last());
        }
        i = i + 1;
    }
    let ghost p = split_char(s, ',');
    assert(s.take(chars@.len() as int) =~= s);
    assert(p =~= p.drop_last().push(p.last()));
    assert(p.map_values(tr) =~= p.drop_last().map_values(tr).push(trim_seq(p.last())));
    proof {
        p.drop_last().map_values(tr).lemma_filter_push(trim_seq(p.last()), keep);
    }
    let piece = trim(&cur);
    if piece.len() > 0 {
        let item = from_chars(&piece);
        proof {
            lemma_string_views_push(items@, item);
        }
        items.push(item);
    }
    items
}

/// Every item of a comma-separated list is non-empty and already trimmed.
pub proof fn lemma_list_items_trimmed(s: Seq<char>, i: int)
    requires
        0 <= i < list_items(s).len(),
    ensures
        list_items(s)[i].len() > 0,
        trim_seq(list_items(s)[i]) == list_items(s)[i],
{
    let keep = |p: Seq<char>| p.len() > 0;
    let tr = |p: Seq<char>| trim_seq(p);
    let pieces = split_char(s, ',').map_values(tr);
    let x = list_items(s)[i];
    pieces.lemma_filter_pred(keep, i);
    assert(pieces.filter(keep).contains(x));
    pieces.lemma_filter_contains_rev(keep, x);
    let j = choose|j: int| 0 <= j < pieces.len() && pieces[j] == x;
    lemma_trim_idempotent(split_char(s, ',')[j]);
}

/// The value of a run of ASCII digits.
pub open spec fn digits_value(s: Seq<char>) -> nat
    decreases s.len(),
{
    if s.len() == 0 {
        0
    } else {
        digits_value(s.drop_last()) * 10 + ((s.last() as u32) - 48) as nat
    }
}

/// The digits of a number text: without a leading `+`.
pub open spec fn unsigned_digits(s: Seq<char>) -> Seq<char> {
    if s.len() > 0 && s[0] == '+' {
        s.drop_first()
    } else {
        s
    }
}

/// What `u64::from_str` gives: the value of a text made of an optional `+` and
/// at least one ASCII digit, where it fits in 64 bits.
pub open spec fn parse_u64_spec(s: Seq<char>) -> Option<u64> {
    let d = unsigned_digits(s);
    if d.len() > 0 && all_ascii_digits(d) && digits_value(d) <= u64::MAX {
        Some(digits_value(d) as u64)
    } else {
        None
    }
}

proof fn lemma_digits_value_mono(s: Seq<char>, k: int)
    requires
        0 <= k <= s.len(),
        all_ascii_digits(s),
    ensures
        digits_value(s.take(k)) <= digits_value(s),
    decreases s.len() - k,
{
    if k < s.len() {
        lemma_digits_value_mono(s, k + 1);
        assert(s.take(k + 1).drop_last() =~= s.take(k));
        assert('0' <= s[k] && s[k] <= '9');
    } else {
        assert(s.take(k) =~= s);
    }
}

/// `raw.parse::<u64>().ok()`.
pub fn parse_u64(raw: &str) -> (r: Option<u64>)
    ensures
        r == parse_u64_spec(raw@),
{
    let chars = to_chars(raw);
    let start: usize = if chars.len() > 0 && chars[0] == '+' {
        1
    } else {
        0
    };
    let ghost d = unsigned_digits(raw@);
    assert(d =~= chars@.skip(start as int));
    if start >= chars.len() {
        return None;
    }
    let mut value: u64 = 0;
    let mut i: usize = start;
    while i < chars.len()
        invariant
            start <= i <= chars@.len(),
            start < chars@.len(),
            d == chars@.skip(start as int),
            d == unsigned_digits(raw@),
            value == digits_value(d.take(i - start)),
            all_ascii_digits(d.take(i - start)),
        decreases chars@.len() - i,
    {
        let c = chars[i];
        assert(d.take(i - start + 1).drop_last() =~= d.take(i - start));
        assert(d.take(i - start + 1).last() == c);
        if !('0' <= c && c <= '9') {
            assert(d[i - start] == c);
            assert(!all_ascii_digits(d));
            return None;
        }
        let digit = (c as u32 - 48) as u64;
        if value > (u64::MAX - digit) / 10 {
            proof {
                assert(digits_value(d.take(i - start + 1)) > u64::MAX) by (nonlinear_arith)
                    requires
                        digits_value(d.take(i - start + 1)) == value * 10 + digit,
                        value > (u64::MAX - digit) / 10,
                        digit <= 9,
                ;
                if all_ascii_digits(d) {
                    lemma_digits_value_mono(d, i - start + 1);
                }
            }
            return None;
        }
        assert(value * 10 + digit <= u64::MAX) by (nonlinear_arith)
            requires
                value <= (u64::MAX - digit) / 10,
                digit <= 9,
        ;
        value = value * 10 + digit;
        i = i + 1;
    }
    assert(d.take(i - start) =~= d);
    Some(value)
}

proof fn lemma_decimal_digits(n: nat)
    ensures
        decimal_seq(n).len() > 0,
        all_ascii_digits(decimal_seq(n)),
        digits_value(decimal_seq(n)) == n,
    decreases n,
{
    let d = n % 10;
    assert(digit_char(d) == (48 + d) as char);
    assert(('0' as u32) == 48);
    assert((((48 + d) as char) as u32) == 48 + d);
    if n >= 10 {
        lemma_decimal_digits(n / 10);
        let p = decimal_seq(n / 10);
        assert(decimal_seq(n) == p.push(digit_char(d)));
        assert(decimal_seq(n).drop_last() =~= p);
        assert(decimal_seq(n).last() == digit_char(d));
        assert((n / 10) * 10 + d == n) by (nonlinear_arith)
            requires
                d == n % 10,
        ;
        assert(digits_value(decimal_seq(n)) == digits_value(p) * 10 + d);
        assert forall|k: int| 0 <= k < decimal_seq(n).len() implies '0' <= #[trigger] decimal_seq(
            n,
        )[k] && decimal_seq(n)[k] <= '9' by {
            if k < p.len() {
                assert(decimal_seq(n)[k] == p[k]);
            }
        }
    } else {
        assert(decimal_seq(n) == seq![digit_char(n)]);
        assert(decimal_seq(n).drop_last() =~= Seq::<char>::empty());
        assert(d == n);
        assert(digits_value(decimal_seq(n)) == digits_value(Seq::<char>::empty()) * 10 + d);
    }
}

/// Reading back a number written in decimal gives the number.
pub proof fn lemma_parse_decimal(n: u64)
    ensures
        parse_u64_spec(decimal_seq(n as nat)) == Some(n),
{
    lemma_decimal_digits(n as nat);
    assert(decimal_seq(n as nat)[0] != '+');
    assert(unsigned_digits(decimal_seq(n as nat)) == decimal_seq(n as nat));
}

/// `raw.parse::<u64>().unwrap_or(default)`.
pub fn parse_u64_or(raw: &str, default: u64) -> (r: u64)
    ensures
        r == match parse_u64_spec(raw@) {
            Some(v) => v,
            None => default,
        },
{
    match parse_u64(raw) {
        Some(v) => v,
        None => default,
    }
}

} // verus!
