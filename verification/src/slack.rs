//! The messages that report announcements: their blocks and their batches.
use crate::models::{Announcement, AnnouncementView};
use crate::seen::ref_views;
use crate::text::{
    contains_seq, lemma_contains_middle, lemma_join_has_part, concat, decimal, decimal_seq, from_chars, join, join_seq, join_strings, to_chars,
    char_views, lemma_char_views_push,
};
use vstd::prelude::*;

verus! {

broadcast use vstd::seq_lib::group_seq_properties;

/// A block of a message.
pub enum Block {
    /// A heading in plain text.
    Header(String),
    /// A dividing line.
    Divider,
    /// A section of formatted text.
    Section(String),
}

/// A block as plain values.
pub enum BlockView {
    Header(Seq<char>),
    Divider,
    Section(Seq<char>),
}

impl View for Block {
    type V = BlockView;

    open spec fn view(&self) -> BlockView {
        match self {
            Block::Header(s) => BlockView::Header(s@),
            Block::Divider => BlockView::Divider,
            Block::Section(s) => BlockView::Section(s@),
        }
    }
}

/// The views of blocks.
pub open spec fn block_views(v: Seq<Block>) -> Seq<BlockView> {
    v.map_values(|b: Block| b@)
}

/// The most announcements that one message carries.
pub const BATCH_SIZE: usize = 15;

/// The heading of a message about `n` announcements.
pub open spec fn header_text(n: nat) -> Seq<char> {
    "R&D 공고 알림 - "@ + decimal_seq(n) + "건"@
}

/// The one-line text of a message about `n` announcements.
pub open spec fn batch_text_seq(n: nat) -> Seq<char> {
    "R&D 공고 "@ + decimal_seq(n) + "건"@
}

/// `label` and the value, as a one-element list where there is a value.
pub open spec fn labeled(label: Seq<char>, v: Option<Seq<char>>) -> Seq<Seq<char>> {
    match v {
        Some(x) => seq![label + x],
        None => Seq::empty(),
    }
}

/// The value stored under `key`.
pub open spec fn entry(m: Map<Seq<char>, Seq<char>>, key: Seq<char>) -> Option<Seq<char>> {
    if m.contains_key(key) {
        Some(m[key])
    } else {
        None
    }
}

/// The source, the agency, the date and the deadline of an announcement, each
/// with its label, where known.
pub open spec fn meta_parts(a: AnnouncementView) -> Seq<Seq<char>> {
    seq!["출처: "@ + a.source] + labeled("기관: "@, a.agency) + labeled("등록: "@, a.date)
        + labeled("마감: "@, a.deadline)
}

/// The deadline, the budget, the period and the eligibility among the details,
/// each with its label, where known.
pub open spec fn extra_parts(a: AnnouncementView) -> Seq<Seq<char>> {
    labeled("마감: "@, entry(a.extra, "마감일"@)) + labeled("금액: "@, entry(a.extra, "금액"@))
        + labeled("기간: "@, entry(a.extra, "기간"@)) + labeled("자격: "@, entry(a.extra, "자격"@))
}

/// The section text of an announcement: its title linked to its url, its
/// labeled facts, its keywords, its details and its summary.
pub open spec fn section_text(a: AnnouncementView) -> Seq<char> {
    let extras = extra_parts(a);
    let extra_str = if extras.len() == 0 {
        Seq::empty()
    } else {
        "\n"@ + join_seq(extras, " | "@)
    };
    let ai_str = match entry(a.extra, "AI요약"@) {
        Some(v) => "\n📋 "@ + v,
        None => Seq::empty(),
    };
    "*<"@ + a.url + "|"@ + a.title + ">*\n"@ + join_seq(meta_parts(a), " | "@) + "\n키워드: "@
        + join_seq(a.matched_keywords, " / "@) + extra_str + ai_str
}

proof fn lemma_section_has_meta(a: AnnouncementView, k: int)
    requires
        0 <= k < meta_parts(a).len(),
    ensures
        contains_seq(section_text(a), meta_parts(a)[k]),
{
    let (x, y) = lemma_join_has_part(meta_parts(a), " | "@, k);
    let extras = extra_parts(a);
    let extra_str = if extras.len() == 0 {
        Seq::empty()
    } else {
        "\n"@ + join_seq(extras, " | "@)
    };
    let ai_str = match entry(a.extra, "AI요약"@) {
        Some(v) => "\n📋 "@ + v,
        None => Seq::empty(),
    };
    let head = "*<"@ + a.url + "|"@ + a.title + ">*\n"@;
    let tail = "\n키워드: "@ + join_seq(a.matched_keywords, " / "@) + extra_str + ai_str;
    assert(section_text(a) =~= (head + x) + meta_parts(a)[k] + (y + tail));
    lemma_contains_middle(head + x, meta_parts(a)[k], y + tail);
}

/// The section of an announcement shows each of its facts under its own label:
/// the source after "출처: ", the agency after "기관: ", the registration date
/// after "등록: " and the deadline after "마감: ", wherever the announcement has
/// them.
pub proof fn lemma_section_shows_facts(a: AnnouncementView)
    ensures
        contains_seq(section_text(a), "출처: "@ + a.source),
        a.agency matches Some(g) ==> contains_seq(section_text(a), "기관: "@ + g),
        a.date matches Some(d) ==> contains_seq(section_text(a), "등록: "@ + d),
        a.deadline matches Some(x) ==> contains_seq(section_text(a), "마감: "@ + x),
{
    let m = meta_parts(a);
    let na: int = if a.agency is Some { 1 } else { 0 };
    let nd: int = if a.date is Some { 1 } else { 0 };
    lemma_section_has_meta(a, 0);
    if let Some(g) = a.agency {
        assert(m[1] == "기관: "@ + g);
        lemma_section_has_meta(a, 1);
    }
    if let Some(d) = a.date {
        assert(m[1 + na] == "등록: "@ + d);
        lemma_section_has_meta(a, 1 + na);
    }
    if let Some(x) = a.deadline {
        assert(m[1 + na + nd] == "마감: "@ + x);
        lemma_section_has_meta(a, 1 + na + nd);
    }
}

/// A section and a divider for each announcement, in order.
pub open spec fn sections(anns: Seq<AnnouncementView>) -> Seq<BlockView>
    decreases anns.len(),
{
    if anns.len() == 0 {
        Seq::empty()
    } else {
        sections(anns.drop_last()) + seq![
            BlockView::Section(section_text(anns.last())),
            BlockView::Divider,
        ]
    }
}

/// The blocks of a message about `anns`: a heading with their number, a
/// divider, then a section and a divider for each.
pub open spec fn message_blocks(anns: Seq<AnnouncementView>) -> Seq<BlockView> {
    seq![BlockView::Header(header_text(anns.len())), BlockView::Divider] + sections(anns)
}

/// A message about `n` announcements has two blocks for each and two more.
pub proof fn lemma_block_count(anns: Seq<AnnouncementView>)
    ensures
        message_blocks(anns).len() == 2 * anns.len() + 2,
    decreases anns.len(),
{
    lemma_sections_len(anns);
}

proof fn lemma_sections_len(anns: Seq<AnnouncementView>)
    ensures
        sections(anns).len() == 2 * anns.len(),
    decreases anns.len(),
{
    if anns.len() > 0 {
        lemma_sections_len(anns.drop_last());
    }
}

fn opt_labeled(parts: &mut Vec<Vec<char>>, label: &str, v: &Option<String>)
    ensures
        char_views(final(parts)@) == char_views(old(parts)@) + labeled(
            label@,
            crate::models::opt_view(*v),
        ),
{
    match v {
        Some(x) => {
            let item = concat(&to_chars(label), &to_chars(x.as_str()));
            proof {
                lemma_char_views_push(parts@, item);
            }
            parts.push(item);
            assert(char_views(parts@) =~= char_views(old(parts)@) + labeled(
                label@,
                crate::models::opt_view(*v),
            ));
        },
        None => {
            assert(char_views(parts@) =~= char_views(old(parts)@) + labeled(
                label@,
                crate::models::opt_view(*v),
            ));
        },
    }
}

/// See `section_text`.
pub fn section(a: &Announcement) -> (r: String)
    ensures
        r@ == section_text(a@),
{
    let mut meta: Vec<Vec<char>> = Vec::new();
    let source = concat(&to_chars("출처: "), &to_chars(a.source.as_str()));
    proof {
        lemma_char_views_push(meta@, source);
    }
    meta.push(source);
    opt_labeled(&mut meta, "기관: ", &a.agency);
    opt_labeled(&mut meta, "등록: ", &a.date);
    opt_labeled(&mut meta, "마감: ", &a.deadline);
    assert(char_views(meta@) =~= meta_parts(a@));
    let mut extras: Vec<Vec<char>> = Vec::new();
    assert(char_views(extras@) =~= Seq::<Seq<char>>::empty());
    opt_labeled(&mut extras, "마감: ", &a.extra.get("마감일"));
    opt_labeled(&mut extras, "금액: ", &a.extra.get("금액"));
    opt_labeled(&mut extras, "기간: ", &a.extra.get("기간"));
    opt_labeled(&mut extras, "자격: ", &a.extra.get("자격"));
    assert(char_views(extras@) =~= extra_parts(a@));
    let extra_str = if extras.len() == 0 {
        Vec::new()
    } else {
        concat(&to_chars("\n"), &join(&extras, &to_chars(" | ")))
    };
    let ai_str = match a.extra.get("AI요약") {
        Some(v) => concat(&to_chars("\n📋 "), &to_chars(v.as_str())),
        None => Vec::new(),
    };
    let mut t = to_chars("*<");
    t = concat(&t, &to_chars(a.url.as_str()));
    t = concat(&t, &to_chars("|"));
    t = concat(&t, &to_chars(a.title.as_str()));
    t = concat(&t, &to_chars(">*\n"));
    t = concat(&t, &join(&meta, &to_chars(" | ")));
    t = concat(&t, &to_chars("\n키워드: "));
    t = concat(&t, &join_strings(&a.matched_keywords, &to_chars(" / ")));
    t = concat(&t, &extra_str);
    t = concat(&t, &ai_str);
    from_chars(&t)
}

/// The blocks of a message about `anns` (see `message_blocks`).
pub fn build_blocks(anns: &[&Announcement]) -> (r: Vec<Block>)
    ensures
        block_views(r@) == message_blocks(ref_views(anns@)),
{
    let ghost all = ref_views(anns@);
    let mut head = to_chars("R&D 공고 알림 - ");
    head = concat(&head, &decimal(anns.len() as u64));
    head = concat(&head, &to_chars("건"));
    let mut blocks: Vec<Block> = Vec::new();
    blocks.push(Block::Header(from_chars(&head)));
    blocks.push(Block::Divider);
    assert(block_views(blocks@) =~= seq![BlockView::Header(header_text(all.len())), BlockView::Divider]);
    let mut i: usize = 0;
    while i < anns.len()
        invariant
            i <= anns@.len(),
            all == ref_views(anns@),
            block_views(blocks@) == seq![BlockView::Header(header_text(all.len())), BlockView::Divider]
                + sections(all.take(i as int)),
        decreases anns@.len() - i,
    {
        assert(all.take(i + 1).drop_last() =~= all.take(i as int));
        assert(all.take(i + 1).last() == anns@[i as int]@);
        let s = section(anns[i]);
        let ghost before = blocks@;
        blocks.push(Block::Section(s));
        blocks.push(Block::Divider);
        assert(block_views(blocks@) =~= block_views(before) + seq![
            BlockView::Section(section_text(all[i as int])),
            BlockView::Divider,
        ]);
        i = i + 1;
    }
    assert(all.take(anns@.len() as int) =~= all);
    blocks
}

/// The one-line text of a message about `n` announcements.
pub fn batch_text(n: usize) -> (r: String)
    ensures
        r@ == batch_text_seq(n as nat),
{
    let t = concat(&concat(&to_chars("R&D 공고 "), &decimal(n as u64)), &to_chars("건"));
    from_chars(&t)
}

/// The ranges `[start, end)` that split `n` announcements into messages of at
/// most `BATCH_SIZE`, in order (`slice::chunks`).
pub open spec fn batch_ranges(n: nat) -> Seq<(nat, nat)>
    decreases n,
{
    if n == 0 {
        Seq::empty()
    } else {
        let last_start = ((n - 1) / 15 * 15) as nat;
        batch_ranges(last_start).push((last_start, n))
    }
}

/// The batches of `n` announcements follow one another from 0 to `n`, each
/// non-empty and of at most `BATCH_SIZE`.
pub proof fn lemma_batches_cover(n: nat)
    ensures
        n == 0 <==> batch_ranges(n).len() == 0,
        n > 0 ==> batch_ranges(n)[0].0 == 0 && batch_ranges(n).last().1 == n,
        forall|k: int|
            0 <= k < batch_ranges(n).len() ==> #[trigger] batch_ranges(n)[k].0 < batch_ranges(n)[k].1
                <= batch_ranges(n)[k].0 + 15,
        forall|k: int|
            0 <= k < batch_ranges(n).len() - 1 ==> #[trigger] batch_ranges(n)[k].1 == batch_ranges(
                n,
            )[k + 1].0,
    decreases n,
{
    if n > 0 {
        let last_start = ((n - 1) / 15 * 15) as nat;
        assert(last_start <= n - 1 && n - 1 < last_start + 15) by (nonlinear_arith)
            requires
                last_start == (n - 1) / 15 * 15,
                n >= 1,
        ;
        lemma_batches_cover(last_start);
        let prev = batch_ranges(last_start);
        assert(batch_ranges(n) == prev.push((last_start, n)));
        if last_start > 0 {
            assert(prev.last().1 == last_start);
        }
    }
}

/// See `batch_ranges`.
pub fn batches(n: usize) -> (r: Vec<(usize, usize)>)
    ensures
        r@.map_values(|p: (usize, usize)| (p.0 as nat, p.1 as nat)) == batch_ranges(n as nat),
{
    let mut r: Vec<(usize, usize)> = Vec::new();
    let mut start: usize = 0;
    while start < n
        invariant
            start <= n,
            start % 15 == 0,
            r@.map_values(|p: (usize, usize)| (p.0 as nat, p.1 as nat)) == batch_ranges(start as nat),
        decreases n - start,
    {
        let end = if n - start > BATCH_SIZE {
            start + BATCH_SIZE
        } else {
            n
        };
        proof {
            assert((end - 1) / 15 * 15 == start) by (nonlinear_arith)
                requires
                    start % 15 == 0,
                    start < end <= start + 15,
            ;
        }
        let ghost before = r@;
        r.push((start, end));
        assert(r@.map_values(|p: (usize, usize)| (p.0 as nat, p.1 as nat)) =~= before.map_values(
            |p: (usize, usize)| (p.0 as nat, p.1 as nat),
        ).push((start as nat, end as nat)));
        if end == n {
            return r;
        }
        start = end;
    }
    r
}

/// The end of the batch that starts at `start`, among `n` announcements.
pub open spec fn batch_end(n: nat, start: nat) -> nat {
    if start + 15 < n {
        (start + 15) as nat
    } else {
        n
    }
}

/// What the sender does next: post the announcements `[start, end)` as one
/// message, or stop and report whether every message went out.
#[derive(PartialEq, Eq, Structural)]
pub enum SendAction {
    Post(usize, usize),
    Finish(bool),
}

/// The next step of sending `n` announcements in batches, once the first
/// `sent` of them have gone out and the last reply was `last_ok` (`true` before
/// the first message): stop with `false` at a refused message, stop with
/// `true` once all went out (at once where there are none), else post the
/// next batch of at most `BATCH_SIZE`.
pub fn next_send(n: usize, sent: usize, last_ok: bool) -> (r: SendAction)
    requires
        sent <= n,
    ensures
        !last_ok ==> r == SendAction::Finish(false),
        last_ok && sent == n ==> r == SendAction::Finish(true),
        last_ok && sent < n ==> r == SendAction::Post(sent, batch_end(n as nat, sent as nat) as usize),
{
    if !last_ok {
        SendAction::Finish(false)
    } else if sent == n {
        SendAction::Finish(true)
    } else if n - sent > BATCH_SIZE {
        SendAction::Post(sent, sent + BATCH_SIZE)
    } else {
        SendAction::Post(sent, n)
    }
}

/// The batches that `next_send` posts from `sent` on when every reply accepts
/// the message.
pub open spec fn posts_from(n: nat, sent: nat) -> Seq<(nat, nat)>
    decreases n - sent,
{
    if sent >= n {
        Seq::empty()
    } else {
        seq![(sent, batch_end(n, sent))] + posts_from(n, batch_end(n, sent))
    }
}

proof fn lemma_posts_continue_batches(n: nat, sent: nat)
    requires
        sent <= n,
        sent % 15 == 0 || sent == n,
    ensures
        batch_ranges(n) == batch_ranges(sent) + posts_from(n, sent),
    decreases n - sent,
{
    if sent == n {
        assert(batch_ranges(n) + Seq::<(nat, nat)>::empty() =~= batch_ranges(n));
    } else {
        let e = batch_end(n, sent);
        assert((e - 1) / 15 * 15 == sent && (e == n || e % 15 == 0)) by (nonlinear_arith)
            requires
                sent % 15 == 0,
                sent < e <= sent + 15,
                e == n || e == sent + 15,
        ;
        assert(batch_ranges(e) == batch_ranges(sent).push((sent, e)));
        lemma_posts_continue_batches(n, e);
        assert(batch_ranges(sent) + posts_from(n, sent) =~= batch_ranges(sent).push((sent, e))
            + posts_from(n, e));
    }
}

/// When every reply accepts the message, the sender posts exactly the batches
/// of `batch_ranges`, in order.
pub proof fn lemma_accepted_sends_follow_batches(n: nat)
    ensures
        posts_from(n, 0) == batch_ranges(n),
{
    lemma_posts_continue_batches(n, 0);
    assert(batch_ranges(0) + posts_from(n, 0) =~= posts_from(n, 0));
}

/// Whether the value that `serde_json::from_str` reads from `text` is a JSON
/// object whose field "ok" is a boolean, and which one; `None` where the text
/// does not parse or the field is missing or not a boolean.
pub uninterp spec fn spec_json_ok_field(text: Seq<char>) -> Option<bool>;

/// `serde_json::from_str::<serde_json::Value>`, then `Value::get("ok")` and
/// `Value::as_bool`.
#[verifier::external_body]
fn json_ok_field(text: &str) -> (r: Option<bool>)
    ensures
        r == spec_json_ok_field(text@),
{
    serde_json::from_str::<serde_json::Value>(text).ok().and_then(
        |v| v.get("ok").and_then(|o| o.as_bool()),
    )
}

/// Whether Slack's reply `text` accepts the message: a JSON object whose field
/// "ok" is `true`. Anything else, an unreadable reply too, is a refusal.
pub fn reply_ok(text: &str) -> (r: bool)
    ensures
        r == (spec_json_ok_field(text@) == Some(true)),
{
    match json_ok_field(text) {
        Some(b) => b,
        None => false,
    }
}

} // verus!
