//! The ids of the announcements already reported.
use crate::models::{opt_view, views, Announcement, AnnouncementView};
use crate::text::{lemma_string_views_push, string_views};
use vstd::prelude::*;

verus! {

broadcast use vstd::seq_lib::group_seq_properties;

/// A set of announcement ids, each held once.
pub struct SeenIds {
    ids: Vec<String>,
}

impl View for SeenIds {
    type V = Set<Seq<char>>;

    closed spec fn view(&self) -> Set<Seq<char>> {
        string_views(self.ids@).to_set()
    }
}

/// The set of strings that `serde_json::from_str` reads from `text` as a
/// `HashSet<String>` (a JSON array of strings), or `None` where it reports an
/// error.
pub uninterp spec fn spec_json_string_set(text: Seq<char>) -> Option<Set<Seq<char>>>;

/// The text that `serde_json::to_string_pretty` writes for a list of strings,
/// or `None` where it reports an error.
pub uninterp spec fn spec_json_pretty_strings(strings: Seq<Seq<char>>) -> Option<Seq<char>>;

/// `serde_json::from_str::<HashSet<String>>`, with the set handed back as a
/// list; the list holds exactly the strings of the set named by
/// `spec_json_string_set`, in an order that the hash set chose.
#[verifier::external_body]
fn parse_json_string_set(text: &str) -> (r: Option<Vec<String>>)
    ensures
        match spec_json_string_set(text@) {
            Some(s) => r matches Some(v) && string_views(v@).to_set() == s,
            None => r is None,
        },
{
    serde_json::from_str::<std::collections::HashSet<String>>(text).ok().map(
        |s| s.into_iter().collect(),
    )
}

/// `serde_json::to_string_pretty` of a list of strings; `None` where it
/// reports an error.
#[verifier::external_body]
fn json_pretty_strings(strings: &Vec<String>) -> (r: Option<String>)
    ensures
        opt_view(r) == spec_json_pretty_strings(string_views(strings@)),
{
    serde_json::to_string_pretty(strings).ok()
}

/// The announcements whose id is not in `seen`, in their order.
pub open spec fn unseen(anns: Seq<AnnouncementView>, seen: Set<Seq<char>>) -> Seq<AnnouncementView> {
    anns.filter(|a: AnnouncementView| !seen.contains(a.id))
}

/// The ids of the announcements.
pub open spec fn ids_of(anns: Seq<AnnouncementView>) -> Set<Seq<char>> {
    anns.map_values(|a: AnnouncementView| a.id).to_set()
}

/// The views of a sequence of references to announcements.
pub open spec fn ref_views(v: Seq<&Announcement>) -> Seq<AnnouncementView> {
    v.map_values(|a: &Announcement| a@)
}

impl SeenIds {
    #[verifier::type_invariant]
    spec fn inv(&self) -> bool {
        string_views(self.ids@).no_duplicates()
    }

    /// The empty set.
    pub fn new() -> (r: SeenIds)
        ensures
            r@ == Set::<Seq<char>>::empty(),
    {
        let r = SeenIds { ids: Vec::new() };
        assert(string_views(r.ids@) =~= Seq::<Seq<char>>::empty());
        assert(r@ =~= Set::<Seq<char>>::empty());
        r
    }

    /// Whether `id` is in the set.
    pub fn contains(&self, id: &String) -> (r: bool)
        ensures
            r == self@.contains(id@),
    {
        let ghost v = string_views(self.ids@);
        let mut i: usize = 0;
        while i < self.ids.len()
            invariant
                i <= self.ids@.len(),
                v == string_views(self.ids@),
                forall|j: int| 0 <= j < i ==> #[trigger] v[j] != id@,
            decreases self.ids@.len() - i,
        {
            if self.ids[i] == *id {
                assert(v[i as int] == id@);
                return true;
            }
            i = i + 1;
        }
        false
    }

    /// Adds `id` to the set.
    pub fn insert(&mut self, id: String)
        ensures
            final(self)@ == old(self)@.insert(id@),
    {
        proof {
            use_type_invariant(&*self);
        }
        if self.contains(&id) {
            assert(self@.insert(id@) =~= self@);
            return;
        }
        let ghost before = string_views(self.ids@);
        proof {
            lemma_string_views_push(self.ids@, id);
            assert(!before.contains(id@));
        }
        let mut ids: Vec<String> = Vec::new();
        std::mem::swap(&mut ids, &mut self.ids);
        ids.push(id);
        assert(string_views(ids@) == before.push(id@));
        assert(string_views(ids@).to_set() =~= before.to_set().insert(id@));
        self.ids = ids;
    }

    /// The set of the given ids.
    pub fn from_ids(ids: Vec<String>) -> (r: SeenIds)
        ensures
            r@ == string_views(ids@).to_set(),
    {
        let mut r = SeenIds::new();
        let ghost all = string_views(ids@);
        for id in it: ids.into_iter()
            invariant
                it.seq() == ids@,
                all == string_views(ids@),
                r@ == all.take(it.index() as int).to_set(),
        {
            let ghost k = it.index() as int;
            assert(all.take(k + 1) =~= all.take(k).push(all[k]));
            assert(all[k] == id@);
            r.insert(id);
            assert(all.take(k).push(all[k]).to_set() =~= all.take(k).to_set().insert(all[k]));
        }
        assert(all.take(ids@.len() as int) =~= all);
        r
    }

    /// The set that a saved JSON text holds: the strings of its array, or
    /// the empty set where the text is not a JSON array of strings.
    pub fn from_json(text: &str) -> (r: SeenIds)
        ensures
            r@ == match spec_json_string_set(text@) {
                Some(s) => s,
                None => Set::<Seq<char>>::empty(),
            },
    {
        match parse_json_string_set(text) {
            Some(ids) => SeenIds::from_ids(ids),
            None => SeenIds::new(),
        }
    }

    /// The set written as a pretty-printed JSON array of its ids, each once,
    /// in the order in which they are held; `None` where `serde_json` reports
    /// an error.
    pub fn to_json(&self) -> (r: Option<String>)
        ensures
            exists|v: Seq<Seq<char>>|
                v.to_set() == self@ && v.no_duplicates() && opt_view(r)
                    == #[trigger] spec_json_pretty_strings(v),
    {
        let ids = self.to_vec();
        let r = json_pretty_strings(&ids);
        assert(opt_view(r) == spec_json_pretty_strings(string_views(ids@)));
        r
    }

    /// The ids in the set, each once.
    pub fn to_vec(&self) -> (r: Vec<String>)
        ensures
            string_views(r@).to_set() == self@,
            string_views(r@).no_duplicates(),
    {
        proof {
            use_type_invariant(self);
        }
        let r = self.ids.clone();
        assert(r@ =~= self.ids@) by {
            assert forall|i: int| 0 <= i < r@.len() implies r@[i] == self.ids@[i] by {}
        }
        r
    }

    /// Adds the id of every announcement.
    pub fn record(&mut self, anns: &[Announcement])
        ensures
            final(self)@ == old(self)@.union(ids_of(anns@.map_values(|a: Announcement| a@))),
    {
        let ghost all = anns@.map_values(|a: Announcement| a@);
        let mut i: usize = 0;
        while i < anns.len()
            invariant
                i <= anns@.len(),
                all == anns@.map_values(|a: Announcement| a@),
                self@ == old(self)@.union(ids_of(all.take(i as int))),
            decreases anns@.len() - i,
        {
            let id = anns[i].id.clone();
            self.insert(id);
            assert(ids_of(all.take(i + 1)) =~= ids_of(all.take(i as int)).insert(all[i as int].id))
                by {
                assert(all.take(i + 1).map_values(|a: AnnouncementView| a.id) =~= all.take(
                    i as int,
                ).map_values(|a: AnnouncementView| a.id).push(all[i as int].id));
            }
            assert(self@ =~= old(self)@.union(ids_of(all.take(i + 1))));
            i = i + 1;
        }
        assert(all.take(anns@.len() as int) =~= all);
    }
}

/// The announcements whose id has not been seen, in their order.
pub fn filter_new<'a>(announcements: &'a [Announcement], seen: &SeenIds) -> (r: Vec<
    &'a Announcement,
>)
    ensures
        ref_views(r@) == unseen(announcements@.map_values(|a: Announcement| a@), seen@),
{
    let ghost all = announcements@.map_values(|a: Announcement| a@);
    let ghost pred = |a: AnnouncementView| !seen@.contains(a.id);
    let mut r: Vec<&'a Announcement> = Vec::new();
    let mut i: usize = 0;
    while i < announcements.len()
        invariant
            i <= announcements@.len(),
            all == announcements@.map_values(|a: Announcement| a@),
            pred == (|a: AnnouncementView| !seen@.contains(a.id)),
            ref_views(r@) == all.take(i as int).filter(pred),
        decreases announcements@.len() - i,
    {
        assert(all.take(i + 1) =~= all.take(i as int).push(all[i as int]));
        proof {
            all.take(i as int).lemma_filter_push(all[i as int], pred);
        }
        if !seen.contains(&announcements[i].id) {
            let ghost before = r@;
            r.push(&announcements[i]);
            assert(ref_views(r@) =~= ref_views(before).push(all[i as int]));
        }
        i = i + 1;
    }
    assert(all.take(announcements@.len() as int) =~= all);
    r
}

/// Keeps the announcements whose id has not been seen, in their order.
pub fn retain_unseen(announcements: Vec<Announcement>, seen: &SeenIds) -> (r: Vec<Announcement>)
    ensures
        views(r@) == unseen(views(announcements@), seen@),
{
    let ghost all = views(announcements@);
    let ghost pred = |a: AnnouncementView| !seen@.contains(a.id);
    let mut r: Vec<Announcement> = Vec::new();
    for ann in it: announcements.into_iter()
        invariant
            it.seq() == announcements@,
            all == views(announcements@),
            pred == (|a: AnnouncementView| !seen@.contains(a.id)),
            views(r@) == all.take(it.index() as int).filter(pred),
    {
        let ghost k = it.index() as int;
        assert(all.take(k + 1) =~= all.take(k).push(all[k]));
        assert(all[k] == ann@);
        proof {
            all.take(k).lemma_filter_push(all[k], pred);
        }
        if !seen.contains(&ann.id) {
            let ghost before = r@;
            r.push(ann);
            assert(views(r@) =~= views(before).push(all[k]));
        }
    }
    assert(all.take(announcements@.len() as int) =~= all);
    r
}

/// Once the ids of a batch of announcements are recorded, none of them is new
/// any more.
pub proof fn lemma_recorded_not_new(anns: Seq<AnnouncementView>, seen: Set<Seq<char>>)
    ensures
        unseen(anns, seen.union(ids_of(anns))).len() == 0,
    decreases anns.len(),
{
    let s2 = seen.union(ids_of(anns));
    let pred = |a: AnnouncementView| !s2.contains(a.id);
    assert forall|i: int| 0 <= i < anns.len() implies !pred(anns[i]) by {
        assert(anns.map_values(|a: AnnouncementView| a.id)[i] == anns[i].id);
    }
    anns.lemma_filter_len(pred);
    assert(anns.filter(pred).len() == 0) by {
        if anns.filter(pred).len() > 0 {
            let x = anns.filter(pred)[0];
            anns.lemma_filter_pred(pred, 0);
            assert(anns.filter(pred).contains(x));
            anns.lemma_filter_contains_rev(pred, x);
            let i = choose|i: int| 0 <= i < anns.len() && anns[i] == x;
            assert(!pred(anns[i]));
        }
    }
}

} // verus!
