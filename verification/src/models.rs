//! The announcement record that every source produces.
use vstd::prelude::*;

verus! {

/// The map that a list of distinct-key entries stands for.
pub open spec fn entries_map(e: Seq<(Seq<char>, Seq<char>)>) -> Map<Seq<char>, Seq<char>>
    decreases e.len(),
{
    if e.len() == 0 {
        Map::empty()
    } else {
        entries_map(e.drop_last()).insert(e.last().0, e.last().1)
    }
}

/// The views of a list of string pairs.
pub open spec fn pair_views(e: Seq<(String, String)>) -> Seq<(Seq<char>, Seq<char>)> {
    e.map_values(|p: (String, String)| (p.0@, p.1@))
}

/// No key occurs twice.
pub open spec fn distinct_keys(e: Seq<(Seq<char>, Seq<char>)>) -> bool {
    forall|i: int, j: int| 0 <= i < j < e.len() ==> #[trigger] e[i].0 != #[trigger] e[j].0
}

/// Additional details of an announcement, from text keys to text values.
pub struct Extra {
    entries: Vec<(String, String)>,
}

impl View for Extra {
    type V = Map<Seq<char>, Seq<char>>;

    closed spec fn view(&self) -> Map<Seq<char>, Seq<char>> {
        entries_map(pair_views(self.entries@))
    }
}

proof fn lemma_entries_map_domain(e: Seq<(Seq<char>, Seq<char>)>, k: Seq<char>)
    ensures
        entries_map(e).contains_key(k) <==> exists|i: int| 0 <= i < e.len() && #[trigger] e[i].0
            == k,
    decreases e.len(),
{
    if e.len() > 0 {
        lemma_entries_map_domain(e.drop_last(), k);
        if entries_map(e.drop_last()).contains_key(k) {
            let i = choose|i: int| 0 <= i < e.drop_last().len() && #[trigger] e.drop_last()[i].0 == k;
            assert(e[i].0 == k);
        }
        if exists|i: int| 0 <= i < e.len() && #[trigger] e[i].0 == k {
            let i = choose|i: int| 0 <= i < e.len() && #[trigger] e[i].0 == k;
            if i < e.len() - 1 {
                assert(e.drop_last()[i].0 == k);
            }
        }
    }
}

proof fn lemma_entries_map_at(e: Seq<(Seq<char>, Seq<char>)>, i: int)
    requires
        distinct_keys(e),
        0 <= i < e.len(),
    ensures
        entries_map(e).contains_key(e[i].0),
        entries_map(e)[e[i].0] == e[i].1,
    decreases e.len(),
{
    if i < e.len() - 1 {
        lemma_entries_map_at(e.drop_last(), i);
    }
}

proof fn lemma_entries_map_update(e: Seq<(Seq<char>, Seq<char>)>, i: int, v: Seq<char>)
    requires
        distinct_keys(e),
        0 <= i < e.len(),
    ensures
        entries_map(e.update(i, (e[i].0, v))) == entries_map(e).insert(e[i].0, v),
        distinct_keys(e.update(i, (e[i].0, v))),
    decreases e.len(),
{
    let e2 = e.update(i, (e[i].0, v));
    if i == e.len() - 1 {
        assert(e2.drop_last() =~= e.drop_last());
        assert forall|k: Seq<char>| #[trigger] entries_map(e.drop_last()).contains_key(k) implies k
            != e[i].0 by {
            lemma_entries_map_domain(e.drop_last(), k);
        }
        assert(entries_map(e2) =~= entries_map(e).insert(e[i].0, v));
    } else {
        lemma_entries_map_update(e.drop_last(), i, v);
        assert(e2.drop_last() =~= e.drop_last().update(i, (e[i].0, v)));
        assert(entries_map(e2) =~= entries_map(e).insert(e[i].0, v));
    }
}

impl Extra {
    #[verifier::type_invariant]
    spec fn inv(&self) -> bool {
        distinct_keys(pair_views(self.entries@))
    }

    /// An empty map.
    pub fn new() -> (r: Extra)
        ensures
            r@ == Map::<Seq<char>, Seq<char>>::empty(),
    {
        let r = Extra { entries: Vec::new() };
        assert(r@ =~= Map::<Seq<char>, Seq<char>>::empty());
        r
    }

    /// The position of `key`, if it is there.
    fn position(&self, key: &String) -> (r: Option<usize>)
        ensures
            match r {
                Some(i) => i < self.entries@.len() && self.entries@[i as int].0@ == key@,
                None => forall|i: int|
                    0 <= i < self.entries@.len() ==> #[trigger] self.entries@[i].0@ != key@,
            },
    {
        let mut i: usize = 0;
        while i < self.entries.len()
            invariant
                i <= self.entries@.len(),
                forall|j: int| 0 <= j < i ==> #[trigger] self.entries@[j].0@ != key@,
            decreases self.entries@.len() - i,
        {
            if self.entries[i].0 == *key {
                return Some(i);
            }
            i = i + 1;
        }
        None
    }

    /// The value stored under `key`.
    pub fn get(&self, key: &str) -> (r: Option<String>)
        ensures
            match r {
                Some(v) => self@.contains_key(key@) && self@[key@] == v@,
                None => !self@.contains_key(key@),
            },
    {
        proof {
            use_type_invariant(self);
        }
        let k = key.to_owned();
        let ghost e = pair_views(self.entries@);
        match self.position(&k) {
            Some(i) => {
                proof {
                    lemma_entries_map_at(e, i as int);
                }
                Some(self.entries[i].1.clone())
            },
            None => {
                proof {
                    lemma_entries_map_domain(e, key@);
                    assert forall|i: int| 0 <= i < e.len() implies #[trigger] e[i].0 != key@ by {
                        assert(self.entries@[i].0@ != key@);
                    }
                }
                None
            },
        }
    }

    /// Stores `value` under `key`, in place of what was there.
    pub fn insert(&mut self, key: &str, value: String)
        ensures
            final(self)@ == old(self)@.insert(key@, value@),
    {
        proof {
            use_type_invariant(&*self);
        }
        let k = key.to_owned();
        let ghost e = pair_views(self.entries@);
        match self.position(&k) {
            Some(i) => {
                proof {
                    lemma_entries_map_update(e, i as int, value@);
                }
                let mut entries: Vec<(String, String)> = Vec::new();
                std::mem::swap(&mut entries, &mut self.entries);
                entries.set(i, (k, value));
                assert(pair_views(entries@) =~= e.update(i as int, (e[i as int].0, value@)));
                self.entries = entries;
            },
            None => {
                proof {
                    assert forall|j: int| 0 <= j < e.len() implies #[trigger] e[j].0 != key@ by {
                        assert(self.entries@[j].0@ != key@);
                    }
                }
                let mut entries: Vec<(String, String)> = Vec::new();
                std::mem::swap(&mut entries, &mut self.entries);
                entries.push((k, value));
                assert(pair_views(entries@) =~= e.push((key@, value@)));
                assert(pair_views(entries@).drop_last() =~= e);
                self.entries = entries;
            },
        }
    }

    /// The entries, each key once, in the order in which they were first stored.
    pub fn entries(&self) -> (r: Vec<(String, String)>)
        ensures
            entries_map(pair_views(r@)) == self@,
            distinct_keys(pair_views(r@)),
    {
        proof {
            use_type_invariant(self);
        }
        let mut r: Vec<(String, String)> = Vec::new();
        let mut i: usize = 0;
        while i < self.entries.len()
            invariant
                i <= self.entries@.len(),
                pair_views(r@) == pair_views(self.entries@).take(i as int),
            decreases self.entries@.len() - i,
        {
            let a = self.entries[i].0.clone();
            let b = self.entries[i].1.clone();
            let ghost before = r@;
            r.push((a, b));
            assert(r@ == before.push((a, b)));
            assert(pair_views(r@) =~= pair_views(before).push((a@, b@)));
            assert(pair_views(r@) =~= pair_views(self.entries@).take(i + 1));
            i = i + 1;
        }
        assert(pair_views(self.entries@).take(i as int) =~= pair_views(self.entries@));
        r
    }
}

/// What a detail map gives back under a key is what was last stored there.
pub proof fn lemma_stored_read_back(
    m: Map<Seq<char>, Seq<char>>,
    key: Seq<char>,
    value: Seq<char>,
    other: Seq<char>,
)
    ensures
        m.insert(key, value).contains_key(key),
        m.insert(key, value)[key] == value,
        other != key ==> (m.insert(key, value).contains_key(other) == m.contains_key(other)),
        other != key && m.contains_key(other) ==> m.insert(key, value)[other] == m[other],
{
}

/// The plain view of an optional string.
pub open spec fn opt_view(o: Option<String>) -> Option<Seq<char>> {
    match o {
        Some(s) => Some(s@),
        None => None,
    }
}

/// What an announcement holds, as plain values.
pub struct AnnouncementView {
    pub id: Seq<char>,
    pub title: Seq<char>,
    pub url: Seq<char>,
    pub source: Seq<char>,
    pub date: Option<Seq<char>>,
    pub agency: Option<Seq<char>>,
    pub deadline: Option<Seq<char>>,
    pub matched_keywords: Seq<Seq<char>>,
    pub extra: Map<Seq<char>, Seq<char>>,
}

/// An announcement of a call for proposals, as one source lists it.
pub struct Announcement {
    pub id: String,
    pub title: String,
    pub url: String,
    pub source: String,
    pub date: Option<String>,
    pub agency: Option<String>,
    pub deadline: Option<String>,
    pub matched_keywords: Vec<String>,
    pub extra: Extra,
}

impl View for Announcement {
    type V = AnnouncementView;

    open spec fn view(&self) -> AnnouncementView {
        AnnouncementView {
            id: self.id@,
            title: self.title@,
            url: self.url@,
            source: self.source@,
            date: opt_view(self.date),
            agency: opt_view(self.agency),
            deadline: opt_view(self.deadline),
            matched_keywords: self.matched_keywords@.map_values(|s: String| s@),
            extra: self.extra@,
        }
    }
}

/// A fresh announcement as a source reports it: no dates, agency, keywords or
/// details yet.
pub open spec fn fresh(
    id: Seq<char>,
    title: Seq<char>,
    url: Seq<char>,
    source: Seq<char>,
) -> AnnouncementView {
    AnnouncementView {
        id,
        title,
        url,
        source,
        date: None,
        agency: None,
        deadline: None,
        matched_keywords: Seq::empty(),
        extra: Map::empty(),
    }
}

/// The views of a sequence of announcements.
pub open spec fn views(v: Seq<Announcement>) -> Seq<AnnouncementView> {
    v.map_values(|a: Announcement| a@)
}

impl Announcement {
    /// An announcement with the given id, title, url and source, and nothing else.
    pub fn new(id: String, title: String, url: String, source: String) -> (r: Self)
        ensures
            r@ == fresh(id@, title@, url@, source@),
    {
        let r = Announcement {
            id,
            title,
            url,
            source,
            date: None,
            agency: None,
            deadline: None,
            matched_keywords: Vec::new(),
            extra: Extra::new(),
        };
        assert(r.matched_keywords@.map_values(|s: String| s@) =~= Seq::<Seq<char>>::empty());
        r
    }
}

} // verus!
