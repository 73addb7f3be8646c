use vstd::prelude::*;

verus! {

/// Abstract entry list of a metadata map: key and value as character sequences.
pub type EntrySeq = Seq<(Seq<char>, Seq<char>)>;

/// The abstract view of a list of string pairs.
pub open spec fn pairs_view(e: Seq<(String, String)>) -> EntrySeq {
    e.map_values(|p: (String, String)| (p.0@, p.1@))
}

/// No two entries share a key.
pub open spec fn keys_distinct(s: EntrySeq) -> bool {
    forall|i: int, j: int| 0 <= i < j < s.len() ==> s[i].0 != s[j].0
}

/// `i` is the position of the first entry with key `k`.
pub open spec fn first_at(s: EntrySeq, k: Seq<char>, i: int) -> bool {
    &&& 0 <= i < s.len()
    &&& s[i].0 == k
    &&& forall|j: int| 0 <= j < i ==> s[j].0 != k
}

pub open spec fn has_key(s: EntrySeq, k: Seq<char>) -> bool {
    exists|i: int| first_at(s, k, i)
}

/// Position of the first entry with key `k` (meaningful when `has_key`).
pub open spec fn key_pos(s: EntrySeq, k: Seq<char>) -> int {
    choose|i: int| first_at(s, k, i)
}

/// The value stored under `k`, if any.
pub open spec fn lookup(s: EntrySeq, k: Seq<char>) -> Option<Seq<char>> {
    if has_key(s, k) {
        Some(s[key_pos(s, k)].1)
    } else {
        None
    }
}

/// Map insertion: replace the value of an existing key in place, or append.
pub open spec fn insert_entry(s: EntrySeq, k: Seq<char>, v: Seq<char>) -> EntrySeq {
    if has_key(s, k) {
        s.update(key_pos(s, k), (k, v))
    } else {
        s.push((k, v))
    }
}

/// Map removal: drop the entry with key `k`, if any.
pub open spec fn remove_entry(s: EntrySeq, k: Seq<char>) -> EntrySeq {
    if has_key(s, k) {
        s.remove(key_pos(s, k))
    } else {
        s
    }
}

/// Inserting every pair of `p`, in order, into `s`.
pub open spec fn insert_all(s: EntrySeq, p: EntrySeq) -> EntrySeq
    decreases p.len(),
{
    if p.len() == 0 {
        s
    } else {
        insert_entry(insert_all(s, p.drop_last()), p.last().0, p.last().1)
    }
}

proof fn lemma_first_at_unique(s: EntrySeq, k: Seq<char>, i: int)
    requires
        first_at(s, k, i),
    ensures
        has_key(s, k),
        key_pos(s, k) == i,
{
    let j = key_pos(s, k);
    assert(first_at(s, k, j));
    if j < i {
        assert(s[j].0 != k);
    } else if i < j {
        assert(s[i].0 != k);
    }
}

proof fn lemma_absent(s: EntrySeq, k: Seq<char>)
    requires
        forall|j: int| 0 <= j < s.len() ==> s[j].0 != k,
    ensures
        !has_key(s, k),
{
    if has_key(s, k) {
        let j = key_pos(s, k);
        assert(first_at(s, k, j));
    }
}

/// Inserting keeps keys distinct.
pub proof fn lemma_insert_distinct(s: EntrySeq, k: Seq<char>, v: Seq<char>)
    requires
        keys_distinct(s),
    ensures
        keys_distinct(insert_entry(s, k, v)),
        lookup(insert_entry(s, k, v), k) == Some(v),
        forall|k2: Seq<char>| k2 != k ==> lookup(#[trigger] insert_entry(s, k, v), k2) == lookup(s, k2),
{
    let r = insert_entry(s, k, v);
    if has_key(s, k) {
        let p = key_pos(s, k);
        assert(first_at(s, k, p));
        assert(first_at(r, k, p));
        lemma_first_at_unique(r, k, p);
    } else {
        assert forall|j: int| 0 <= j < s.len() implies s[j].0 != k by {
            if s[j].0 == k {
                lemma_exists_first(s, k, j);
            }
        }
        assert(first_at(r, k, s.len() as int));
        lemma_first_at_unique(r, k, s.len() as int);
    }
    assert forall|k2: Seq<char>| k2 != k implies lookup(#[trigger] insert_entry(s, k, v), k2) == lookup(s, k2) by {
        if has_key(s, k2) {
            let q = key_pos(s, k2);
            assert(first_at(s, k2, q));
            assert(first_at(r, k2, q));
            lemma_first_at_unique(r, k2, q);
        } else {
            if has_key(r, k2) {
                let q = key_pos(r, k2);
                assert(first_at(r, k2, q));
                if q < s.len() {
                    assert(first_at(s, k2, q));
                }
            }
        }
    }
}

/// Removing keeps keys distinct and leaves no entry for the key.
pub proof fn lemma_remove_distinct(s: EntrySeq, k: Seq<char>)
    requires
        keys_distinct(s),
    ensures
        keys_distinct(remove_entry(s, k)),
        lookup(remove_entry(s, k), k) is None,
{
    let r = remove_entry(s, k);
    if has_key(s, k) {
        let p = key_pos(s, k);
        assert(first_at(s, k, p));
        assert forall|i: int, j: int| 0 <= i < j < r.len() implies r[i].0 != r[j].0 by {
            let a = if i < p { i } else { i + 1 };
            let b = if j < p { j } else { j + 1 };
            assert(r[i] == s[a] && r[j] == s[b]);
        }
        assert forall|j: int| 0 <= j < r.len() implies r[j].0 != k by {
            let a = if j < p { j } else { j + 1 };
            assert(r[j] == s[a]);
        }
        lemma_absent(r, k);
    } else {
        assert forall|j: int| 0 <= j < s.len() implies s[j].0 != k by {
            if s[j].0 == k {
                lemma_exists_first(s, k, j);
            }
        }
        lemma_absent(s, k);
    }
}

/// Inserting pairs one by one yields distinct keys.
pub proof fn lemma_insert_all_distinct(s: EntrySeq, p: EntrySeq)
    requires
        keys_distinct(s),
    ensures
        keys_distinct(insert_all(s, p)),
    decreases p.len(),
{
    if p.len() > 0 {
        lemma_insert_all_distinct(s, p.drop_last());
        lemma_insert_distinct(insert_all(s, p.drop_last()), p.last().0, p.last().1);
    }
}

/// If some entry has key `k`, a first one does.
pub proof fn lemma_exists_first(s: EntrySeq, k: Seq<char>, j: int)
    requires
        0 <= j < s.len(),
        s[j].0 == k,
    ensures
        has_key(s, k),
    decreases j,
{
    if forall|i: int| 0 <= i < j ==> s[i].0 != k {
        assert(first_at(s, k, j));
    } else {
        let i = choose|i: int| 0 <= i < j && s[i].0 != k == false;
        lemma_exists_first(s, k, i);
    }
}

/// A string map with distinct keys, kept in insertion order.
#[derive(Debug)]
pub struct Metadata {
    entries: Vec<(String, String)>,
}

impl View for Metadata {
    type V = EntrySeq;

    closed spec fn view(&self) -> EntrySeq {
        pairs_view(self.entries@)
    }
}

impl Metadata {
    /// Keys are distinct.
    pub open spec fn wf(&self) -> bool {
        keys_distinct(self@)
    }

    pub fn new() -> (r: Metadata)
        ensures
            r@ == Seq::<(Seq<char>, Seq<char>)>::empty(),
            r.wf(),
    {
        Metadata { entries: Vec::new() }
    }

    /// Number of entries.
    pub fn len(&self) -> (r: usize)
        ensures
            r == self@.len(),
    {
        self.entries.len()
    }

    /// A copy with the same entries.
    pub fn duplicate(&self) -> (r: Metadata)
        ensures
            r@ == self@,
    {
        let mut entries: Vec<(String, String)> = Vec::new();
        let mut i: usize = 0;
        while i < self.entries.len()
            invariant
                i <= self.entries@.len(),
                pairs_view(entries@) == pairs_view(self.entries@).subrange(0, i as int),
            decreases self.entries@.len() - i,
        {
            let e = &self.entries[i];
            let k = e.0.clone();
            let v = e.1.clone();
            let ghost before = entries@;
            entries.push((k, v));
            assert(entries@ == before.push((k, v)));
            assert(pairs_view(entries@) =~= pairs_view(before).push((k@, v@)));
            assert(pairs_view(entries@) =~= pairs_view(self.entries@).subrange(0, i + 1));
            i = i + 1;
        }
        assert(pairs_view(self.entries@).subrange(0, i as int) =~= pairs_view(self.entries@));
        Metadata { entries }
    }

    /// The entries, in order.
    pub fn as_pairs(&self) -> (r: &Vec<(String, String)>)
        ensures
            pairs_view(r@) == self@,
    {
        &self.entries
    }

    /// Entry `i`, as a key and a value.
    pub fn entry(&self, i: usize) -> (r: (&String, &String))
        requires
            i < self@.len(),
        ensures
            r.0@ == self@[i as int].0,
            r.1@ == self@[i as int].1,
    {
        let e = &self.entries[i];
        (&e.0, &e.1)
    }

    fn find(&self, k: &String) -> (r: Option<usize>)
        ensures
            match r {
                Some(i) => first_at(self@, k@, i as int),
                None => !has_key(self@, k@),
            },
    {
        let mut i: usize = 0;
        while i < self.entries.len()
            invariant
                i <= self.entries@.len(),
                self@ == pairs_view(self.entries@),
                forall|j: int| 0 <= j < i ==> self@[j].0 != k@,
            decreases self.entries@.len() - i,
        {
            let e = &self.entries[i];
            if e.0 == *k {
                return Some(i);
            }
            i = i + 1;
        }
        proof {
            lemma_absent(self@, k@);
        }
        None
    }

    /// The value stored under `k`.
    pub fn get(&self, k: &String) -> (r: Option<&String>)
        ensures
            match r {
                Some(v) => lookup(self@, k@) == Some(v@),
                None => lookup(self@, k@) is None,
            },
    {
        match self.find(k) {
            Some(i) => {
                proof {
                    lemma_first_at_unique(self@, k@, i as int);
                }
                Some(&self.entries[i].1)
            },
            None => None,
        }
    }

    /// Sets the value of `k`, replacing an earlier value in place.
    pub fn insert(&mut self, k: String, v: String)
        requires
            old(self).wf(),
        ensures
            final(self).wf(),
            final(self)@ == insert_entry(old(self)@, k@, v@),
    {
        proof {
            lemma_insert_distinct(self@, k@, v@);
        }
        match self.find(&k) {
            Some(i) => {
                proof {
                    lemma_first_at_unique(self@, k@, i as int);
                }
                self.entries.set(i, (k, v));
                assert(self@ =~= insert_entry(old(self)@, k@, v@));
            },
            None => {
                self.entries.push((k, v));
                assert(self@ =~= insert_entry(old(self)@, k@, v@));
            },
        }
    }

    /// Takes out the entry of `k` and returns its value.
    pub fn remove(&mut self, k: &String) -> (r: Option<String>)
        requires
            old(self).wf(),
        ensures
            final(self).wf(),
            final(self)@ == remove_entry(old(self)@, k@),
            match r {
                Some(v) => lookup(old(self)@, k@) == Some(v@),
                None => lookup(old(self)@, k@) is None,
            },
            lookup(final(self)@, k@) is None,
    {
        match self.find(k) {
            Some(i) => {
                proof {
                    lemma_first_at_unique(self@, k@, i as int);
                }
                let e = self.entries.remove(i);
                assert(self@ =~= remove_entry(old(self)@, k@));
                proof {
                    lemma_absent(self@, k@);
                }
                Some(e.1)
            },
            None => {
                None
            },
        }
    }

    /// Builds a map by inserting each pair in order.
    pub fn from_pairs(p: Vec<(String, String)>) -> (r: Metadata)
        ensures
            r.wf(),
            r@ == insert_all(Seq::empty(), pairs_view(p@)),
    {
        let mut m = Metadata::new();
        let mut i: usize = 0;
        let ghost pv = pairs_view(p@);
        while i < p.len()
            invariant
                i <= p@.len(),
                pv == pairs_view(p@),
                m.wf(),
                m@ == insert_all(Seq::empty(), pv.subrange(0, i as int)),
            decreases p@.len() - i,
        {
            let e = &p[i];
            m.insert(e.0.clone(), e.1.clone());
            assert(pv.subrange(0, i + 1).drop_last() =~= pv.subrange(0, i as int));
            i = i + 1;
        }
        assert(pv.subrange(0, p@.len() as int) =~= pv);
        m
    }
}

impl Clone for Metadata {
    fn clone(&self) -> (r: Metadata)
        ensures
            r@ == self@,
    {
        self.duplicate()
    }
}

/// The abstract contents of an optional map.
pub open spec fn opt_view(m: Option<Metadata>) -> Option<EntrySeq> {
    match m {
        Some(x) => Some(x@),
        None => None,
    }
}

} // verus!
