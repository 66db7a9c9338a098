//! A table of one-shot reply slots keyed by a correlation id.
//!
//! Each entry is placed once and taken out once: by the matching reply, by
//! the cleanup after a timeout, or by eviction when the connection dies.

use vstd::prelude::*;

verus! {

/// The map that a sequence of (key, slot) entries denotes; later entries win.
pub open spec fn entries_map<S>(s: Seq<(Seq<char>, S)>) -> Map<Seq<char>, S>
    decreases s.len(),
{
    if s.len() == 0 {
        Map::empty()
    } else {
        entries_map(s.drop_last()).insert(s.last().0, s.last().1)
    }
}

/// No key occurs twice among the entries.
pub open spec fn keys_unique<S>(s: Seq<(Seq<char>, S)>) -> bool {
    forall|i: int, j: int| 0 <= i < j < s.len() ==> s[i].0 != s[j].0
}

proof fn lemma_contains<S>(s: Seq<(Seq<char>, S)>, k: Seq<char>)
    ensures
        entries_map(s).contains_key(k) <==> exists|i: int| 0 <= i < s.len() && s[i].0 == k,
    decreases s.len(),
{
    if s.len() > 0 {
        lemma_contains(s.drop_last(), k);
        if entries_map(s).contains_key(k) && k != s.last().0 {
            let i = choose|i: int| 0 <= i < s.drop_last().len() && s.drop_last()[i].0 == k;
            assert(s[i].0 == k);
        }
        if exists|i: int| 0 <= i < s.len() && s[i].0 == k {
            let i = choose|i: int| 0 <= i < s.len() && s[i].0 == k;
            if i < s.len() - 1 {
                assert(s.drop_last()[i].0 == k);
            }
        }
    }
}

proof fn lemma_value<S>(s: Seq<(Seq<char>, S)>, i: int)
    requires
        keys_unique(s),
        0 <= i < s.len(),
    ensures
        entries_map(s).contains_key(s[i].0),
        entries_map(s)[s[i].0] == s[i].1,
    decreases s.len(),
{
    if i < s.len() - 1 {
        assert(s.drop_last()[i] == s[i]);
        lemma_value(s.drop_last(), i);
    }
}

proof fn lemma_remove<S>(s: Seq<(Seq<char>, S)>, i: int)
    requires
        keys_unique(s),
        0 <= i < s.len(),
    ensures
        keys_unique(s.remove(i)),
        entries_map(s.remove(i)) == entries_map(s).remove(s[i].0),
    decreases s.len(),
{
    let r = s.remove(i);
    assert forall|a: int, b: int| 0 <= a < b < r.len() implies r[a].0 != r[b].0 by {
        let a0 = if a < i { a } else { a + 1 };
        let b0 = if b < i { b } else { b + 1 };
        assert(r[a] == s[a0] && r[b] == s[b0]);
    }
    if i == s.len() - 1 {
        assert(r =~= s.drop_last());
        lemma_contains(s.drop_last(), s[i].0);
        assert(entries_map(r) =~= entries_map(s).remove(s[i].0));
    } else {
        let d = s.drop_last();
        assert(keys_unique(d));
        lemma_remove(d, i);
        assert(r.drop_last() =~= d.remove(i));
        assert(r.last() == s.last());
        assert(entries_map(r) =~= entries_map(s).remove(s[i].0));
    }
}

proof fn lemma_len<S>(s: Seq<(Seq<char>, S)>)
    requires
        keys_unique(s),
    ensures
        entries_map(s).dom().finite(),
        entries_map(s).dom().len() == s.len(),
    decreases s.len(),
{
    if s.len() > 0 {
        let d = s.drop_last();
        assert(keys_unique(d));
        lemma_len(d);
        lemma_contains(d, s.last().0);
        assert(!entries_map(d).contains_key(s.last().0)) by {
            if entries_map(d).contains_key(s.last().0) {
                let j = choose|j: int| 0 <= j < d.len() && d[j].0 == s.last().0;
                assert(s[j].0 == s[s.len() - 1].0);
            }
        }
    }
}

/// A table of one-shot slots keyed by correlation id.
pub struct SlotTable<S> {
    entries: Vec<(String, S)>,
}

impl<S> SlotTable<S> {
    /// The entries, with their keys as character sequences.
    pub closed spec fn entries(&self) -> Seq<(Seq<char>, S)> {
        self.entries@.map_values(|e: (String, S)| (e.0@, e.1))
    }

    /// Keys are unique in the table.
    pub closed spec fn wf(&self) -> bool {
        keys_unique(self.entries())
    }

    /// The table as a map from id to slot.
    pub closed spec fn view(&self) -> Map<Seq<char>, S> {
        entries_map(self.entries())
    }

    /// An empty table.
    pub fn new() -> (r: Self)
        ensures
            r.wf(),
            r@ == Map::<Seq<char>, S>::empty(),
    {
        let r = SlotTable { entries: Vec::new() };
        assert(r.entries() =~= Seq::empty());
        r
    }

    /// Number of slots in the table.
    pub fn len(&self) -> (n: usize)
        requires
            self.wf(),
        ensures
            self@.dom().finite(),
            n == self@.len(),
    {
        proof {
            lemma_len(self.entries());
        }
        self.entries.len()
    }

    fn find(&self, id: &String) -> (r: Option<usize>)
        requires
            self.wf(),
        ensures
            r is None ==> !self@.contains_key(id@),
            r matches Some(i) ==> i < self.entries@.len() && self.entries()[i as int].0 == id@,
    {
        let mut i: usize = 0;
        while i < self.entries.len()
            invariant
                i <= self.entries@.len(),
                forall|j: int| 0 <= j < i ==> self.entries()[j].0 != id@,
            decreases self.entries@.len() - i,
        {
            if self.entries[i].0 == *id {
                return Some(i);
            }
            i = i + 1;
        }
        proof {
            lemma_contains(self.entries(), id@);
        }
        None
    }

    /// Whether a slot is registered under `id`.
    pub fn contains(&self, id: &String) -> (r: bool)
        requires
            self.wf(),
        ensures
            r == self@.contains_key(id@),
    {
        proof {
            lemma_contains(self.entries(), id@);
        }
        self.find(id).is_some()
    }

    /// Registers `slot` under `id`, replacing (and handing back) a slot that
    /// was registered under the same id.
    pub fn insert(&mut self, id: String, slot: S) -> (prev: Option<S>)
        requires
            old(self).wf(),
        ensures
            final(self).wf(),
            final(self)@ == old(self)@.insert(id@, slot),
            prev == (if old(self)@.contains_key(id@) {
                Some(old(self)@[id@])
            } else {
                None
            }),
    {
        let prev = self.take(&id);
        let ghost before = self.entries();
        self.entries.push((id, slot));
        proof {
            assert(self.entries().drop_last() =~= before);
            assert forall|a: int, b: int| 0 <= a < b < self.entries().len() implies
                self.entries()[a].0 != self.entries()[b].0 by {
                if b == self.entries().len() - 1 {
                    lemma_contains(before, id@);
                    assert(before[a] == self.entries()[a]);
                } else {
                    assert(before[a] == self.entries()[a] && before[b] == self.entries()[b]);
                }
            }
            assert(self@ =~= old(self)@.insert(id@, slot));
        }
        prev
    }

    /// Takes the slot registered under `id` out of the table, if there is one.
    pub fn take(&mut self, id: &String) -> (r: Option<S>)
        requires
            old(self).wf(),
        ensures
            final(self).wf(),
            final(self)@ == old(self)@.remove(id@),
            r == (if old(self)@.contains_key(id@) {
                Some(old(self)@[id@])
            } else {
                None
            }),
    {
        match self.find(id) {
            None => {
                proof {
                    assert(self@ =~= old(self)@.remove(id@));
                }
                None
            },
            Some(i) => {
                proof {
                    lemma_value(self.entries(), i as int);
                    lemma_remove(self.entries(), i as int);
                }
                let (_, slot) = self.entries.remove(i);
                proof {
                    assert(self.entries() =~= old(self).entries().remove(i as int));
                }
                Some(slot)
            },
        }
    }

    /// Drops every slot and returns how many there were.
    pub fn clear(&mut self) -> (n: usize)
        requires
            old(self).wf(),
        ensures
            final(self).wf(),
            final(self)@ == Map::<Seq<char>, S>::empty(),
            old(self)@.dom().finite(),
            n == old(self)@.len(),
    {
        let n = self.len();
        self.entries = Vec::new();
        proof {
            assert(self.entries() =~= Seq::empty());
        }
        n
    }
}

} // verus!
