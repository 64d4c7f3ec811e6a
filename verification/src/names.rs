use vstd::prelude::*;
use crate::strings::{lemma_lex_lt_total, lemma_lex_lt_transitive, lex_lt, str_less};

verus! {

/// A map from names to values, kept as a list of entries with distinct names.
#[derive(Debug)]
pub struct NameMap<V> {
    entries: Vec<(String, V)>,
}

/// The names of the entries of a list are distinct.
pub open spec fn distinct_names<V>(entries: Seq<(String, V)>) -> bool {
    forall|i: int, j: int|
        0 <= i < entries.len() && 0 <= j < entries.len() && i != j ==> entries[i].0@
            != entries[j].0@
}

/// The map that a list of entries with distinct names denotes.
pub open spec fn entries_map<V>(entries: Seq<(String, V)>) -> Map<Seq<char>, V>
    decreases entries.len(),
{
    if entries.len() == 0 {
        Map::empty()
    } else {
        entries_map(entries.drop_last()).insert(entries.last().0@, entries.last().1)
    }
}

proof fn lemma_entries_map_lookup<V>(entries: Seq<(String, V)>, i: int)
    requires
        distinct_names(entries),
        0 <= i < entries.len(),
    ensures
        entries_map(entries).contains_key(entries[i].0@),
        entries_map(entries)[entries[i].0@] == entries[i].1,
    decreases entries.len(),
{
    if i < entries.len() - 1 {
        lemma_entries_map_lookup(entries.drop_last(), i);
    }
}

proof fn lemma_entries_map_absent<V>(entries: Seq<(String, V)>, k: Seq<char>)
    requires
        forall|i: int| 0 <= i < entries.len() ==> entries[i].0@ != k,
    ensures
        !entries_map(entries).contains_key(k),
    decreases entries.len(),
{
    if entries.len() > 0 {
        lemma_entries_map_absent(entries.drop_last(), k);
    }
}

proof fn lemma_entries_map_len<V>(entries: Seq<(String, V)>)
    requires
        distinct_names(entries),
    ensures
        entries_map(entries).dom().finite(),
        entries_map(entries).len() == entries.len(),
    decreases entries.len(),
{
    if entries.len() > 0 {
        let prev = entries.drop_last();
        lemma_entries_map_len(prev);
        lemma_entries_map_absent(prev, entries.last().0@);
    }
}

proof fn lemma_entries_map_update<V>(entries: Seq<(String, V)>, i: int, e: (String, V))
    requires
        distinct_names(entries),
        0 <= i < entries.len(),
        e.0@ == entries[i].0@,
    ensures
        distinct_names(entries.update(i, e)),
        entries_map(entries.update(i, e)) == entries_map(entries).insert(e.0@, e.1),
    decreases entries.len(),
{
    let upd = entries.update(i, e);
    if i == entries.len() - 1 {
        assert(upd.drop_last() =~= entries.drop_last());
        lemma_entries_map_absent(entries.drop_last(), e.0@);
        assert(entries_map(upd) =~= entries_map(entries).insert(e.0@, e.1));
    } else {
        lemma_entries_map_update(entries.drop_last(), i, e);
        assert(upd.drop_last() =~= entries.drop_last().update(i, e));
        assert(entries_map(upd) =~= entries_map(entries).insert(e.0@, e.1));
    }
}

/// The names of the first `e` entries.
pub open spec fn names_in<V>(entries: Seq<(String, V)>, e: int) -> Set<Seq<char>> {
    Set::new(|k: Seq<char>| exists|x: int| 0 <= x < e && #[trigger] entries[x].0@ == k)
}

/// The strings a list holds.
pub open spec fn strings_of(v: Seq<String>) -> Set<Seq<char>> {
    Set::new(|k: Seq<char>| exists|i: int| 0 <= i < v.len() && #[trigger] v[i]@ == k)
}

proof fn lemma_entries_map_same_names<V>(a: Seq<(String, V)>, b: Seq<(String, V)>)
    requires
        a.len() == b.len(),
        forall|i: int| 0 <= i < a.len() ==> a[i].0@ == b[i].0@,
    ensures
        entries_map(a).dom() == entries_map(b).dom(),
    decreases a.len(),
{
    if a.len() > 0 {
        lemma_entries_map_same_names(a.drop_last(), b.drop_last());
    }
    assert(entries_map(a).dom() =~= entries_map(b).dom());
}

impl<V> View for NameMap<V> {
    type V = Map<Seq<char>, V>;

    closed spec fn view(&self) -> Map<Seq<char>, V> {
        entries_map(self.entries@)
    }
}

impl<V> NameMap<V> {
    #[verifier::type_invariant]
    closed spec fn wf(&self) -> bool {
        distinct_names(self.entries@)
    }

    /// An empty map.
    pub fn new() -> (r: Self)
        ensures
            r@ == Map::<Seq<char>, V>::empty(),
    {
        NameMap { entries: Vec::new() }
    }

    /// The number of names in the map.
    pub fn len(&self) -> (r: usize)
        ensures
            self@.dom().finite(),
            r == self@.len(),
    {
        proof {
            use_type_invariant(self);
            lemma_entries_map_len(self.entries@);
        }
        self.entries.len()
    }

    /// The position of a name among the entries.
    fn position(&self, name: &str) -> (r: Option<usize>)
        ensures
            match r {
                Some(i) => i < self.entries@.len() && self.entries@[i as int].0@ == name@,
                None => forall|i: int|
                    0 <= i < self.entries@.len() ==> self.entries@[i].0@ != name@,
            },
    {
        let mut i: usize = 0;
        while i < self.entries.len()
            invariant
                i <= self.entries@.len(),
                forall|j: int| 0 <= j < i ==> self.entries@[j].0@ != name@,
            decreases self.entries@.len() - i,
        {
            if crate::strings::str_equals(self.entries[i].0.as_str(), name) {
                return Some(i);
            }
            i = i + 1;
        }
        None
    }

    /// The value stored under a name.
    pub fn get(&self, name: &str) -> (r: Option<&V>)
        ensures
            match r {
                Some(v) => self@.contains_key(name@) && *v == self@[name@],
                None => !self@.contains_key(name@),
            },
    {
        proof {
            use_type_invariant(self);
        }
        match self.position(name) {
            Some(i) => {
                proof {
                    lemma_entries_map_lookup(self.entries@, i as int);
                }
                Some(&self.entries[i].1)
            },
            None => {
                proof {
                    lemma_entries_map_absent(self.entries@, name@);
                }
                None
            },
        }
    }

    /// The names in the map, in ascending `String` order.
    pub fn sorted_names(&self) -> (r: Vec<String>)
        ensures
            r@.len() == self@.len(),
            forall|i: int, j: int| 0 <= i < j < r@.len() ==> lex_lt(#[trigger] r@[i]@, #[trigger] r@[j]@),
            strings_of(r@) == self@.dom(),
    {
        proof {
            use_type_invariant(self);
            lemma_entries_map_len(self.entries@);
        }
        let mut out: Vec<String> = Vec::new();
        let mut e: usize = 0;
        assert(names_in(self.entries@, 0) =~= strings_of(out@));
        while e < self.entries.len()
            invariant
                e <= self.entries@.len(),
                distinct_names(self.entries@),
                out@.len() == e,
                forall|i: int, j: int| 0 <= i < j < out@.len() ==> lex_lt(#[trigger] out@[i]@, #[trigger] out@[j]@),
                names_in(self.entries@, e as int) == strings_of(out@),
            decreases self.entries@.len() - e,
        {
            let name = self.entries[e].0.clone();
            // the first position whose name comes after `name`
            let mut pos: usize = 0;
            while pos < out.len() && !str_less(name.as_str(), out[pos].as_str())
                invariant
                    pos <= out@.len(),
                    forall|i: int| 0 <= i < pos ==> !lex_lt(name@, #[trigger] out@[i]@),
                decreases out@.len() - pos,
            {
                pos = pos + 1;
            }
            let ghost before = out@;
            proof {
                assert forall|i: int| 0 <= i < pos implies lex_lt(#[trigger] before[i]@, name@) by {
                    lemma_lex_lt_total(before[i]@, name@);
                    assert(strings_of(before).contains(before[i]@));
                    let x = choose|x: int| 0 <= x < e && #[trigger] self.entries@[x].0@ == before[i]@;
                    assert(x != e as int);
                }
                assert forall|i: int| pos <= i < before.len() implies lex_lt(name@, #[trigger] before[i]@) by {
                    if i > pos {
                        lemma_lex_lt_transitive(name@, before[pos as int]@, before[i]@);
                    }
                }
            }
            out.insert(pos, name);
            proof {
                assert forall|i: int, j: int| 0 <= i < j < out@.len() implies lex_lt(#[trigger] out@[i]@, #[trigger] out@[j]@) by {
                    if j < pos {
                        assert(out@[i] == before[i] && out@[j] == before[j]);
                    } else if i < pos && j == pos {
                    } else if i < pos && j > pos {
                        assert(out@[j] == before[j - 1]);
                    } else if i == pos {
                        assert(out@[j] == before[j - 1]);
                    } else {
                        assert(out@[i] == before[i - 1] && out@[j] == before[j - 1]);
                    }
                }
                assert(names_in(self.entries@, e + 1) =~= names_in(self.entries@, e as int).insert(self.entries@[e as int].0@)) by {
                    assert forall|k: Seq<char>| #[trigger] names_in(self.entries@, e + 1).contains(k) implies names_in(self.entries@, e as int).insert(self.entries@[e as int].0@).contains(k) by {
                        let x = choose|x: int| 0 <= x < e + 1 && #[trigger] self.entries@[x].0@ == k;
                        if x < e {
                            assert(names_in(self.entries@, e as int).contains(k));
                        }
                    }
                    assert forall|k: Seq<char>| #[trigger] names_in(self.entries@, e as int).insert(self.entries@[e as int].0@).contains(k) implies names_in(self.entries@, e + 1).contains(k) by {
                        if k == self.entries@[e as int].0@ {
                            assert(0 <= e < e + 1);
                        } else {
                            let x = choose|x: int| 0 <= x < e && #[trigger] self.entries@[x].0@ == k;
                            assert(0 <= x < e + 1);
                        }
                    }
                }
                assert(strings_of(out@) =~= strings_of(before).insert(out@[pos as int]@)) by {
                    assert forall|k: Seq<char>| #[trigger] strings_of(out@).contains(k) implies strings_of(before).insert(out@[pos as int]@).contains(k) by {
                        let i = choose|i: int| 0 <= i < out@.len() && #[trigger] out@[i]@ == k;
                        if i < pos {
                            assert(before[i]@ == k);
                        } else if i > pos {
                            assert(before[i - 1]@ == k);
                        }
                    }
                    assert forall|k: Seq<char>| #[trigger] strings_of(before).insert(out@[pos as int]@).contains(k) implies strings_of(out@).contains(k) by {
                        if k == out@[pos as int]@ {
                        } else {
                            let i = choose|i: int| 0 <= i < before.len() && #[trigger] before[i]@ == k;
                            if i < pos {
                                assert(out@[i]@ == k);
                            } else {
                                assert(out@[i + 1]@ == k);
                            }
                        }
                    }
                }
            }
            e = e + 1;
        }
        proof {
            assert forall|k: Seq<char>| #[trigger] self@.dom().contains(k) == names_in(self.entries@, self.entries@.len() as int).contains(k) by {
                if names_in(self.entries@, self.entries@.len() as int).contains(k) {
                    let x = choose|x: int| 0 <= x < self.entries@.len() && #[trigger] self.entries@[x].0@ == k;
                    lemma_entries_map_lookup(self.entries@, x);
                } else {
                    lemma_entries_map_absent(self.entries@, k);
                }
            }
            assert(self@.dom() =~= strings_of(out@));
        }
        out
    }

    /// Stores a value under a name, replacing any value stored there.
    pub fn insert(&mut self, name: String, value: V)
        ensures
            final(self)@ == old(self)@.insert(name@, value),
    {
        proof {
            use_type_invariant(&*self);
        }
        let pos = self.position(name.as_str());
        let mut entries: Vec<(String, V)> = Vec::new();
        std::mem::swap(&mut entries, &mut self.entries);
        let ghost old_entries = entries@;
        match pos {
            Some(i) => {
                proof {
                    lemma_entries_map_update(old_entries, i as int, (name, value));
                }
                entries.set(i, (name, value));
            },
            None => {
                proof {
                    lemma_entries_map_absent(old_entries, name@);
                }
                entries.push((name, value));
                assert(entries@.drop_last() =~= old_entries);
            },
        }
        self.entries = entries;
    }
}

impl<V: Clone> Clone for NameMap<V> {
    /// A copy with the same names, each value cloned.
    fn clone(&self) -> (r: Self)
        ensures
            r@.dom() == self@.dom(),
    {
        proof {
            use_type_invariant(self);
        }
        let mut entries: Vec<(String, V)> = Vec::new();
        let mut i: usize = 0;
        while i < self.entries.len()
            invariant
                i <= self.entries@.len(),
                entries@.len() == i,
                distinct_names(self.entries@),
                forall|k: int| 0 <= k < i ==> entries@[k].0@ == self.entries@[k].0@,
            decreases self.entries@.len() - i,
        {
            let name = self.entries[i].0.clone();
            let value = self.entries[i].1.clone();
            entries.push((name, value));
            i = i + 1;
        }
        proof {
            lemma_entries_map_same_names(entries@, self.entries@);
        }
        NameMap { entries }
    }
}

} // verus!
