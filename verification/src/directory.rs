//! A table with one entry for each name.

use crate::text::same_text;
use vstd::prelude::*;

verus! {

/// Values found by name. Of two values entered under one name the later stays.
pub struct Directory<V> {
    entries: Vec<(String, V)>,
}

/// The names of a list of entries.
spec fn names_of<V>(entries: Seq<(String, V)>) -> Seq<Seq<char>> {
    entries.map_values(|e: (String, V)| e.0@)
}

/// The table that a list of entries makes.
spec fn table_of<V>(entries: Seq<(String, V)>) -> Map<Seq<char>, V> {
    Map::new(
        |name: Seq<char>| names_of(entries).contains(name),
        |name: Seq<char>| entries[names_of(entries).index_of(name)].1,
    )
}

impl<V> View for Directory<V> {
    type V = Map<Seq<char>, V>;

    closed spec fn view(&self) -> Map<Seq<char>, V> {
        table_of(self.entries@)
    }
}

/// In a list of entries with distinct names, the entry at `i` is the value of
/// the name at `i`.
proof fn lemma_entry<V>(entries: Seq<(String, V)>, i: int)
    requires
        names_of(entries).no_duplicates(),
        0 <= i < entries.len(),
    ensures
        table_of(entries).contains_key(entries[i].0@),
        table_of(entries)[entries[i].0@] == entries[i].1,
{
    let names = names_of(entries);
    assert(names[i] == entries[i].0@);
    assert(names.contains(names[i]));
    let k = names.index_of(names[i]);
    assert(names[k] == names[i]);
}

impl<V> Directory<V> {
    #[verifier::type_invariant]
    spec fn distinct(self) -> bool {
        names_of(self.entries@).no_duplicates()
    }

    /// The names in the order in which they were first entered.
    pub closed spec fn names(&self) -> Seq<Seq<char>> {
        names_of(self.entries@)
    }

    /// A table without entries.
    pub fn new() -> (r: Self)
        ensures
            r@ == Map::<Seq<char>, V>::empty(),
            r.names() == Seq::<Seq<char>>::empty(),
    {
        let entries: Vec<(String, V)> = Vec::new();
        assert(names_of(entries@) =~= Seq::empty());
        assert(table_of(entries@) =~= Map::<Seq<char>, V>::empty());
        Directory { entries }
    }

    /// Where the entry of a name stands.
    fn position(&self, name: &str) -> (r: Option<usize>)
        ensures
            match r {
                Some(i) => i < self.entries@.len() && self.entries@[i as int].0@ == name@,
                None => !names_of(self.entries@).contains(name@),
            },
    {
        let n: usize = self.entries.len();
        let mut i: usize = 0;
        while i < n
            invariant
                n == self.entries@.len(),
                i <= n,
                forall|k: int| 0 <= k < i ==> names_of(self.entries@)[k] != name@,
            decreases n - i,
        {
            if same_text(self.entries[i].0.as_str(), name) {
                return Some(i);
            }
            assert(names_of(self.entries@)[i as int] == self.entries@[i as int].0@);
            i += 1;
        }
        None
    }

    /// Enters a value under a name, in place of the one that was there.
    pub fn insert(&mut self, name: String, value: V)
        ensures
            final(self)@ == old(self)@.insert(name@, value),
            final(self).names() == if old(self)@.contains_key(name@) {
                old(self).names()
            } else {
                old(self).names().push(name@)
            },
    {
        proof {
            use_type_invariant(&*self);
        }
        let place = self.position(name.as_str());
        let ghost before = self.entries@;
        let mut entries: Vec<(String, V)> = Vec::new();
        assert(names_of(entries@) =~= Seq::empty());
        std::mem::swap(&mut entries, &mut self.entries);
        let ghost text = name@;
        match place {
            Some(i) => {
                proof {
                    lemma_entry(before, i as int);
                }
                entries.set(i, (name, value));
                assert(names_of(entries@) =~= names_of(before));
                assert forall|k: Seq<char>| names_of(before).contains(k) && k != text implies
                    #[trigger] table_of(entries@)[k] == table_of(before)[k] by {
                    let j = names_of(before).index_of(k);
                    assert(names_of(before)[j] == k);
                    assert(entries@[j] == before[j]);
                }
            },
            None => {
                entries.push((name, value));
                assert(names_of(entries@) =~= names_of(before).push(text));
                assert forall|k: Seq<char>| names_of(before).contains(k) implies
                    #[trigger] names_of(entries@).contains(k) && table_of(entries@)[k] == table_of(
                    before,
                )[k] by {
                    let j = names_of(before).index_of(k);
                    assert(names_of(before)[j] == k);
                    assert(names_of(entries@)[j] == k);
                    lemma_entry(entries@, j);
                }
                assert(names_of(entries@)[before.len() as int] == text);
            },
        }
        proof {
            let at = match place {
                Some(i) => i as int,
                None => before.len() as int,
            };
            assert(entries@[at].0@ == text);
            lemma_entry(entries@, at);
            assert forall|k: Seq<char>| #[trigger]
                names_of(entries@).contains(k) implies k == text || names_of(before).contains(
                k,
            ) by {
                let j = names_of(entries@).index_of(k);
                assert(names_of(entries@)[j] == k);
                if j < before.len() {
                    assert(names_of(before)[j] == k);
                }
            }
            assert(table_of(entries@) =~= table_of(before).insert(text, entries@[at].1));
        }
        self.entries = entries;
    }

    /// Looks a name up.
    pub fn get(&self, name: &str) -> (r: Option<&V>)
        ensures
            match r {
                Some(v) => self@.contains_key(name@) && *v == self@[name@],
                None => !self@.contains_key(name@),
            },
    {
        proof {
            use_type_invariant(self);
        }
        match self.position(name) {
            Some(i) => {
                proof {
                    lemma_entry(self.entries@, i as int);
                }
                Some(&self.entries[i].1)
            },
            None => None,
        }
    }

    /// How many names there are. The list of names holds each name of the table
    /// once, and nothing else: whoever goes through the entries by number meets
    /// each name exactly once.
    pub fn len(&self) -> (r: usize)
        ensures
            r == self.names().len(),
            self.names().no_duplicates(),
            self.names().to_set() =~= self@.dom(),
    {
        proof {
            use_type_invariant(self);
        }
        self.entries.len()
    }

    /// The name and the value of the entry with the number `i`.
    pub fn entry(&self, i: usize) -> (r: Option<(&str, &V)>)
        ensures
            match r {
                Some((name, value)) => {
                    &&& i < self.names().len()
                    &&& name@ == self.names()[i as int]
                    &&& self@.contains_key(name@)
                    &&& *value == self@[name@]
                },
                None => i >= self.names().len(),
            },
    {
        proof {
            use_type_invariant(self);
        }
        if i >= self.entries.len() {
            return None;
        }
        proof {
            lemma_entry(self.entries@, i as int);
        }
        Some((self.entries[i].0.as_str(), &self.entries[i].1))
    }
}

} // verus!
