//! String-keyed custom metadata, as a bucket stores it beside an object.

use vstd::prelude::*;
use crate::text::str_eq;

verus! {

/// A map from metadata names to values. Names are unique; the order of the
/// entries carries no meaning.
pub struct Metadata {
    entries: Vec<(String, String)>,
}

/// The map that a list of name-value pairs builds when each pair is
/// inserted in turn (a later pair replaces an earlier one of the same name).
pub open spec fn pairs_map(s: Seq<(String, String)>) -> Map<Seq<char>, Seq<char>>
    decreases s.len(),
{
    if s.len() == 0 {
        Map::empty()
    } else {
        pairs_map(s.drop_last()).insert(s.last().0@, s.last().1@)
    }
}

/// Some entry has name `k`.
pub open spec fn has_name(s: Seq<(String, String)>, k: Seq<char>) -> bool {
    exists|i: int| 0 <= i < s.len() && (#[trigger] s[i]).0@ == k
}

/// No two entries share a name.
pub open spec fn names_unique(s: Seq<(String, String)>) -> bool {
    forall|i: int, j: int|
        0 <= i < s.len() && 0 <= j < s.len() && i != j ==> (#[trigger] s[i]).0@ != (#[trigger] s[j]).0@
}

/// The map that a list of uniquely named entries stands for.
pub open spec fn entries_map(s: Seq<(String, String)>) -> Map<Seq<char>, Seq<char>> {
    Map::new(
        |k: Seq<char>| has_name(s, k),
        |k: Seq<char>| s[choose|i: int| 0 <= i < s.len() && (#[trigger] s[i]).0@ == k].1@,
    )
}

proof fn lemma_entries_map_at(s: Seq<(String, String)>, i: int)
    requires
        names_unique(s),
        0 <= i < s.len(),
    ensures
        entries_map(s).contains_key(s[i].0@),
        entries_map(s)[s[i].0@] == s[i].1@,
{
    let k = s[i].0@;
    assert(has_name(s, k));
    let j = choose|j: int| 0 <= j < s.len() && (#[trigger] s[j]).0@ == k;
    assert(j == i);
}

/// Writing the entry `(k, v)` at position `i` of uniquely named entries,
/// over the entry of that name or, where there is none, at the end, keeps
/// the names unique and stores `v` under `k` in the map they stand for.
proof fn lemma_write_entry(old: Seq<(String, String)>, s: Seq<(String, String)>, i: int, k: Seq<char>, v: Seq<char>)
    requires
        names_unique(old),
        0 <= i <= old.len(),
        i < old.len() ==> old[i].0@ == k,
        i == old.len() ==> !has_name(old, k),
        s.len() == if i < old.len() { old.len() } else { old.len() + 1 },
        s[i].0@ == k,
        s[i].1@ == v,
        forall|j: int| 0 <= j < s.len() && j != i ==> s[j] == old[j],
    ensures
        names_unique(s),
        entries_map(s) == entries_map(old).insert(k, v),
{
    assert forall|a: int, b: int| 0 <= a < s.len() && 0 <= b < s.len() && a != b implies
        (#[trigger] s[a]).0@ != (#[trigger] s[b]).0@ by {
        if a != i && b != i {
            assert(old[a] == s[a]);
            assert(old[b] == s[b]);
        } else if a != i {
            assert(old[a] == s[a]);
            if i == old.len() {
                assert(!(old[a].0@ == k));
            }
        } else {
            assert(old[b] == s[b]);
            if i == old.len() {
                assert(!(old[b].0@ == k));
            }
        }
    }
    assert forall|n: Seq<char>| #[trigger] entries_map(s).contains_key(n) <==> entries_map(old).insert(k, v).contains_key(n) by {
        if has_name(s, n) {
            let j = choose|j: int| 0 <= j < s.len() && (#[trigger] s[j]).0@ == n;
            if j != i {
                assert(old[j] == s[j]);
            }
        }
        if entries_map(old).contains_key(n) && n != k {
            let j = choose|j: int| 0 <= j < old.len() && (#[trigger] old[j]).0@ == n;
            assert(s[j] == old[j]);
        }
        if n == k {
            assert(s[i].0@ == k);
        }
    }
    assert forall|n: Seq<char>| #[trigger] entries_map(s).contains_key(n) implies entries_map(s)[n] == entries_map(old).insert(k, v)[n] by {
        let j = choose|j: int| 0 <= j < s.len() && (#[trigger] s[j]).0@ == n;
        lemma_entries_map_at(s, j);
        if j != i {
            assert(old[j] == s[j]);
            lemma_entries_map_at(old, j);
        }
    }
    assert(entries_map(s) =~= entries_map(old).insert(k, v));
}

/// Inserting uniquely named pairs one by one builds the map they stand for;
/// so metadata taken apart with `into_pairs` and rebuilt with `from_pairs`
/// is unchanged.
pub proof fn lemma_unique_pairs_map(s: Seq<(String, String)>)
    requires
        names_unique(s),
    ensures
        pairs_map(s) == entries_map(s),
    decreases s.len(),
{
    if s.len() > 0 {
        let t = s.drop_last();
        let x = s.last();
        assert forall|a: int, b: int|
            0 <= a < t.len() && 0 <= b < t.len() && a != b implies (#[trigger] t[a]).0@ != (#[trigger] t[b]).0@ by {
            assert(t[a] == s[a] && t[b] == s[b]);
        }
        lemma_unique_pairs_map(t);
        assert forall|k: Seq<char>| #[trigger] entries_map(s).contains_key(k) <==>
            entries_map(t).insert(x.0@, x.1@).contains_key(k) by {
            if has_name(s, k) {
                let j = choose|j: int| 0 <= j < s.len() && (#[trigger] s[j]).0@ == k;
                if j < t.len() {
                    assert(t[j] == s[j]);
                }
            }
            if has_name(t, k) {
                let j = choose|j: int| 0 <= j < t.len() && (#[trigger] t[j]).0@ == k;
                assert(s[j] == t[j]);
            }
            if k == x.0@ {
                assert(s[s.len() - 1].0@ == k);
            }
        }
        assert forall|k: Seq<char>| #[trigger] entries_map(s).contains_key(k) implies
            entries_map(s)[k] == entries_map(t).insert(x.0@, x.1@)[k] by {
            let j = choose|j: int| 0 <= j < s.len() && (#[trigger] s[j]).0@ == k;
            lemma_entries_map_at(s, j);
            if j < t.len() {
                assert(t[j] == s[j]);
                lemma_entries_map_at(t, j);
                assert(k != x.0@);
            }
        }
        assert(entries_map(s) =~= entries_map(t).insert(x.0@, x.1@));
    } else {
        assert(entries_map(s) =~= Map::<Seq<char>, Seq<char>>::empty());
    }
}

impl View for Metadata {
    type V = Map<Seq<char>, Seq<char>>;

    closed spec fn view(&self) -> Map<Seq<char>, Seq<char>> {
        entries_map(self.entries@)
    }
}

impl Metadata {
    #[verifier::type_invariant]
    closed spec fn wf(&self) -> bool {
        names_unique(self.entries@)
    }

    /// The empty map.
    pub fn new() -> (m: Metadata)
        ensures
            m@ == Map::<Seq<char>, Seq<char>>::empty(),
    {
        let m = Metadata { entries: Vec::new() };
        assert(m@ =~= Map::<Seq<char>, Seq<char>>::empty());
        m
    }

    fn find(&self, key: &str) -> (r: Option<usize>)
        ensures
            r matches Some(i) ==> i < self.entries@.len() && self.entries@[i as int].0@ == key@,
            r is None ==> !has_name(self.entries@, key@),
    {
        let mut i: usize = 0;
        while i < self.entries.len()
            invariant
                i <= self.entries@.len(),
                forall|j: int| 0 <= j < i ==> (#[trigger] self.entries@[j]).0@ != key@,
            decreases self.entries@.len() - i,
        {
            if str_eq(self.entries[i].0.as_str(), key) {
                return Some(i);
            }
            i = i + 1;
        }
        None
    }

    /// The value stored under `key`, if any.
    pub fn get(&self, key: &str) -> (r: Option<&String>)
        ensures
            r is Some <==> self@.contains_key(key@),
            r matches Some(v) ==> v@ == self@[key@],
    {
        proof { use_type_invariant(self); }
        match self.find(key) {
            Some(i) => {
                proof { lemma_entries_map_at(self.entries@, i as int); }
                Some(&self.entries[i].1)
            },
            None => None,
        }
    }

    /// Stores `value` under `key`, replacing any earlier value.
    pub fn insert(&mut self, key: String, value: String)
        ensures
            final(self)@ == old(self)@.insert(key@, value@),
    {
        proof { use_type_invariant(&*self); }
        let ghost old_entries = self.entries@;
        let found = self.find(key.as_str());
        let mut entries: Vec<(String, String)> = Vec::new();
        std::mem::swap(&mut entries, &mut self.entries);
        match found {
            Some(i) => {
                let ghost k = key@;
                let ghost v = value@;
                entries.set(i, (key, value));
                proof { lemma_write_entry(old_entries, entries@, i as int, k, v); }
            },
            None => {
                let ghost k = key@;
                let ghost v = value@;
                entries.push((key, value));
                proof { lemma_write_entry(old_entries, entries@, old_entries.len() as int, k, v); }
            },
        }
        self.entries = entries;
    }

    /// The map built by inserting each pair in turn.
    pub fn from_pairs(pairs: Vec<(String, String)>) -> (m: Metadata)
        ensures
            m@ == pairs_map(pairs@),
    {
        let mut m = Metadata::new();
        let mut i: usize = 0;
        while i < pairs.len()
            invariant
                i <= pairs@.len(),
                m@ == pairs_map(pairs@.take(i as int)),
            decreases pairs@.len() - i,
        {
            proof {
                assert(pairs@.take(i as int + 1).drop_last() =~= pairs@.take(i as int));
            }
            let k = pairs[i].0.clone();
            let v = pairs[i].1.clone();
            m.insert(k, v);
            i = i + 1;
        }
        assert(pairs@.take(pairs@.len() as int) =~= pairs@);
        m
    }

    /// The entries, each name once, in no particular order.
    pub fn into_pairs(self) -> (r: Vec<(String, String)>)
        ensures
            names_unique(r@),
            entries_map(r@) == self@,
    {
        proof { use_type_invariant(&self); }
        self.entries
    }
}

} // verus!
