//! Small maps over vectors, keyed by an identifier or by a text.

use crate::protocol::Id;
use crate::text::same;
use vstd::prelude::*;

verus! {

/// The map that entries spell, later entries over earlier ones.
pub open spec fn as_map<K, V>(s: Seq<(K, V)>) -> Map<K, V>
    decreases s.len(),
{
    if s.len() == 0 {
        Map::empty()
    } else {
        as_map(s.drop_last()).insert(s.last().0, s.last().1)
    }
}

/// Whether no key occurs twice.
pub open spec fn keyed_once<K, V>(s: Seq<(K, V)>) -> bool {
    forall|i: int, j: int| 0 <= i < j < s.len() ==> (#[trigger] s[i]).0 != (#[trigger] s[j]).0
}

/// An entry's key maps to its value.
pub proof fn map_at<K, V>(s: Seq<(K, V)>, i: int)
    requires
        keyed_once(s),
        0 <= i < s.len(),
    ensures
        as_map(s).dom().contains(s[i].0),
        as_map(s)[s[i].0] == s[i].1,
    decreases s.len(),
{
    if i < s.len() - 1 {
        map_at(s.drop_last(), i);
        assert(s.drop_last()[i] == s[i]);
        assert(s[i].0 != s[s.len() - 1].0);
    }
}

/// A key of the map has an entry.
pub proof fn map_only<K, V>(s: Seq<(K, V)>, k: K) -> (i: int)
    requires
        as_map(s).dom().contains(k),
    ensures
        0 <= i < s.len(),
        s[i].0 == k,
    decreases s.len(),
{
    if s.last().0 == k {
        s.len() - 1
    } else {
        map_only(s.drop_last(), k)
    }
}

proof fn map_update<K, V>(s: Seq<(K, V)>, i: int, v: V)
    requires
        keyed_once(s),
        0 <= i < s.len(),
    ensures
        keyed_once(s.update(i, (s[i].0, v))),
        as_map(s.update(i, (s[i].0, v))) == as_map(s).insert(s[i].0, v),
    decreases s.len(),
{
    let t = s.update(i, (s[i].0, v));
    if i == s.len() - 1 {
        assert(t.drop_last() =~= s.drop_last());
        assert(as_map(t) =~= as_map(s).insert(s[i].0, v));
    } else {
        map_update(s.drop_last(), i, v);
        assert(t.drop_last() =~= s.drop_last().update(i, (s[i].0, v)));
        assert(s[i].0 != s[s.len() - 1].0);
        assert(as_map(t) =~= as_map(s).insert(s[i].0, v));
    }
}

proof fn map_remove<K, V>(s: Seq<(K, V)>, i: int)
    requires
        keyed_once(s),
        0 <= i < s.len(),
    ensures
        keyed_once(s.remove(i)),
        as_map(s.remove(i)) == as_map(s).remove(s[i].0),
    decreases s.len(),
{
    let t = s.remove(i);
    if i == s.len() - 1 {
        assert(t =~= s.drop_last());
        if as_map(t).dom().contains(s[i].0) {
            let j = map_only(t, s[i].0);
            assert(t[j] == s[j]);
        }
        assert(as_map(t) =~= as_map(s).remove(s[i].0));
    } else {
        map_remove(s.drop_last(), i);
        assert(t.drop_last() =~= s.drop_last().remove(i));
        assert(s[i].0 != s[s.len() - 1].0);
        assert(s.drop_last()[i] == s[i]);
        assert(as_map(t) =~= as_map(s).remove(s[i].0));
    }
    assert forall|a: int, b: int| 0 <= a < b < t.len() implies (#[trigger] t[a]).0 != (
    #[trigger] t[b]).0 by {
        let x = if a < i {
            a
        } else {
            a + 1
        };
        let y = if b < i {
            b
        } else {
            b + 1
        };
        assert(s[x].0 != s[y].0);
    }
}

/// Values by identifier.
#[derive(Debug)]
pub struct IdTable<V> {
    entries: Vec<(Id, V)>,
}

impl<V> View for IdTable<V> {
    type V = Map<Id, V>;

    closed spec fn view(&self) -> Map<Id, V> {
        as_map(self.entries@)
    }
}

impl<V> IdTable<V> {
    #[verifier::type_invariant]
    spec fn sound(self) -> bool {
        keyed_once(self.entries@)
    }

    /// The entries in the order in which they are kept.
    pub closed spec fn list(&self) -> Seq<(Id, V)> {
        self.entries@
    }

    /// An empty table.
    pub fn new() -> (r: IdTable<V>)
        ensures
            r@ == Map::<Id, V>::empty(),
            r.list().len() == 0,
    {
        IdTable { entries: Vec::new() }
    }

    /// How many entries there are.
    pub fn len(&self) -> (r: usize)
        ensures
            r == self.list().len(),
            keyed_once(self.list()),
            as_map(self.list()) == self@,
    {
        proof {
            use_type_invariant(self);
        }
        self.entries.len()
    }

    /// The entry at a place.
    pub fn entry(&self, i: usize) -> (r: &(Id, V))
        requires
            i < self.list().len(),
        ensures
            *r == self.list()[i as int],
    {
        &self.entries[i]
    }

    /// Leaves the table empty and hands its entries out.
    fn take_entries(&mut self) -> (r: Vec<(Id, V)>)
        ensures
            r@ == old(self).entries@,
            final(self).entries@.len() == 0,
    {
        let mut taken: IdTable<V> = IdTable::new();
        core::mem::swap(self, &mut taken);
        taken.entries
    }

    fn position(&self, k: Id) -> (r: Option<usize>)
        ensures
            match r {
                Some(i) => i < self.entries@.len() && self.entries@[i as int].0 == k,
                None => !self@.dom().contains(k),
            },
    {
        let mut i: usize = 0;
        while i < self.entries.len()
            invariant
                i <= self.entries@.len(),
                forall|j: int| 0 <= j < i ==> (#[trigger] self.entries@[j]).0 != k,
            decreases self.entries@.len() - i,
        {
            if self.entries[i].0 == k {
                return Some(i);
            }
            i = i + 1;
        }
        proof {
            if self@.dom().contains(k) {
                let j = map_only(self.entries@, k);
                assert(self.entries@[j].0 != k);
            }
        }
        None
    }

    /// The value of a key.
    pub fn get(&self, k: Id) -> (r: Option<&V>)
        ensures
            match r {
                Some(v) => self@.dom().contains(k) && *v == self@[k],
                None => !self@.dom().contains(k),
            },
    {
        proof {
            use_type_invariant(self);
        }
        match self.position(k) {
            Some(i) => {
                proof {
                    map_at(self.entries@, i as int);
                }
                Some(&self.entries[i].1)
            },
            None => None,
        }
    }

    /// Whether a key has a value.
    pub fn contains(&self, k: Id) -> (r: bool)
        ensures
            r == self@.dom().contains(k),
    {
        self.get(k).is_some()
    }

    /// Gives a key a value, in place of the one it had.
    pub fn insert(&mut self, k: Id, v: V)
        ensures
            final(self)@ == old(self)@.insert(k, v),
    {
        proof {
            use_type_invariant(&*self);
        }
        let at: Option<usize> = self.position(k);
        let ghost before = self.entries@;
        let mut entries: Vec<(Id, V)> = self.take_entries();
        match at {
            Some(i) => {
                proof {
                    map_update(before, i as int, v);
                }
                entries[i] = (k, v);
            },
            None => {
                proof {
                    assert(before.push((k, v)).drop_last() =~= before);
                    assert forall|i: int, j: int| 0 <= i < j < before.push((k, v)).len() implies (
                    #[trigger] before.push((k, v))[i]).0 != (
                    #[trigger] before.push((k, v))[j]).0 by {
                        if j == before.len() {
                            map_at(before, i);
                        }
                    }
                }
                entries.push((k, v));
            },
        }
        *self = IdTable { entries };
    }

    /// Takes a key's value out.
    pub fn remove(&mut self, k: Id) -> (r: Option<V>)
        ensures
            final(self)@ == old(self)@.remove(k),
            match r {
                Some(v) => old(self)@.dom().contains(k) && v == old(self)@[k],
                None => !old(self)@.dom().contains(k),
            },
    {
        proof {
            use_type_invariant(&*self);
        }
        let ghost before = self.entries@;
        match self.position(k) {
            Some(i) => {
                proof {
                    map_at(before, i as int);
                    map_remove(before, i as int);
                }
                let mut entries: Vec<(Id, V)> = self.take_entries();
                let entry: (Id, V) = entries.remove(i);
                *self = IdTable { entries };
                Some(entry.1)
            },
            None => {
                assert(self@.remove(k) =~= self@);
                None
            },
        }
    }
}

/// Values by text.
#[derive(Debug)]
pub struct TextTable<V> {
    entries: Vec<(String, V)>,
}

/// Entries with their keys as mathematics.
pub open spec fn by_text<V>(s: Seq<(String, V)>) -> Seq<(Seq<char>, V)> {
    s.map_values(|e: (String, V)| (e.0@, e.1))
}

impl<V> View for TextTable<V> {
    type V = Map<Seq<char>, V>;

    closed spec fn view(&self) -> Map<Seq<char>, V> {
        as_map(by_text(self.entries@))
    }
}

impl<V> TextTable<V> {
    #[verifier::type_invariant]
    spec fn sound(self) -> bool {
        keyed_once(by_text(self.entries@))
    }

    /// The entries in the order in which they are kept.
    pub closed spec fn list(&self) -> Seq<(Seq<char>, V)> {
        by_text(self.entries@)
    }

    /// An empty table.
    pub fn new() -> (r: TextTable<V>)
        ensures
            r@ == Map::<Seq<char>, V>::empty(),
            r.list().len() == 0,
    {
        let entries: Vec<(String, V)> = Vec::new();
        assert(by_text(entries@) =~= Seq::empty());
        TextTable { entries }
    }

    /// How many entries there are.
    pub fn len(&self) -> (r: usize)
        ensures
            r == self.list().len(),
            keyed_once(self.list()),
            as_map(self.list()) == self@,
    {
        proof {
            use_type_invariant(self);
        }
        self.entries.len()
    }

    /// The entry at a place.
    pub fn entry(&self, i: usize) -> (r: &(String, V))
        requires
            i < self.list().len(),
        ensures
            (r.0@, r.1) == self.list()[i as int],
    {
        &self.entries[i]
    }

    /// Leaves the table empty and hands its entries out.
    fn take_entries(&mut self) -> (r: Vec<(String, V)>)
        ensures
            r@ == old(self).entries@,
            final(self).entries@.len() == 0,
    {
        let mut taken: TextTable<V> = TextTable::new();
        core::mem::swap(self, &mut taken);
        taken.entries
    }

    fn position(&self, k: &str) -> (r: Option<usize>)
        ensures
            match r {
                Some(i) => i < self.entries@.len() && self.entries@[i as int].0@ == k@,
                None => !self@.dom().contains(k@),
            },
    {
        let mut i: usize = 0;
        while i < self.entries.len()
            invariant
                i <= self.entries@.len(),
                forall|j: int| 0 <= j < i ==> (#[trigger] self.entries@[j]).0@ != k@,
            decreases self.entries@.len() - i,
        {
            if same(self.entries[i].0.as_str(), k) {
                return Some(i);
            }
            i = i + 1;
        }
        proof {
            if self@.dom().contains(k@) {
                let j = map_only(by_text(self.entries@), k@);
                assert(self.entries@[j].0@ != k@);
            }
        }
        None
    }

    /// The value of a key.
    pub fn get(&self, k: &str) -> (r: Option<&V>)
        ensures
            match r {
                Some(v) => self@.dom().contains(k@) && *v == self@[k@],
                None => !self@.dom().contains(k@),
            },
    {
        proof {
            use_type_invariant(self);
        }
        match self.position(k) {
            Some(i) => {
                proof {
                    map_at(by_text(self.entries@), i as int);
                }
                Some(&self.entries[i].1)
            },
            None => None,
        }
    }

    /// Whether a key has a value.
    pub fn contains(&self, k: &str) -> (r: bool)
        ensures
            r == self@.dom().contains(k@),
    {
        self.get(k).is_some()
    }

    /// Gives a key a value, in place of the one it had.
    pub fn insert(&mut self, k: String, v: V)
        ensures
            final(self)@ == old(self)@.insert(k@, v),
    {
        proof {
            use_type_invariant(&*self);
        }
        let at: Option<usize> = self.position(k.as_str());
        let ghost before = self.entries@;
        let mut entries: Vec<(String, V)> = self.take_entries();
        match at {
            Some(i) => {
                proof {
                    map_update(by_text(before), i as int, v);
                    assert(by_text(before.update(i as int, (k, v))) =~= by_text(before).update(
                        i as int,
                        (k@, v),
                    ));
                }
                entries[i] = (k, v);
            },
            None => {
                proof {
                    let t = by_text(before).push((k@, v));
                    assert(by_text(before.push((k, v))) =~= t);
                    assert(t.drop_last() =~= by_text(before));
                    assert forall|i: int, j: int| 0 <= i < j < t.len() implies (#[trigger] t[i]).0
                        != (#[trigger] t[j]).0 by {
                        if j == before.len() {
                            map_at(by_text(before), i);
                        }
                    }
                }
                entries.push((k, v));
            },
        }
        *self = TextTable { entries };
    }

    /// Takes a key's value out.
    pub fn remove(&mut self, k: &str) -> (r: Option<V>)
        ensures
            final(self)@ == old(self)@.remove(k@),
            match r {
                Some(v) => old(self)@.dom().contains(k@) && v == old(self)@[k@],
                None => !old(self)@.dom().contains(k@),
            },
    {
        proof {
            use_type_invariant(&*self);
        }
        let ghost before = self.entries@;
        match self.position(k) {
            Some(i) => {
                proof {
                    map_at(by_text(before), i as int);
                    map_remove(by_text(before), i as int);
                    assert(by_text(before.remove(i as int)) =~= by_text(before).remove(i as int));
                }
                let mut entries: Vec<(String, V)> = self.take_entries();
                let entry: (String, V) = entries.remove(i);
                *self = TextTable { entries };
                Some(entry.1)
            },
            None => {
                assert(self@.remove(k@) =~= self@);
                None
            },
        }
    }
}

} // verus!
