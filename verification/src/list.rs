//! Vectors searched, filtered and grouped by a condition on their items.

use crate::protocol::Id;
use crate::table::IdTable;
use vstd::prelude::*;

verus! {

/// Whether `i` is the place of the first item that meets a condition.
pub open spec fn first_where<T>(s: Seq<T>, p: spec_fn(T) -> bool, i: int) -> bool {
    0 <= i < s.len() && p(s[i]) && forall|j: int| 0 <= j < i ==> !p(#[trigger] s[j])
}

/// Whether some item meets a condition.
pub open spec fn any_where<T>(s: Seq<T>, p: spec_fn(T) -> bool) -> bool {
    exists|i: int| 0 <= i < s.len() && p(#[trigger] s[i])
}

/// Whether a test answers a condition on every item.
pub open spec fn tests<T, F: Fn(&T) -> bool>(test: F, p: spec_fn(T) -> bool) -> bool {
    &&& forall|x: &T| #[trigger] test.requires((x,))
    &&& forall|x: &T, b: bool| #[trigger] test.ensures((x,), b) ==> b == p(*x)
}

/// The place of the first item that meets a condition.
pub(crate) fn find_where<T, F: Fn(&T) -> bool>(
    v: &Vec<T>,
    test: F,
    p: Ghost<spec_fn(T) -> bool>,
) -> (r: Option<usize>)
    requires
        tests(test, p@),
    ensures
        match r {
            Some(i) => first_where(v@, p@, i as int),
            None => !any_where(v@, p@),
        },
{
    let mut i: usize = 0;
    while i < v.len()
        invariant
            i <= v@.len(),
            tests(test, p@),
            forall|j: int| 0 <= j < i ==> !(p@)(#[trigger] v@[j]),
        decreases v@.len() - i,
    {
        if test(&v[i]) {
            return Some(i);
        }
        i = i + 1;
    }
    None
}

/// Keeps the items that meet a condition, in their order.
pub(crate) fn keep_where<T, F: Fn(&T) -> bool>(
    v: &mut Vec<T>,
    test: F,
    p: Ghost<spec_fn(T) -> bool>,
)
    requires
        tests(test, p@),
    ensures
        final(v)@ == old(v)@.filter(p@),
{
    let ghost all = v@;
    let ghost mut done: int = 0;
    let mut i: usize = 0;
    proof {
        reveal(Seq::filter);
        assert(all.take(0).filter(p@) =~= Seq::empty());
        assert(all.skip(0) =~= all);
        assert(v@ =~= all.take(0).filter(p@) + all.skip(0));
    }
    while i < v.len()
        invariant
            tests(test, p@),
            0 <= done <= all.len(),
            i == all.take(done).filter(p@).len(),
            v@ == all.take(done).filter(p@) + all.skip(done),
        decreases all.len() - done,
    {
        let ghost kept = all.take(done).filter(p@);
        proof {
            reveal(Seq::filter);
            assert(v@[i as int] == all.skip(done)[0]);
            assert(all.take(done + 1).drop_last() =~= all.take(done));
            assert(all.take(done + 1).last() == all[done]);
        }
        if test(&v[i]) {
            i = i + 1;
            proof {
                assert(v@ =~= kept.push(all[done]) + all.skip(done + 1));
            }
        } else {
            let ghost before = v@;
            v.remove(i);
            proof {
                assert(v@ =~= kept + all.skip(done + 1));
            }
        }
        proof {
            done = done + 1;
        }
    }
    proof {
        assert(done == all.len()) by {
            assert(v@.len() == all.take(done).filter(p@).len() + (all.len() - done));
        }
        assert(all.take(done) =~= all);
        assert(v@ =~= all.filter(p@));
    }
}

/// A list with an item in the place of the first that meets a condition, or behind
/// the others when none does.
pub open spec fn put<T>(s: Seq<T>, p: spec_fn(T) -> bool, x: T) -> Seq<T>
    decreases s.len(),
{
    if s.len() == 0 {
        seq![x]
    } else if p(s[0]) {
        seq![x] + s.drop_first()
    } else {
        seq![s[0]] + put(s.drop_first(), p, x)
    }
}

/// A list with an item in the place of the first that meets a condition, if one
/// does.
pub open spec fn swapped<T>(s: Seq<T>, p: spec_fn(T) -> bool, x: T) -> Seq<T>
    decreases s.len(),
{
    if s.len() == 0 {
        s
    } else if p(s[0]) {
        seq![x] + s.drop_first()
    } else {
        seq![s[0]] + swapped(s.drop_first(), p, x)
    }
}

/// What `put` and `swapped` give when an item meets the condition.
pub proof fn put_found<T>(s: Seq<T>, p: spec_fn(T) -> bool, x: T, i: int)
    requires
        first_where(s, p, i),
    ensures
        put(s, p, x) == s.update(i, x),
        swapped(s, p, x) == s.update(i, x),
    decreases s.len(),
{
    if p(s[0]) {
        assert(i == 0);
        assert(put(s, p, x) =~= s.update(i, x));
        assert(swapped(s, p, x) =~= s.update(i, x));
    } else {
        let t = s.drop_first();
        assert forall|j: int| 0 <= j < i - 1 implies !p(#[trigger] t[j]) by {
            assert(!p(s[j + 1]));
        }
        put_found(t, p, x, i - 1);
        assert(put(s, p, x) =~= s.update(i, x));
        assert(swapped(s, p, x) =~= s.update(i, x));
    }
}

/// What `put` and `swapped` give when no item meets the condition.
pub proof fn put_missing<T>(s: Seq<T>, p: spec_fn(T) -> bool, x: T)
    requires
        !any_where(s, p),
    ensures
        put(s, p, x) == s.push(x),
        swapped(s, p, x) == s,
    decreases s.len(),
{
    if s.len() > 0 {
        assert(!p(s[0]));
        let t = s.drop_first();
        if any_where(t, p) {
            let j = choose|j: int| 0 <= j < t.len() && p(#[trigger] t[j]);
            assert(p(s[j + 1]));
        }
        put_missing(t, p, x);
    }
    assert(put(s, p, x) =~= s.push(x));
    assert(swapped(s, p, x) =~= s);
}

/// A list without the first item that meets a condition.
pub open spec fn without_first<T>(s: Seq<T>, p: spec_fn(T) -> bool) -> Seq<T>
    decreases s.len(),
{
    if s.len() == 0 {
        s
    } else if p(s[0]) {
        s.drop_first()
    } else {
        seq![s[0]] + without_first(s.drop_first(), p)
    }
}

/// What `without_first` gives when an item meets the condition.
pub proof fn without_found<T>(s: Seq<T>, p: spec_fn(T) -> bool, i: int)
    requires
        first_where(s, p, i),
    ensures
        without_first(s, p) == s.remove(i),
    decreases s.len(),
{
    if p(s[0]) {
        assert(i == 0);
    } else {
        let t = s.drop_first();
        assert forall|j: int| 0 <= j < i - 1 implies !p(#[trigger] t[j]) by {
            assert(!p(s[j + 1]));
        }
        without_found(t, p, i - 1);
    }
    assert(without_first(s, p) =~= s.remove(i));
}

/// What `without_first` gives when no item meets the condition.
pub proof fn without_missing<T>(s: Seq<T>, p: spec_fn(T) -> bool)
    requires
        !any_where(s, p),
    ensures
        without_first(s, p) == s,
    decreases s.len(),
{
    if s.len() > 0 {
        assert(!p(s[0]));
        let t = s.drop_first();
        if any_where(t, p) {
            let j = choose|j: int| 0 <= j < t.len() && p(#[trigger] t[j]);
            assert(p(s[j + 1]));
        }
        without_missing(t, p);
    }
    assert(without_first(s, p) =~= s);
}

/// Puts an item in the place of the first that meets a condition, if one does.
pub(crate) fn swap_where<T, F: Fn(&T) -> bool>(
    v: &mut Vec<T>,
    x: T,
    test: F,
    p: Ghost<spec_fn(T) -> bool>,
)
    requires
        tests(test, p@),
    ensures
        final(v)@ == swapped(old(v)@, p@, x),
{
    match find_where(v, test, p) {
        Some(i) => {
            proof {
                put_found(v@, p@, x, i as int);
            }
            v[i] = x;
        },
        None => {
            proof {
                put_missing(v@, p@, x);
            }
        },
    }
}

/// A list from its last item to its first.
pub(crate) fn turned<T>(v: Vec<T>) -> (r: Vec<T>)
    ensures
        r@ == v@.reverse(),
{
    let ghost all = v@;
    let mut rest: Vec<T> = v;
    let mut out: Vec<T> = Vec::new();
    while rest.len() > 0
        invariant
            rest@.len() + out@.len() == all.len(),
            rest@ == all.take(rest@.len() as int),
            forall|i: int| 0 <= i < out@.len() ==> out@[i] == all[all.len() - 1 - i],
        decreases rest@.len(),
    {
        let ghost n = rest@.len() as int;
        let x: T = rest.pop().unwrap();
        assert(x == all[n - 1]);
        out.push(x);
        assert(rest@ =~= all.take(n - 1));
    }
    assert(out@ =~= all.reverse());
    out
}

/// Lists by key, each as mathematics.
pub open spec fn lists<K, T>(m: Map<K, Vec<T>>) -> Map<K, Seq<T>> {
    m.map_values(|v: Vec<T>| v@)
}

/// The list of a key, empty when it has none.
pub open spec fn list_at<K, T>(m: Map<K, Seq<T>>, k: K) -> Seq<T> {
    if m.dom().contains(k) {
        m[k]
    } else {
        Seq::empty()
    }
}

/// Items collected by key, in their order.
pub open spec fn grouped<T>(s: Seq<T>, key: spec_fn(T) -> Id) -> Map<Id, Seq<T>>
    decreases s.len(),
{
    if s.len() == 0 {
        Map::empty()
    } else {
        let before = grouped(s.drop_last(), key);
        let k = key(s.last());
        before.insert(k, list_at(before, k).push(s.last()))
    }
}

/// Adds an item behind the others of a key.
pub(crate) fn push_at<T>(table: &mut IdTable<Vec<T>>, k: Id, x: T)
    ensures
        lists(final(table)@) == lists(old(table)@).insert(
            k,
            list_at(lists(old(table)@), k).push(x),
        ),
{
    let ghost before = table@;
    let mut list: Vec<T> = match table.remove(k) {
        Some(list) => list,
        None => Vec::new(),
    };
    assert(list@ =~= list_at(lists(before), k));
    list.push(x);
    table.insert(k, list);
    assert(lists(table@) =~= lists(before).insert(k, list_at(lists(before), k).push(x)));
}

/// Collects items by key.
pub(crate) fn group<T, F: Fn(&T) -> Id>(
    items: Vec<T>,
    key: F,
    k: Ghost<spec_fn(T) -> Id>,
) -> (r: IdTable<Vec<T>>)
    requires
        forall|x: &T| #[trigger] key.requires((x,)),
        forall|x: &T, id: Id| #[trigger] key.ensures((x,), id) ==> id == (k@)(*x),
    ensures
        lists(r@) == grouped(items@, k@),
{
    let ghost all = items@;
    let mut rest: Vec<T> = turned(items);
    let mut out: IdTable<Vec<T>> = IdTable::new();
    let ghost mut done: int = 0;
    assert(lists(out@) =~= grouped(all.take(0), k@));
    while rest.len() > 0
        invariant
            forall|x: &T| #[trigger] key.requires((x,)),
            forall|x: &T, id: Id| #[trigger] key.ensures((x,), id) ==> id == (k@)(*x),
            0 <= done,
            done + rest@.len() == all.len(),
            rest@ == all.skip(done).reverse(),
            lists(out@) == grouped(all.take(done), k@),
        decreases rest@.len(),
    {
        let ghost was = rest@;
        let x: T = rest.pop().unwrap();
        proof {
            assert(x == all[done]);
            assert(rest@ =~= all.skip(done + 1).reverse());
            assert(all.take(done + 1).drop_last() =~= all.take(done));
        }
        let id: Id = key(&x);
        push_at(&mut out, id, x);
        proof {
            done = done + 1;
        }
    }
    assert(all.take(done) =~= all);
    out
}

} // verus!
