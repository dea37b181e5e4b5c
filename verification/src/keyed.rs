//! Lists of things that have an id: saving one replaces the one with its id, or appends it.
use crate::text::same_text;
use vstd::prelude::*;

verus! {

/// Something with an id.
pub trait Keyed: Sized {
    /// The id.
    spec fn key(&self) -> Seq<char>;

    /// The id.
    fn id(&self) -> (r: &str)
        ensures
            r@ == self.key(),
    ;
}

/// Whether `i` is the first place of `id`.
pub open spec fn is_first<T: Keyed>(s: Seq<T>, id: Seq<char>, i: int) -> bool {
    0 <= i < s.len() && s[i].key() == id && forall|j: int|
        0 <= j < i ==> (#[trigger] s[j]).key() != id
}

/// Whether there is something with `id`.
pub open spec fn has_id<T: Keyed>(s: Seq<T>, id: Seq<char>) -> bool {
    exists|i: int| is_first(s, id, i)
}

/// The first thing with `id`, where there is one.
pub open spec fn first_with<T: Keyed>(s: Seq<T>, id: Seq<char>) -> Option<T> {
    if has_id(s, id) {
        Some(s[choose|i: int| is_first(s, id, i)])
    } else {
        None
    }
}

/// The list with `item` saved: in the first place of its id, or at the end.
pub open spec fn upserted<T: Keyed>(s: Seq<T>, item: T) -> Seq<T> {
    if has_id(s, item.key()) {
        s.update(choose|i: int| is_first(s, item.key(), i), item)
    } else {
        s.push(item)
    }
}

/// Whether a thing has another id.
pub open spec fn other_than<T: Keyed>(id: Seq<char>) -> spec_fn(T) -> bool {
    |x: T| x.key() != id
}

/// The list without everything of `id`.
pub open spec fn without<T: Keyed>(s: Seq<T>, id: Seq<char>) -> Seq<T> {
    s.filter(other_than(id))
}

/// There is one first place.
pub proof fn lemma_first<T: Keyed>(s: Seq<T>, id: Seq<char>, i: int)
    requires
        is_first(s, id, i),
    ensures
        has_id(s, id),
        (choose|j: int| is_first(s, id, j)) == i,
        first_with(s, id) == Some(s[i]),
{
    let j = choose|j: int| is_first(s, id, j);
    assert(is_first(s, id, j));
    if i < j {
        assert(s[i].key() != id);
    } else if j < i {
        assert(s[j].key() != id);
    }
}

/// The first place of `id`.
pub fn position<T: Keyed>(v: &Vec<T>, id: &str) -> (r: Option<usize>)
    ensures
        match r {
            Some(i) => is_first(v@, id@, i as int) && first_with(v@, id@) == Some(v@[i as int]),
            None => !has_id(v@, id@) && forall|i: int|
                0 <= i < v@.len() ==> (#[trigger] v@[i]).key() != id@,
        },
{
    let mut i: usize = 0;
    while i < v.len()
        invariant
            i <= v.len(),
            forall|j: int| 0 <= j < i ==> (#[trigger] v@[j]).key() != id@,
        decreases v.len() - i,
    {
        if same_text(v[i].id(), id) {
            proof {
                lemma_first(v@, id@, i as int);
            }
            return Some(i);
        }
        i = i + 1;
    }
    None
}

/// Saves `item`.
pub fn upsert<T: Keyed>(v: &mut Vec<T>, item: T)
    ensures
        final(v)@ == upserted(old(v)@, item),
{
    match position(v, item.id()) {
        Some(i) => {
            proof {
                lemma_first(v@, item.key(), i as int);
            }
            v.set(i, item);
        },
        None => {
            v.push(item);
        },
    }
}

/// Takes everything of `id` out.
pub fn remove_id<T: Keyed>(v: &mut Vec<T>, id: &str)
    ensures
        final(v)@ == without(old(v)@, id@),
{
    let mut rest: Vec<T> = Vec::new();
    let mut todo: Vec<T> = Vec::new();
    todo.append(v);
    let ghost all = todo@;
    let ghost keep = other_than::<T>(id@);
    let n = todo.len();
    let mut i: usize = 0;
    proof {
        reveal(Seq::filter);
    }
    assert(all.take(0).filter(keep) =~= Seq::empty());
    while i < n
        invariant
            i <= n,
            n == all.len(),
            todo@ == all.skip(i as int),
            rest@ == all.take(i as int).filter(keep),
            keep == other_than::<T>(id@),
        decreases n - i,
    {
        let x = todo.remove(0);
        proof {
            let next = all.take(i + 1);
            assert(next.drop_last() =~= all.take(i as int));
            assert(next.last() == x);
            assert(todo@ =~= all.skip(i + 1));
            reveal(Seq::filter);
        }
        if !same_text(x.id(), id) {
            rest.push(x);
        }
        i = i + 1;
    }
    assert(all.take(n as int) =~= all);
    *v = rest;
}

// ---------------------------------------------------------------- laws
/// What was saved is what is found, and nothing else changes its place.
pub proof fn law_saved_is_found<T: Keyed>(s: Seq<T>, item: T)
    ensures
        first_with(upserted(s, item), item.key()) == Some(item),
        upserted(s, item).len() == s.len() + if has_id(s, item.key()) {
            0int
        } else {
            1
        },
        forall|i: int|
            0 <= i < s.len() && (#[trigger] s[i]).key() != item.key() ==> upserted(s, item)[i]
                == s[i],
{
    let u = upserted(s, item);
    if has_id(s, item.key()) {
        let i = choose|i: int| is_first(s, item.key(), i);
        assert(is_first(s, item.key(), i));
        assert(is_first(u, item.key(), i)) by {
            assert forall|j: int| 0 <= j < i implies (#[trigger] u[j]).key() != item.key() by {
                assert(s[j].key() != item.key());
            }
        }
        lemma_first(u, item.key(), i);
    } else {
        let n = s.len() as int;
        assert forall|j: int| 0 <= j < n implies (#[trigger] u[j]).key() != item.key() by {
            lemma_none(s, item.key(), j);
        }
        assert(is_first(u, item.key(), n));
        lemma_first(u, item.key(), n);
    }
}

proof fn lemma_none<T: Keyed>(s: Seq<T>, id: Seq<char>, i: int)
    requires
        !has_id(s, id),
        0 <= i < s.len(),
    ensures
        s[i].key() != id,
    decreases i,
{
    if s[i].key() == id {
        assert forall|j: int| 0 <= j < i implies (#[trigger] s[j]).key() != id by {
            lemma_none(s, id, j);
        }
        assert(is_first(s, id, i));
    }
}

/// Saving twice is saving the second.
pub proof fn law_last_save_counts<T: Keyed>(s: Seq<T>, a: T, b: T)
    requires
        a.key() == b.key(),
    ensures
        upserted(upserted(s, a), b) == upserted(s, b),
{
    let u = upserted(s, a);
    law_saved_is_found(s, a);
    if has_id(s, a.key()) {
        let i = choose|i: int| is_first(s, a.key(), i);
        assert(is_first(s, a.key(), i));
        assert(is_first(u, a.key(), i)) by {
            assert forall|j: int| 0 <= j < i implies (#[trigger] u[j]).key() != a.key() by {
                assert(s[j].key() != a.key());
            }
        }
        lemma_first(u, a.key(), i);
        assert(upserted(u, b) =~= upserted(s, b));
    } else {
        let n = s.len() as int;
        assert forall|j: int| 0 <= j < n implies (#[trigger] u[j]).key() != a.key() by {
            lemma_none(s, a.key(), j);
        }
        assert(is_first(u, a.key(), n));
        lemma_first(u, a.key(), n);
        assert(upserted(u, b) =~= upserted(s, b));
    }
}

/// What was deleted is not found, and everything of another id is still there.
pub proof fn law_deleted_is_gone<T: Keyed>(s: Seq<T>, id: Seq<char>)
    ensures
        !has_id(without(s, id), id),
        forall|i: int|
            0 <= i < s.len() && (#[trigger] s[i]).key() != id ==> without(s, id).contains(s[i]),
{
    let keep = other_than::<T>(id);
    if has_id(without(s, id), id) {
        let i = choose|i: int| is_first(without(s, id), id, i);
        assert(is_first(without(s, id), id, i));
        s.lemma_filter_pred(keep, i);
    }
    assert forall|i: int| 0 <= i < s.len() && (#[trigger] s[i]).key() != id implies without(
        s,
        id,
    ).contains(s[i]) by {
        s.lemma_filter_contains(keep, i);
    }
}

/// Deleting keeps the order: what has another id stays behind what stayed in front of it, and
/// nothing else comes in.
pub proof fn law_deletion_keeps_order<T: Keyed>(s: Seq<T>, x: T, id: Seq<char>)
    ensures
        without(Seq::<T>::empty(), id).len() == 0,
        x.key() == id ==> without(s.push(x), id) == without(s, id),
        x.key() != id ==> without(s.push(x), id) == without(s, id).push(x),
{
    reveal(Seq::filter);
    assert(s.push(x).drop_last() =~= s);
}

/// The first thing with an id is found: it has that id, and nothing in front of it does.
/// Something is found exactly where there is something with that id.
pub proof fn law_first_is_found<T: Keyed>(s: Seq<T>, id: Seq<char>)
    ensures
        match first_with(s, id) {
            Some(x) => exists|i: int|
                0 <= i < s.len() && #[trigger] s[i] == x && x.key() == id && forall|j: int|
                    0 <= j < i ==> (#[trigger] s[j]).key() != id,
            None => forall|i: int| 0 <= i < s.len() ==> (#[trigger] s[i]).key() != id,
        },
        has_id(s, id) <==> first_with(s, id) is Some,
{
    if has_id(s, id) {
        let i = choose|i: int| is_first(s, id, i);
        assert(is_first(s, id, i));
        assert(s[i].key() == id);
    } else {
        assert forall|i: int| 0 <= i < s.len() implies (#[trigger] s[i]).key() != id by {
            lemma_none(s, id, i);
        }
    }
}

} // verus!
