//! Text in dictionary order, and maps keyed by text that keep that order.
use crate::text;
use crate::text::chars_of;
use vstd::prelude::*;

verus! {

/// Dictionary order by code point: the order of `String`.
pub open spec fn precedes(a: Seq<char>, b: Seq<char>) -> bool
    decreases a.len(),
{
    if b.len() == 0 {
        false
    } else if a.len() == 0 {
        true
    } else if a[0] == b[0] {
        precedes(a.drop_first(), b.drop_first())
    } else {
        a[0] < b[0]
    }
}

/// The order is strict.
pub proof fn lemma_irreflexive(a: Seq<char>)
    ensures
        !precedes(a, a),
    decreases a.len(),
{
    if a.len() > 0 {
        lemma_irreflexive(a.drop_first());
    }
}

/// The order is transitive.
pub proof fn lemma_transitive(a: Seq<char>, b: Seq<char>, c: Seq<char>)
    requires
        precedes(a, b),
        precedes(b, c),
    ensures
        precedes(a, c),
    decreases a.len(),
{
    if a.len() > 0 && b.len() > 0 && c.len() > 0 && a[0] == b[0] && b[0] == c[0] {
        lemma_transitive(a.drop_first(), b.drop_first(), c.drop_first());
    }
}

/// The order is total.
pub proof fn lemma_total(a: Seq<char>, b: Seq<char>)
    ensures
        a == b || precedes(a, b) || precedes(b, a),
    decreases a.len(),
{
    if a.len() > 0 && b.len() > 0 && a[0] == b[0] {
        lemma_total(a.drop_first(), b.drop_first());
        if a.drop_first() == b.drop_first() {
            assert(a =~= seq![a[0]] + a.drop_first());
            assert(b =~= seq![b[0]] + b.drop_first());
        }
    } else if a.len() == 0 && b.len() == 0 {
        assert(a =~= b);
    }
}

/// Whether `a` stands before `b` in dictionary order.
pub fn less(a: &str, b: &str) -> (r: bool)
    ensures
        r == precedes(a@, b@),
{
    let x = chars_of(a);
    let y = chars_of(b);
    let mut i: usize = 0;
    assert(a@.skip(0) =~= a@);
    assert(b@.skip(0) =~= b@);
    loop
        invariant
            i <= x.len(),
            i <= y.len(),
            x@ == a@,
            y@ == b@,
            precedes(a@, b@) == precedes(a@.skip(i as int), b@.skip(i as int)),
        decreases x.len() - i,
    {
        if i == y.len() {
            return false;
        }
        if i == x.len() {
            return true;
        }
        if x[i] != y[i] {
            return x[i] < y[i];
        }
        assert(a@.skip(i as int).drop_first() =~= a@.skip(i + 1));
        assert(b@.skip(i as int).drop_first() =~= b@.skip(i + 1));
        i = i + 1;
    }
}

// ---------------------------------------------------------------- sorting
/// No element stands before one to its left.
pub open spec fn sorted(s: Seq<Seq<char>>) -> bool {
    forall|i: int, j: int| 0 <= i < j < s.len() ==> !precedes(#[trigger] s[j], #[trigger] s[i])
}

/// Sorts into dictionary order; equal texts keep their number.
pub fn sort(v: &mut Vec<String>)
    ensures
        sorted(text::texts(final(v)@)),
        text::texts(final(v)@).to_multiset() == text::texts(old(v)@).to_multiset(),
        final(v)@.len() == old(v)@.len(),
{
    let mut out: Vec<String> = Vec::new();
    let ghost all = text::texts(v@);
    assert(all.take(0) =~= Seq::empty());
    assert(text::texts(out@) =~= Seq::empty());
    let mut i: usize = 0;
    while i < v.len()
        invariant
            i <= v.len(),
            all == text::texts(v@),
            v@ == old(v)@,
            out@.len() == i,
            sorted(text::texts(out@)),
            text::texts(out@).to_multiset() == all.take(i as int).to_multiset(),
        decreases v.len() - i,
    {
        let s = v[i].clone();
        let ghost before = text::texts(out@);
        let ghost x = s@;
        insert_sorted(&mut out, s);
        proof {
            assert(all[i as int] == x);
            assert(all.take(i + 1) =~= all.take(i as int).push(x));
            all.take(i as int).to_multiset_ensures();
            before.to_multiset_ensures();
        }
        i = i + 1;
    }
    assert(all.take(all.len() as int) =~= all);
    *v = out;
}

fn insert_sorted(out: &mut Vec<String>, s: String)
    requires
        sorted(text::texts(old(out)@)),
    ensures
        sorted(text::texts(final(out)@)),
        text::texts(final(out)@).to_multiset() == text::texts(old(out)@).to_multiset().insert(s@),
        final(out)@.len() == old(out)@.len() + 1,
{
    let mut k: usize = 0;
    while k < out.len() && !less(s.as_str(), out[k].as_str())
        invariant
            k <= out.len(),
            out@ == old(out)@,
            forall|j: int| 0 <= j < k ==> !precedes(s@, #[trigger] text::texts(out@)[j]),
        decreases out.len() - k,
    {
        k = k + 1;
    }
    let ghost t = text::texts(out@);
    let ghost x = s@;
    out.insert(k, s);
    proof {
        let u = text::texts(out@);
        assert(u =~= t.insert(k as int, x));
        t.to_multiset_ensures();
        vstd::seq_lib::to_multiset_insert(t, k as int, x);
        assert forall|i: int, j: int| 0 <= i < j < u.len() implies !precedes(
            #[trigger] u[j],
            #[trigger] u[i],
        ) by {
            if j < k {
                assert(u[i] == t[i] && u[j] == t[j]);
            } else if j == k {
                assert(u[i] == t[i]);
            } else if i < k {
                assert(u[i] == t[i] && u[j] == t[j - 1]);
            } else if i == k {
                assert(u[j] == t[j - 1]);
                if precedes(t[j - 1], x) {
                    assert(precedes(x, t[k as int]));
                    lemma_transitive(t[j - 1], x, t[k as int]);
                    if j - 1 > k {
                        assert(!precedes(t[j - 1], t[k as int]));
                    } else {
                        lemma_irreflexive(t[k as int]);
                    }
                }
            } else {
                assert(u[i] == t[i - 1] && u[j] == t[j - 1]);
            }
        }
    }
}

// ---------------------------------------------------------------- maps
/// A map keyed by text. Its entries stand in dictionary order of their keys, and no key
/// occurs twice.
pub struct TextMap<V> {
    entries: Vec<(String, V)>,
}

/// Whether the keys of `s` ascend strictly.
pub open spec fn ascending<V>(s: Seq<(Seq<char>, V)>) -> bool {
    forall|i: int, j: int| 0 <= i < j < s.len() ==> precedes(#[trigger] s[i].0, #[trigger] s[j].0)
}

/// The map that a list of entries denotes.
pub open spec fn map_of<V>(s: Seq<(Seq<char>, V)>) -> Map<Seq<char>, V> {
    Map::new(
        |k: Seq<char>| exists|i: int| 0 <= i < s.len() && #[trigger] s[i].0 == k,
        |k: Seq<char>| s[choose|i: int| 0 <= i < s.len() && #[trigger] s[i].0 == k].1,
    )
}

impl<V> TextMap<V> {
    /// The entries in order, keys as mathematical text.
    pub closed spec fn items(&self) -> Seq<(Seq<char>, V)> {
        self.entries@.map_values(|e: (String, V)| (e.0@, e.1))
    }

    /// The representation's invariant.
    pub open spec fn wf(&self) -> bool {
        ascending(self.items())
    }
}

impl<V> View for TextMap<V> {
    type V = Map<Seq<char>, V>;

    open spec fn view(&self) -> Map<Seq<char>, V> {
        map_of(self.items())
    }
}

/// In an ascending list every key has one place.
pub proof fn lemma_map_of<V>(s: Seq<(Seq<char>, V)>, i: int)
    requires
        ascending(s),
        0 <= i < s.len(),
    ensures
        map_of(s).dom().contains(s[i].0),
        map_of(s)[s[i].0] == s[i].1,
{
    let k = s[i].0;
    assert(s[i].0 == k);
    let j = choose|j: int| 0 <= j < s.len() && #[trigger] s[j].0 == k;
    assert(0 <= j < s.len() && s[j].0 == k);
    lemma_irreflexive(k);
    if i < j {
        assert(precedes(s[i].0, s[j].0));
    } else if j < i {
        assert(precedes(s[j].0, s[i].0));
    }
    assert(map_of(s)[k] == s[j].1);
}

impl<V> TextMap<V> {
    /// The empty map.
    pub fn new() -> (r: Self)
        ensures
            r.wf(),
            r.items() == Seq::<(Seq<char>, V)>::empty(),
            r@ == Map::<Seq<char>, V>::empty(),
    {
        let r = TextMap { entries: Vec::new() };
        assert(r.items() =~= Seq::empty());
        assert(r@ =~= Map::empty());
        r
    }

    /// The number of entries.
    pub fn len(&self) -> (n: usize)
        ensures
            n == self.items().len(),
    {
        self.entries.len()
    }

    /// The entry at place `i`.
    pub fn at(&self, i: usize) -> (r: (&String, &V))
        requires
            i < self.items().len(),
        ensures
            (r.0@, *r.1) == self.items()[i as int],
    {
        (&self.entries[i].0, &self.entries[i].1)
    }

    /// The first place whose key does not stand before `key`.
    fn place(&self, key: &str) -> (i: usize)
        requires
            self.wf(),
        ensures
            i <= self.items().len(),
            forall|j: int| 0 <= j < i ==> precedes(#[trigger] self.items()[j].0, key@),
            i < self.items().len() ==> !precedes(self.items()[i as int].0, key@),
    {
        let mut i: usize = 0;
        while i < self.entries.len() && less(self.entries[i].0.as_str(), key)
            invariant
                i <= self.entries.len(),
                forall|j: int| 0 <= j < i ==> precedes(#[trigger] self.items()[j].0, key@),
            decreases self.entries.len() - i,
        {
            i = i + 1;
        }
        i
    }

    /// Where `key` stands.
    fn find(&self, key: &str) -> (r: (usize, bool))
        requires
            self.wf(),
        ensures
            r.0 <= self.items().len(),
            forall|j: int| 0 <= j < r.0 ==> precedes(#[trigger] self.items()[j].0, key@),
            r.1 ==> r.0 < self.items().len() && self.items()[r.0 as int].0 == key@,
            !r.1 ==> forall|j: int|
                r.0 <= j < self.items().len() ==> precedes(key@, #[trigger] self.items()[j].0),
            r.1 == self@.dom().contains(key@),
    {
        let i = self.place(key);
        let hit = i < self.entries.len() && text::same_text(self.entries[i].0.as_str(), key);
        proof {
            let s = self.items();
            if hit {
                lemma_map_of(s, i as int);
            } else {
                assert forall|j: int| i <= j < s.len() implies precedes(
                    key@,
                    #[trigger] s[j].0,
                ) by {
                    lemma_total(key@, s[i as int].0);
                    assert(precedes(key@, s[i as int].0));
                    if i < j {
                        lemma_transitive(key@, s[i as int].0, s[j].0);
                    }
                }
                if self@.dom().contains(key@) {
                    let j = choose|j: int| 0 <= j < s.len() && #[trigger] s[j].0 == key@;
                    lemma_irreflexive(key@);
                }
            }
        }
        (i, hit)
    }

    /// The value of `key`.
    pub fn get(&self, key: &str) -> (r: Option<&V>)
        requires
            self.wf(),
        ensures
            match r {
                Some(v) => self@.dom().contains(key@) && self@[key@] == *v,
                None => !self@.dom().contains(key@),
            },
    {
        let (i, hit) = self.find(key);
        if hit {
            proof {
                lemma_map_of(self.items(), i as int);
            }
            Some(&self.entries[i].1)
        } else {
            None
        }
    }

    /// Whether `key` has a value.
    pub fn contains_key(&self, key: &str) -> (r: bool)
        requires
            self.wf(),
        ensures
            r == self@.dom().contains(key@),
    {
        self.find(key).1
    }

    /// Gives `key` a value, in place of the one it had.
    pub fn insert(&mut self, key: String, value: V)
        requires
            old(self).wf(),
        ensures
            final(self).wf(),
            final(self)@ == old(self)@.insert(key@, value),
    {
        let (i, hit) = self.find(key.as_str());
        let ghost before = self.items();
        let ghost k = key@;
        if hit {
            self.entries.remove(i);
            self.entries.insert(i, (key, value));
            assert(self.items() =~= before.update(i as int, (k, value)));
        } else {
            self.entries.insert(i, (key, value));
            assert(self.items() =~= before.insert(i as int, (k, value)));
        }
        proof {
            let after = self.items();
            assert(ascending(after)) by {
                assert forall|a: int, b: int| 0 <= a < b < after.len() implies precedes(
                    #[trigger] after[a].0,
                    #[trigger] after[b].0,
                ) by {
                    let x = if hit || a < i { a } else { a - 1 };
                    let y = if hit || b < i { b } else { b - 1 };
                    if a != i {
                        assert(after[a].0 == before[x].0);
                    }
                    if b != i {
                        assert(after[b].0 == before[y].0);
                    }
                    if hit && b == i {
                        assert(before[b].0 == k);
                    }
                    if hit && a == i {
                        assert(before[a].0 == k);
                    }
                }
            }
            lemma_after_insert(before, after, i as int, k, value, hit);
        }
    }

    /// Takes `key` away, and its value.
    pub fn remove(&mut self, key: &str) -> (r: Option<V>)
        requires
            old(self).wf(),
        ensures
            final(self).wf(),
            final(self)@ == old(self)@.remove(key@),
            match r {
                Some(v) => old(self)@.dom().contains(key@) && old(self)@[key@] == v,
                None => !old(self)@.dom().contains(key@),
            },
    {
        let (i, hit) = self.find(key);
        let ghost before = self.items();
        if hit {
            proof {
                lemma_map_of(before, i as int);
            }
            let e = self.entries.remove(i);
            proof {
                let after = self.items();
                assert(after =~= before.remove(i as int));
                assert(e.1 == before[i as int].1);
                lemma_after_remove(before, after, i as int, key@);
            }
            Some(e.1)
        } else {
            assert(self@ =~= old(self)@.remove(key@));
            None
        }
    }
}

proof fn lemma_after_insert<V>(
    before: Seq<(Seq<char>, V)>,
    after: Seq<(Seq<char>, V)>,
    i: int,
    k: Seq<char>,
    v: V,
    hit: bool,
)
    requires
        ascending(before),
        ascending(after),
        0 <= i <= before.len(),
        hit ==> i < before.len() && before[i].0 == k && after == before.update(i, (k, v)),
        !hit ==> after == before.insert(i, (k, v)),
    ensures
        map_of(after) == map_of(before).insert(k, v),
{
    lemma_map_of(after, i);
    assert forall|x: Seq<char>| #[trigger] map_of(after).dom().contains(x) <==> map_of(
        before,
    ).insert(k, v).dom().contains(x) by {
        if map_of(after).dom().contains(x) && x != k {
            let j = choose|j: int| 0 <= j < after.len() && #[trigger] after[j].0 == x;
            let y = if hit || j < i { j } else { j - 1 };
            assert(before[y].0 == x);
        }
        if map_of(before).dom().contains(x) && x != k {
            let j = choose|j: int| 0 <= j < before.len() && #[trigger] before[j].0 == x;
            let y = if hit || j < i { j } else { j + 1 };
            assert(after[y].0 == x);
        }
    }
    assert forall|x: Seq<char>| #[trigger] map_of(after).dom().contains(x) implies map_of(after)[x]
        == map_of(before).insert(k, v)[x] by {
        if x != k {
            let j = choose|j: int| 0 <= j < after.len() && #[trigger] after[j].0 == x;
            let y = if hit || j < i { j } else { j - 1 };
            assert(before[y] == after[j]);
            lemma_map_of(after, j);
            lemma_map_of(before, y);
        }
    }
    assert(map_of(after) =~= map_of(before).insert(k, v));
}

proof fn lemma_after_remove<V>(
    before: Seq<(Seq<char>, V)>,
    after: Seq<(Seq<char>, V)>,
    i: int,
    k: Seq<char>,
)
    requires
        ascending(before),
        0 <= i < before.len(),
        before[i].0 == k,
        after == before.remove(i),
    ensures
        ascending(after),
        map_of(after) == map_of(before).remove(k),
{
    assert forall|a: int, b: int| 0 <= a < b < after.len() implies precedes(
        #[trigger] after[a].0,
        #[trigger] after[b].0,
    ) by {
        let x = if a < i { a } else { a + 1 };
        let y = if b < i { b } else { b + 1 };
        assert(before[x] == after[a] && before[y] == after[b]);
    }
    assert forall|x: Seq<char>| #[trigger] map_of(after).dom().contains(x) <==> map_of(
        before,
    ).remove(k).dom().contains(x) by {
        if map_of(after).dom().contains(x) {
            let j = choose|j: int| 0 <= j < after.len() && #[trigger] after[j].0 == x;
            let y = if j < i { j } else { j + 1 };
            assert(before[y].0 == x);
            lemma_irreflexive(x);
        }
        if map_of(before).dom().contains(x) && x != k {
            let j = choose|j: int| 0 <= j < before.len() && #[trigger] before[j].0 == x;
            let y = if j < i { j } else { j - 1 };
            assert(after[y].0 == x);
        }
    }
    assert forall|x: Seq<char>| #[trigger] map_of(after).dom().contains(x) implies map_of(after)[x]
        == map_of(before).remove(k)[x] by {
        let j = choose|j: int| 0 <= j < after.len() && #[trigger] after[j].0 == x;
        let y = if j < i { j } else { j + 1 };
        assert(before[y] == after[j]);
        lemma_map_of(after, j);
        lemma_map_of(before, y);
    }
    assert(map_of(after) =~= map_of(before).remove(k));
}

/// The order is that of a dictionary: a text stands in front of those it begins, and where two
/// texts part, the one with the smaller character there stands in front.
pub proof fn law_dictionary_order(p: Seq<char>, x: char, s: Seq<char>, y: char, t: Seq<char>)
    requires
        x < y,
    ensures
        precedes(p, p + seq![x] + s),
        precedes(p + seq![x] + s, p + seq![y] + t),
        !precedes(p + seq![y] + t, p + seq![x] + s),
        !precedes(p + seq![x] + s, p),
    decreases p.len(),
{
    let a = p + seq![x] + s;
    let b = p + seq![y] + t;
    if p.len() > 0 {
        let q = p.drop_first();
        law_dictionary_order(q, x, s, y, t);
        assert(a.drop_first() =~= q + seq![x] + s);
        assert(b.drop_first() =~= q + seq![y] + t);
    } else {
        assert(a[0] == x && b[0] == y);
    }
}

} // verus!
