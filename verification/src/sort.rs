use vstd::prelude::*;

use crate::text::chars_of;

verus! {

// ---------------------------------------------------------------------------
// Text order
// ---------------------------------------------------------------------------

/// The order of `str`: lexicographic on code points (which is the order of
/// the UTF-8 bytes).
pub open spec fn text_lt(a: Seq<char>, b: Seq<char>) -> bool
    decreases a.len(),
{
    if a.len() == 0 {
        b.len() > 0
    } else if b.len() == 0 {
        false
    } else if a[0] != b[0] {
        a[0] < b[0]
    } else {
        text_lt(a.drop_first(), b.drop_first())
    }
}

pub open spec fn text_le(a: Seq<char>, b: Seq<char>) -> bool {
    !text_lt(b, a)
}

pub proof fn lemma_text_lt_irreflexive(a: Seq<char>)
    ensures
        !text_lt(a, a),
    decreases a.len(),
{
    if a.len() > 0 {
        lemma_text_lt_irreflexive(a.drop_first());
    }
}

pub proof fn lemma_text_total(a: Seq<char>, b: Seq<char>)
    ensures
        text_lt(a, b) || text_lt(b, a) || a == b,
    decreases a.len(),
{
    if a.len() > 0 && b.len() > 0 {
        if a[0] == b[0] {
            lemma_text_total(a.drop_first(), b.drop_first());
            if a.drop_first() == b.drop_first() {
                assert(a =~= seq![a[0]] + a.drop_first());
                assert(b =~= seq![b[0]] + b.drop_first());
            }
        }
    } else if a.len() == 0 && b.len() == 0 {
        assert(a =~= b);
    }
}

pub proof fn lemma_text_lt_asym(a: Seq<char>, b: Seq<char>)
    ensures
        !(text_lt(a, b) && text_lt(b, a)),
    decreases a.len(),
{
    if a.len() > 0 && b.len() > 0 && a[0] == b[0] {
        lemma_text_lt_asym(a.drop_first(), b.drop_first());
    }
}

pub proof fn lemma_text_le_trans(a: Seq<char>, b: Seq<char>, c: Seq<char>)
    requires
        text_le(a, b),
        text_le(b, c),
    ensures
        text_le(a, c),
    decreases a.len(),
{
    lemma_text_total(a, b);
    lemma_text_total(b, c);
    if a == b || b == c {
    } else {
        lemma_text_lt_trans(a, b, c);
        lemma_text_lt_asym(a, c);
    }
}

pub proof fn lemma_text_lt_trans(a: Seq<char>, b: Seq<char>, c: Seq<char>)
    requires
        text_lt(a, b),
        text_lt(b, c),
    ensures
        text_lt(a, c),
    decreases a.len(),
{
    if a.len() > 0 && b.len() > 0 && c.len() > 0 {
        if a[0] == b[0] && b[0] == c[0] {
            lemma_text_lt_trans(a.drop_first(), b.drop_first(), c.drop_first());
        }
    }
}

/// Whether `a` comes before or with `b` in the order of `str`.
pub fn text_le_exec(a: &str, b: &str) -> (r: bool)
    ensures
        r == text_le(a@, b@),
{
    let va = chars_of(a);
    let vb = chars_of(b);
    let mut i: usize = 0;
    assert(va@.skip(0) =~= va@);
    assert(vb@.skip(0) =~= vb@);
    while i < va.len() && i < vb.len() && va[i] == vb[i]
        invariant
            i <= va@.len(),
            i <= vb@.len(),
            text_lt(vb@, va@) == text_lt(vb@.skip(i as int), va@.skip(i as int)),
        decreases va.len() - i,
    {
        assert(va@.skip(i as int).drop_first() =~= va@.skip(i + 1));
        assert(vb@.skip(i as int).drop_first() =~= vb@.skip(i + 1));
        i += 1;
    }
    if i < va.len() && i < vb.len() {
        assert(va@.skip(i as int)[0] == va@[i as int]);
        assert(vb@.skip(i as int)[0] == vb@[i as int]);
        !(vb[i] < va[i])
    } else {
        // one of the two is exhausted: `b < a` only when `a` has more left
        assert(va@.skip(i as int).len() == va@.len() - i);
        assert(vb@.skip(i as int).len() == vb@.len() - i);
        !(i >= vb.len() && i < va.len())
    }
}

/// The key views of keyed items.
pub open spec fn keys_of<T>(s: Seq<(String, T)>) -> Seq<Seq<char>> {
    s.map_values(|p: (String, T)| p.0@)
}

/// The keys of keyed items.
pub open spec fn firsts<T>(s: Seq<(String, T)>) -> Seq<String> {
    s.map_values(|p: (String, T)| p.0)
}

/// The items of keyed items.
pub open spec fn seconds<T>(s: Seq<(String, T)>) -> Seq<T> {
    s.map_values(|p: (String, T)| p.1)
}

// ---------------------------------------------------------------------------
// Stable sort by a text key
// ---------------------------------------------------------------------------

/// `x` inserted into `s` before the first element whose key is not smaller.
pub open spec fn insert_by_text<T>(x: (String, T), s: Seq<(String, T)>) -> Seq<(String, T)>
    decreases s.len(),
{
    if s.len() == 0 {
        seq![x]
    } else if text_le(x.0@, s[0].0@) {
        seq![x] + s
    } else {
        seq![s[0]] + insert_by_text(x, s.drop_first())
    }
}

/// The stable sort of `s` by key, ascending.
pub open spec fn sort_by_text_spec<T>(s: Seq<(String, T)>) -> Seq<(String, T)>
    decreases s.len(),
{
    if s.len() == 0 {
        s
    } else {
        insert_by_text(s[0], sort_by_text_spec(s.drop_first()))
    }
}

/// Whether the keys of `s` ascend.
pub open spec fn text_sorted<T>(s: Seq<(String, T)>) -> bool {
    forall|i: int, j: int| 0 <= i < j < s.len() ==> text_le(#[trigger] s[i].0@, #[trigger] s[j].0@)
}

proof fn lemma_insert_at<T>(x: (String, T), s: Seq<(String, T)>, p: int)
    requires
        0 <= p <= s.len(),
        forall|k: int| 0 <= k < p ==> !text_le(x.0@, #[trigger] s[k].0@),
        p < s.len() ==> text_le(x.0@, s[p].0@),
    ensures
        insert_by_text(x, s) == s.insert(p, x),
    decreases s.len(),
{
    if s.len() == 0 {
        assert(s.insert(p, x) =~= seq![x]);
    } else if p == 0 {
        assert(s.insert(0, x) =~= seq![x] + s);
    } else {
        let t = s.drop_first();
        assert forall|k: int| 0 <= k < p - 1 implies !text_le(x.0@, #[trigger] t[k].0@) by {
            assert(t[k] == s[k + 1]);
        }
        lemma_insert_at(x, t, p - 1);
        assert(s.insert(p, x) =~= seq![s[0]] + t.insert(p - 1, x));
    }
}

proof fn lemma_insert_sorted<T>(x: (String, T), s: Seq<(String, T)>)
    requires
        text_sorted(s),
    ensures
        text_sorted(insert_by_text(x, s)),
        insert_by_text(x, s).to_multiset() == s.to_multiset().insert(x),
    decreases s.len(),
{
    broadcast use vstd::seq_lib::group_to_multiset_ensures;

    if s.len() == 0 {
        assert(insert_by_text(x, s) =~= seq![x]);
        assert(seq![x] =~= s.push(x));
    } else if text_le(x.0@, s[0].0@) {
        let r = seq![x] + s;
        assert forall|i: int, j: int| 0 <= i < j < r.len() implies text_le(
            #[trigger] r[i].0@,
            #[trigger] r[j].0@,
        ) by {
            if i == 0 {
                if j > 1 {
                    lemma_text_le_trans(x.0@, s[0].0@, s[j - 1].0@);
                }
            } else {
                assert(r[i] == s[i - 1]);
                assert(r[j] == s[j - 1]);
            }
        }
        lemma_multiset_cons(x, s);
    } else {
        let t = s.drop_first();
        assert forall|i: int, j: int| 0 <= i < j < t.len() implies text_le(
            #[trigger] t[i].0@,
            #[trigger] t[j].0@,
        ) by {
            assert(t[i] == s[i + 1]);
            assert(t[j] == s[j + 1]);
        }
        lemma_insert_sorted(x, t);
        let it = insert_by_text(x, t);
        let r = seq![s[0]] + it;
        lemma_text_lt_asym(x.0@, s[0].0@);
        assert(text_le(s[0].0@, x.0@));
        assert forall|k: int| 0 <= k < it.len() implies text_le(s[0].0@, #[trigger] it[k].0@) by {
            assert(it.to_multiset().count(it[k]) > 0);
            assert(t.to_multiset().insert(x).count(it[k]) > 0);
            if it[k] != x {
                assert(t.to_multiset().count(it[k]) > 0);
                assert(t.contains(it[k]));
                let m = choose|m: int| 0 <= m < t.len() && t[m] == it[k];
                assert(s[m + 1] == t[m]);
            }
        }
        assert forall|i: int, j: int| 0 <= i < j < r.len() implies text_le(
            #[trigger] r[i].0@,
            #[trigger] r[j].0@,
        ) by {
            if i == 0 {
                assert(r[j] == it[j - 1]);
            } else {
                assert(r[i] == it[i - 1]);
                assert(r[j] == it[j - 1]);
            }
        }
        lemma_multiset_cons(s[0], it);
        lemma_multiset_cons(s[0], t);
        assert(s =~= seq![s[0]] + t);
        assert(r.to_multiset() =~= s.to_multiset().insert(x));
    }
}

proof fn lemma_multiset_cons<A>(x: A, s: Seq<A>)
    ensures
        (seq![x] + s).to_multiset() == s.to_multiset().insert(x),
{
    broadcast use vstd::seq_lib::group_to_multiset_ensures;

    vstd::seq_lib::lemma_multiset_commutative(seq![x], s);
    assert(seq![x] =~= Seq::<A>::empty().push(x));
    assert(Seq::<A>::empty().to_multiset() =~= vstd::multiset::Multiset::<A>::empty());
    assert((seq![x] + s).to_multiset() =~= seq![x].to_multiset().add(s.to_multiset()));
}

/// Law: sorting by key gives keys in ascending order and the same items.
pub proof fn lemma_sort_by_text<T>(s: Seq<(String, T)>)
    ensures
        text_sorted(sort_by_text_spec(s)),
        sort_by_text_spec(s).to_multiset() == s.to_multiset(),
    decreases s.len(),
{
    broadcast use vstd::seq_lib::group_to_multiset_ensures;

    if s.len() > 0 {
        lemma_sort_by_text(s.drop_first());
        lemma_insert_sorted(s[0], sort_by_text_spec(s.drop_first()));
        lemma_multiset_cons(s[0], s.drop_first());
        assert(s =~= seq![s[0]] + s.drop_first());
    }
}

/// Sorts by key, ascending; items with equal keys keep their order.
pub fn sort_by_text_key<T>(items: Vec<(String, T)>) -> (r: Vec<(String, T)>)
    ensures
        r@ == sort_by_text_spec(items@),
{
    let ghost orig = items@;
    let mut items = items;
    let mut out: Vec<(String, T)> = Vec::new();
    assert(orig.skip(orig.len() as int) =~= Seq::<(String, T)>::empty());
    while items.len() > 0
        invariant
            items@.len() <= orig.len(),
            items@ == orig.take(items@.len() as int),
            out@ == sort_by_text_spec(orig.skip(items@.len() as int)),
        decreases items@.len(),
    {
        let ghost k = items@.len();
        assert(items@[k - 1] == orig[k - 1]);
        let x = items.pop().unwrap();
        assert(x == orig[k - 1]);
        assert(items@ =~= orig.take(k - 1));
        assert(orig.skip(k - 1)[0] == x);
        assert(orig.skip(k - 1).drop_first() =~= orig.skip(k as int));
        let mut p: usize = 0;
        while p < out.len() && !text_le_exec(x.0.as_str(), out[p].0.as_str())
            invariant
                p <= out@.len(),
                forall|m: int| 0 <= m < p ==> !text_le(x.0@, #[trigger] out@[m].0@),
            decreases out.len() - p,
        {
            p += 1;
        }
        proof {
            lemma_insert_at(x, out@, p as int);
        }
        out.insert(p, x);
    }
    assert(orig.skip(0) =~= orig);
    out
}

// ---------------------------------------------------------------------------
// Stable sort by a number, descending
// ---------------------------------------------------------------------------

/// `x` inserted into `s` before the first element whose number is not
/// larger.
pub open spec fn insert_by_num_desc<T>(x: (u32, T), s: Seq<(u32, T)>) -> Seq<(u32, T)>
    decreases s.len(),
{
    if s.len() == 0 {
        seq![x]
    } else if x.0 >= s[0].0 {
        seq![x] + s
    } else {
        seq![s[0]] + insert_by_num_desc(x, s.drop_first())
    }
}

/// The stable sort of `s` by number, descending.
pub open spec fn sort_by_num_desc_spec<T>(s: Seq<(u32, T)>) -> Seq<(u32, T)>
    decreases s.len(),
{
    if s.len() == 0 {
        s
    } else {
        insert_by_num_desc(s[0], sort_by_num_desc_spec(s.drop_first()))
    }
}

proof fn lemma_insert_num_at<T>(x: (u32, T), s: Seq<(u32, T)>, p: int)
    requires
        0 <= p <= s.len(),
        forall|k: int| 0 <= k < p ==> x.0 < #[trigger] s[k].0,
        p < s.len() ==> x.0 >= s[p].0,
    ensures
        insert_by_num_desc(x, s) == s.insert(p, x),
    decreases s.len(),
{
    if s.len() == 0 {
        assert(s.insert(p, x) =~= seq![x]);
    } else if p == 0 {
        assert(s.insert(0, x) =~= seq![x] + s);
    } else {
        let t = s.drop_first();
        assert forall|k: int| 0 <= k < p - 1 implies x.0 < #[trigger] t[k].0 by {
            assert(t[k] == s[k + 1]);
        }
        lemma_insert_num_at(x, t, p - 1);
        assert(s.insert(p, x) =~= seq![s[0]] + t.insert(p - 1, x));
    }
}

/// Whether the numbers of `s` descend.
pub open spec fn num_sorted_desc<T>(s: Seq<(u32, T)>) -> bool {
    forall|i: int, j: int| 0 <= i < j < s.len() ==> #[trigger] s[i].0 >= #[trigger] s[j].0
}

proof fn lemma_insert_num_sorted<T>(x: (u32, T), s: Seq<(u32, T)>)
    requires
        num_sorted_desc(s),
    ensures
        num_sorted_desc(insert_by_num_desc(x, s)),
        insert_by_num_desc(x, s).to_multiset() == s.to_multiset().insert(x),
    decreases s.len(),
{
    broadcast use vstd::seq_lib::group_to_multiset_ensures;

    if s.len() == 0 {
        assert(insert_by_num_desc(x, s) =~= seq![x]);
        assert(seq![x] =~= s.push(x));
    } else if x.0 >= s[0].0 {
        let r = seq![x] + s;
        assert forall|i: int, j: int| 0 <= i < j < r.len() implies #[trigger] r[i].0
            >= #[trigger] r[j].0 by {
            if i == 0 {
                assert(r[j] == s[j - 1]);
            } else {
                assert(r[i] == s[i - 1]);
                assert(r[j] == s[j - 1]);
            }
        }
        lemma_multiset_cons(x, s);
    } else {
        let t = s.drop_first();
        assert forall|i: int, j: int| 0 <= i < j < t.len() implies #[trigger] t[i].0
            >= #[trigger] t[j].0 by {
            assert(t[i] == s[i + 1]);
            assert(t[j] == s[j + 1]);
        }
        lemma_insert_num_sorted(x, t);
        let it = insert_by_num_desc(x, t);
        let r = seq![s[0]] + it;
        assert forall|k: int| 0 <= k < it.len() implies s[0].0 >= #[trigger] it[k].0 by {
            assert(it.to_multiset().count(it[k]) > 0);
            assert(t.to_multiset().insert(x).count(it[k]) > 0);
            if it[k] != x {
                assert(t.to_multiset().count(it[k]) > 0);
                assert(t.contains(it[k]));
                let m = choose|m: int| 0 <= m < t.len() && t[m] == it[k];
                assert(s[m + 1] == t[m]);
            }
        }
        assert forall|i: int, j: int| 0 <= i < j < r.len() implies #[trigger] r[i].0
            >= #[trigger] r[j].0 by {
            if i == 0 {
                assert(r[j] == it[j - 1]);
            } else {
                assert(r[i] == it[i - 1]);
                assert(r[j] == it[j - 1]);
            }
        }
        lemma_multiset_cons(s[0], it);
        lemma_multiset_cons(s[0], t);
        assert(s =~= seq![s[0]] + t);
        assert(r.to_multiset() =~= s.to_multiset().insert(x));
    }
}

/// Law: sorting by number gives numbers in descending order and the same
/// items.
pub proof fn lemma_sort_by_num_desc<T>(s: Seq<(u32, T)>)
    ensures
        num_sorted_desc(sort_by_num_desc_spec(s)),
        sort_by_num_desc_spec(s).to_multiset() == s.to_multiset(),
    decreases s.len(),
{
    broadcast use vstd::seq_lib::group_to_multiset_ensures;

    if s.len() > 0 {
        lemma_sort_by_num_desc(s.drop_first());
        lemma_insert_num_sorted(s[0], sort_by_num_desc_spec(s.drop_first()));
        lemma_multiset_cons(s[0], s.drop_first());
        assert(s =~= seq![s[0]] + s.drop_first());
    }
}

/// Sorts by number, descending; items with equal numbers keep their order.
pub fn sort_by_num_desc<T>(items: Vec<(u32, T)>) -> (r: Vec<(u32, T)>)
    ensures
        r@ == sort_by_num_desc_spec(items@),
{
    let ghost orig = items@;
    let mut items = items;
    let mut out: Vec<(u32, T)> = Vec::new();
    assert(orig.skip(orig.len() as int) =~= Seq::<(u32, T)>::empty());
    while items.len() > 0
        invariant
            items@.len() <= orig.len(),
            items@ == orig.take(items@.len() as int),
            out@ == sort_by_num_desc_spec(orig.skip(items@.len() as int)),
        decreases items@.len(),
    {
        let ghost k = items@.len();
        assert(items@[k - 1] == orig[k - 1]);
        let x = items.pop().unwrap();
        assert(x == orig[k - 1]);
        assert(items@ =~= orig.take(k - 1));
        assert(orig.skip(k - 1)[0] == x);
        assert(orig.skip(k - 1).drop_first() =~= orig.skip(k as int));
        let mut p: usize = 0;
        while p < out.len() && x.0 < out[p].0
            invariant
                p <= out@.len(),
                forall|m: int| 0 <= m < p ==> x.0 < #[trigger] out@[m].0,
            decreases out.len() - p,
        {
            p += 1;
        }
        proof {
            lemma_insert_num_at(x, out@, p as int);
        }
        out.insert(p, x);
    }
    assert(orig.skip(0) =~= orig);
    out
}


// ---------------------------------------------------------------------------
// Stability
// ---------------------------------------------------------------------------

/// The items of `s` whose key is `k`, in order.
pub open spec fn with_text_key<T>(s: Seq<(String, T)>, k: Seq<char>) -> Seq<(String, T)>
    decreases s.len(),
{
    if s.len() == 0 {
        s
    } else if s[0].0@ == k {
        seq![s[0]] + with_text_key(s.drop_first(), k)
    } else {
        with_text_key(s.drop_first(), k)
    }
}

proof fn lemma_with_text_key_cons<T>(x: (String, T), s: Seq<(String, T)>, k: Seq<char>)
    ensures
        with_text_key(seq![x] + s, k) == if x.0@ == k {
            seq![x] + with_text_key(s, k)
        } else {
            with_text_key(s, k)
        },
{
    let c = seq![x] + s;
    assert(c[0] == x);
    assert(c.drop_first() =~= s);
}

proof fn lemma_with_text_key_insert<T>(x: (String, T), t: Seq<(String, T)>, k: Seq<char>)
    ensures
        with_text_key(insert_by_text(x, t), k) == if x.0@ == k {
            seq![x] + with_text_key(t, k)
        } else {
            with_text_key(t, k)
        },
    decreases t.len(),
{
    if t.len() == 0 {
        assert(insert_by_text(x, t) == seq![x]);
        assert(seq![x] =~= seq![x] + t);
        lemma_with_text_key_cons(x, t, k);
    } else if text_le(x.0@, t[0].0@) {
        lemma_with_text_key_cons(x, t, k);
    } else {
        let r = t.drop_first();
        lemma_with_text_key_insert(x, r, k);
        lemma_with_text_key_cons(t[0], insert_by_text(x, r), k);
        assert(t =~= seq![t[0]] + r);
        lemma_with_text_key_cons(t[0], r, k);
        if x.0@ == k && t[0].0@ == k {
            lemma_text_lt_irreflexive(k);
        }
    }
}

/// Law: the sort by key is stable: the items with any one key come out in
/// the order in which they went in.
pub proof fn lemma_sort_by_text_stable<T>(s: Seq<(String, T)>, k: Seq<char>)
    ensures
        with_text_key(sort_by_text_spec(s), k) == with_text_key(s, k),
    decreases s.len(),
{
    if s.len() > 0 {
        lemma_sort_by_text_stable(s.drop_first(), k);
        lemma_with_text_key_insert(s[0], sort_by_text_spec(s.drop_first()), k);
        assert(s =~= seq![s[0]] + s.drop_first());
        lemma_with_text_key_cons(s[0], s.drop_first(), k);
    }
}

/// The items of `s` whose number is `n`, in order.
pub open spec fn with_num_key<T>(s: Seq<(u32, T)>, n: u32) -> Seq<(u32, T)>
    decreases s.len(),
{
    if s.len() == 0 {
        s
    } else if s[0].0 == n {
        seq![s[0]] + with_num_key(s.drop_first(), n)
    } else {
        with_num_key(s.drop_first(), n)
    }
}

proof fn lemma_with_num_key_cons<T>(x: (u32, T), s: Seq<(u32, T)>, n: u32)
    ensures
        with_num_key(seq![x] + s, n) == if x.0 == n {
            seq![x] + with_num_key(s, n)
        } else {
            with_num_key(s, n)
        },
{
    let c = seq![x] + s;
    assert(c[0] == x);
    assert(c.drop_first() =~= s);
}

proof fn lemma_with_num_key_insert<T>(x: (u32, T), t: Seq<(u32, T)>, n: u32)
    ensures
        with_num_key(insert_by_num_desc(x, t), n) == if x.0 == n {
            seq![x] + with_num_key(t, n)
        } else {
            with_num_key(t, n)
        },
    decreases t.len(),
{
    if t.len() == 0 {
        assert(insert_by_num_desc(x, t) == seq![x]);
        assert(seq![x] =~= seq![x] + t);
        lemma_with_num_key_cons(x, t, n);
    } else if x.0 >= t[0].0 {
        lemma_with_num_key_cons(x, t, n);
    } else {
        let r = t.drop_first();
        lemma_with_num_key_insert(x, r, n);
        lemma_with_num_key_cons(t[0], insert_by_num_desc(x, r), n);
        assert(t =~= seq![t[0]] + r);
        lemma_with_num_key_cons(t[0], r, n);
    }
}

/// Law: the sort by number is stable: the items with any one number come
/// out in the order in which they went in.
pub proof fn lemma_sort_by_num_desc_stable<T>(s: Seq<(u32, T)>, n: u32)
    ensures
        with_num_key(sort_by_num_desc_spec(s), n) == with_num_key(s, n),
    decreases s.len(),
{
    if s.len() > 0 {
        lemma_sort_by_num_desc_stable(s.drop_first(), n);
        lemma_with_num_key_insert(s[0], sort_by_num_desc_spec(s.drop_first()), n);
        assert(s =~= seq![s[0]] + s.drop_first());
        lemma_with_num_key_cons(s[0], s.drop_first(), n);
    }
}

} // verus!
