use vstd::prelude::*;

use crate::text::str_eq;

verus! {

/// The value of the first entry of `m` whose key is `k`; the order of the
/// entries of a decoded JSON object carries no meaning, and decoding keeps
/// one entry per key.
pub open spec fn lookup<V>(m: Seq<(String, V)>, k: Seq<char>) -> Option<V>
    decreases m.len(),
{
    if m.len() == 0 {
        None
    } else if m[0].0@ == k {
        Some(m[0].1)
    } else {
        lookup(m.drop_first(), k)
    }
}

/// The value of key `k` in `m`.
pub fn lookup_ref<'a, V>(m: &'a Vec<(String, V)>, k: &str) -> (r: Option<&'a V>)
    ensures
        match lookup(m@, k@) {
            Some(v) => r matches Some(x) && *x == v,
            None => r is None,
        },
{
    let mut i: usize = 0;
    assert(m@.skip(0) =~= m@);
    while i < m.len()
        invariant
            i <= m@.len(),
            lookup(m@, k@) == lookup(m@.skip(i as int), k@),
        decreases m.len() - i,
    {
        assert(m@.skip(i as int)[0] == m@[i as int]);
        if str_eq(m[i].0.as_str(), k) {
            return Some(&m[i].1);
        }
        assert(m@.skip(i as int).drop_first() =~= m@.skip(i + 1));
        i += 1;
    }
    None
}


/// Whether no key occurs twice among the entries, as in a map.
pub open spec fn keys_unique<V>(m: Seq<(String, V)>) -> bool {
    forall|i: int, j: int| 0 <= i < j < m.len() ==> (#[trigger] m[i]).0@ != (#[trigger] m[j]).0@
}

/// Law: where no key occurs twice, looking up a key gives the value of the
/// one entry with that key, wherever it stands: the entries behave as the
/// map they come from, whatever their order.
pub proof fn lemma_lookup_unique<V>(m: Seq<(String, V)>, i: int)
    requires
        keys_unique(m),
        0 <= i < m.len(),
    ensures
        lookup(m, m[i].0@) == Some(m[i].1),
    decreases i,
{
    if i > 0 {
        let t = m.drop_first();
        assert(m[0].0@ != m[i].0@);
        assert forall|a: int, b: int| 0 <= a < b < t.len() implies (#[trigger] t[a]).0@ != (
        #[trigger] t[b]).0@ by {
            assert(t[a] == m[a + 1]);
            assert(t[b] == m[b + 1]);
        }
        assert(t[i - 1] == m[i]);
        lemma_lookup_unique(t, i - 1);
    }
}

/// Law: a key that no entry has is found nowhere.
pub proof fn lemma_lookup_absent<V>(m: Seq<(String, V)>, k: Seq<char>)
    requires
        forall|i: int| 0 <= i < m.len() ==> (#[trigger] m[i]).0@ != k,
    ensures
        lookup(m, k) is None,
    decreases m.len(),
{
    if m.len() > 0 {
        let t = m.drop_first();
        assert forall|i: int| 0 <= i < t.len() implies (#[trigger] t[i]).0@ != k by {
            assert(t[i] == m[i + 1]);
        }
        lemma_lookup_absent(t, k);
    }
}

} // verus!
