use vstd::prelude::*;

verus! {

// ---------------------------------------------------------------------------
// Character classes
// ---------------------------------------------------------------------------

/// Unicode `White_Space`, the class that `char::is_whitespace` tests.
pub open spec fn is_ws(c: char) -> bool {
    let u = c as u32;
    (0x9 <= u && u <= 0xd) || u == 0x20 || u == 0x85 || u == 0xa0 || u == 0x1680 || (0x2000 <= u
        && u <= 0x200a) || u == 0x2028 || u == 0x2029 || u == 0x202f || u == 0x205f || u == 0x3000
}

/// Executable form of `is_ws`.
pub fn is_ws_char(c: char) -> (b: bool)
    ensures
        b == is_ws(c),
{
    let u = c as u32;
    (0x9 <= u && u <= 0xd) || u == 0x20 || u == 0x85 || u == 0xa0 || u == 0x1680 || (0x2000 <= u
        && u <= 0x200a) || u == 0x2028 || u == 0x2029 || u == 0x202f || u == 0x205f || u == 0x3000
}

pub open spec fn char_in(set: Seq<char>) -> spec_fn(char) -> bool {
    |c: char| set.contains(c)
}

// ---------------------------------------------------------------------------
// Conversions between strings and character vectors
// ---------------------------------------------------------------------------

/// Appends one character to a `String`.
///
/// Wraps `String::push`, whose documentation states that it appends the
/// given `char` to the end of the string.
#[verifier::external_body]
pub(crate) fn push_char(s: &mut String, c: char)
    ensures
        final(s)@ == old(s)@.push(c),
{
    s.push(c)
}

/// The characters of `s`, in order.
pub fn chars_of(s: &str) -> (v: Vec<char>)
    ensures
        v@ == s@,
{
    let mut v: Vec<char> = Vec::new();
    for c in it: s.chars()
        invariant
            v@ == it.seq().take(it.index() as int),
            it.seq() == s@,
    {
        v.push(c);
    }
    v
}

/// A `String` holding `v[lo..hi]`.
pub fn string_of_range(v: &[char], lo: usize, hi: usize) -> (s: String)
    requires
        lo <= hi <= v@.len(),
    ensures
        s@ == v@.subrange(lo as int, hi as int),
{
    let mut s = String::new();
    let mut i: usize = lo;
    while i < hi
        invariant
            lo <= i <= hi <= v@.len(),
            s@ == v@.subrange(lo as int, i as int),
        decreases hi - i,
    {
        push_char(&mut s, v[i]);
        assert(v@.subrange(lo as int, i + 1) == v@.subrange(lo as int, i as int).push(v@[i as int]));
        i += 1;
    }
    s
}

/// A `String` holding the characters of `v`, in order.
pub fn string_of(v: &[char]) -> (s: String)
    ensures
        s@ == v@,
{
    let s = string_of_range(v, 0, v.len());
    assert(v@.subrange(0, v@.len() as int) == v@);
    s
}

/// A copy of `s`.
pub fn copy_str(s: &str) -> (r: String)
    ensures
        r@ == s@,
{
    s.to_owned()
}

/// A copy of an optional string.
pub fn copy_opt(s: &Option<String>) -> (r: Option<String>)
    ensures
        r == *s,
        r.is_some() == s.is_some(),
        r.is_some() ==> r.unwrap()@ == s.unwrap()@,
{
    match s {
        Some(x) => Some(x.clone()),
        None => None,
    }
}

/// `a` followed by `b`.
pub fn concat2(a: &str, b: &str) -> (r: String)
    ensures
        r@ == a@ + b@,
{
    let mut r = a.to_owned();
    r.append(b);
    r
}

/// `a`, `b` and `c`, one after another.
pub fn concat3(a: &str, b: &str, c: &str) -> (r: String)
    ensures
        r@ == a@ + b@ + c@,
{
    let mut r = a.to_owned();
    r.append(b);
    r.append(c);
    r
}

// ---------------------------------------------------------------------------
// Equality
// ---------------------------------------------------------------------------

/// Whether `a` and `b` hold the same characters.
pub fn str_eq(a: &str, b: &str) -> (r: bool)
    ensures
        r == (a@ == b@),
{
    let va = chars_of(a);
    let vb = chars_of(b);
    if va.len() != vb.len() {
        return false;
    }
    let mut i: usize = 0;
    while i < va.len()
        invariant
            va@ == a@,
            vb@ == b@,
            va@.len() == vb@.len(),
            i <= va@.len(),
            forall|k: int| 0 <= k < i ==> va@[k] == vb@[k],
        decreases va.len() - i,
    {
        if va[i] != vb[i] {
            return false;
        }
        i += 1;
    }
    assert(va@ =~= vb@);
    true
}

/// ASCII lower case of one character; other characters are unchanged.
pub open spec fn ascii_lower(c: char) -> char {
    if 'A' <= c && c <= 'Z' {
        ((c as u32) + 32) as char
    } else {
        c
    }
}

/// What `str::eq_ignore_ascii_case` decides: equal once ASCII letters are
/// folded to lower case.
pub open spec fn eq_ignore_ascii_case_spec(a: Seq<char>, b: Seq<char>) -> bool {
    a.len() == b.len() && forall|i: int| 0 <= i < a.len() ==> ascii_lower(a[i]) == ascii_lower(b[i])
}

fn ascii_lower_char(c: char) -> (r: char)
    ensures
        r == ascii_lower(c),
{
    if 'A' <= c && c <= 'Z' {
        let b = (c as u8) + 32;
        b as char
    } else {
        c
    }
}

/// Equality of `a` and `b` up to ASCII case.
pub fn eq_ignore_ascii_case(a: &str, b: &str) -> (r: bool)
    ensures
        r == eq_ignore_ascii_case_spec(a@, b@),
{
    let va = chars_of(a);
    let vb = chars_of(b);
    if va.len() != vb.len() {
        return false;
    }
    let mut i: usize = 0;
    while i < va.len()
        invariant
            va@ == a@,
            vb@ == b@,
            va@.len() == vb@.len(),
            i <= va@.len(),
            forall|k: int| 0 <= k < i ==> ascii_lower(va@[k]) == ascii_lower(vb@[k]),
        decreases va.len() - i,
    {
        if ascii_lower_char(va[i]) != ascii_lower_char(vb[i]) {
            return false;
        }
        i += 1;
    }
    true
}


// ---------------------------------------------------------------------------
// Character classes used by trimming and splitting
// ---------------------------------------------------------------------------

/// A set of characters that trimming or splitting works on.
#[derive(Debug)]
pub enum CharClass {
    /// Unicode whitespace.
    Whitespace,
    /// The double quote `"`.
    Quote,
    /// Any of the listed characters.
    OneOf(Vec<char>),
}

pub open spec fn class_has(cls: CharClass, c: char) -> bool {
    match cls {
        CharClass::Whitespace => is_ws(c),
        CharClass::Quote => c == '"',
        CharClass::OneOf(v) => v@.contains(c),
    }
}

pub open spec fn class_pred(cls: CharClass) -> spec_fn(char) -> bool {
    |c: char| class_has(cls, c)
}

/// Whether `c` belongs to `cls`.
pub fn in_class(cls: &CharClass, c: char) -> (b: bool)
    ensures
        b == class_has(*cls, c),
{
    match cls {
        CharClass::Whitespace => is_ws_char(c),
        CharClass::Quote => c == '"',
        CharClass::OneOf(v) => {
            let mut i: usize = 0;
            while i < v.len()
                invariant
                    i <= v@.len(),
                    class_has(*cls, c) == v@.contains(c),
                    forall|k: int| 0 <= k < i ==> v@[k] != c,
                decreases v.len() - i,
            {
                if v[i] == c {
                    assert(v@[i as int] == c);
                    assert(v@.contains(c));
                    return true;
                }
                i += 1;
            }
            false
        },
    }
}

// ---------------------------------------------------------------------------
// Trimming
// ---------------------------------------------------------------------------

pub open spec fn trim_start_by(s: Seq<char>, p: spec_fn(char) -> bool) -> Seq<char>
    decreases s.len(),
{
    if s.len() > 0 && p(s[0]) {
        trim_start_by(s.drop_first(), p)
    } else {
        s
    }
}

pub open spec fn trim_end_by(s: Seq<char>, p: spec_fn(char) -> bool) -> Seq<char>
    decreases s.len(),
{
    if s.len() > 0 && p(s.last()) {
        trim_end_by(s.drop_last(), p)
    } else {
        s
    }
}

/// `s` without the leading and trailing characters that satisfy `p`
/// (`str::trim_matches`).
pub open spec fn trim_by(s: Seq<char>, p: spec_fn(char) -> bool) -> Seq<char> {
    trim_end_by(trim_start_by(s, p), p)
}

/// `str::trim`: `s` without leading and trailing Unicode whitespace.
pub open spec fn trim_spec(s: Seq<char>) -> Seq<char> {
    trim_by(s, class_pred(CharClass::Whitespace))
}

/// The bounds of `v` once the characters of `cls` are trimmed from both ends.
pub fn trim_bounds(v: &Vec<char>, cls: &CharClass) -> (r: (usize, usize))
    ensures
        r.0 <= r.1 <= v@.len(),
        v@.subrange(r.0 as int, r.1 as int) == trim_by(v@, class_pred(*cls)),
{
    let ghost p = class_pred(*cls);
    let mut i: usize = 0;
    assert(v@.skip(0) =~= v@);
    while i < v.len() && in_class(cls, v[i])
        invariant
            i <= v@.len(),
            p == class_pred(*cls),
            trim_start_by(v@, p) == trim_start_by(v@.skip(i as int), p),
        decreases v.len() - i,
    {
        assert(v@.skip(i as int).drop_first() =~= v@.skip(i + 1));
        i += 1;
    }
    if i < v.len() {
        assert(v@.skip(i as int)[0] == v@[i as int]);
    } else {
        assert(v@.skip(i as int).len() == 0);
    }
    assert(trim_start_by(v@, p) == v@.skip(i as int));
    assert(v@.skip(i as int) =~= v@.subrange(i as int, v@.len() as int));
    let mut j: usize = v.len();
    while j > i && in_class(cls, v[j - 1])
        invariant
            i <= j <= v@.len(),
            p == class_pred(*cls),
            trim_start_by(v@, p) == v@.subrange(i as int, v@.len() as int),
            trim_end_by(v@.subrange(i as int, v@.len() as int), p) == trim_end_by(
                v@.subrange(i as int, j as int),
                p,
            ),
        decreases j,
    {
        assert(v@.subrange(i as int, j as int).drop_last() =~= v@.subrange(i as int, j - 1));
        j -= 1;
    }
    if j > i {
        assert(v@.subrange(i as int, j as int).last() == v@[j - 1]);
    }
    (i, j)
}

/// `str::trim`.
pub fn trim(s: &str) -> (r: String)
    ensures
        r@ == trim_spec(s@),
{
    let v = chars_of(s);
    let (lo, hi) = trim_bounds(&v, &CharClass::Whitespace);
    string_of_range(&v, lo, hi)
}

// ---------------------------------------------------------------------------
// Splitting
// ---------------------------------------------------------------------------

/// `str::split` with a character predicate: the pieces between separators;
/// `n` separators give `n + 1` pieces.
pub open spec fn split_by(s: Seq<char>, p: spec_fn(char) -> bool) -> Seq<Seq<char>>
    decreases s.len(),
{
    if s.len() == 0 {
        seq![Seq::<char>::empty()]
    } else {
        let r = split_by(s.drop_last(), p);
        if p(s.last()) {
            r.push(Seq::<char>::empty())
        } else {
            r.update(r.len() - 1, r.last().push(s.last()))
        }
    }
}

pub proof fn lemma_split_by_len(s: Seq<char>, p: spec_fn(char) -> bool)
    ensures
        split_by(s, p).len() >= 1,
    decreases s.len(),
{
    if s.len() > 0 {
        lemma_split_by_len(s.drop_last(), p);
    }
}

pub open spec fn views(v: Seq<String>) -> Seq<Seq<char>> {
    v.map_values(|x: String| x@)
}

/// The pieces of `s` between characters of `cls`.
pub fn split_class(s: &str, cls: &CharClass) -> (r: Vec<String>)
    ensures
        views(r@) == split_by(s@, class_pred(*cls)),
{
    let ghost p = class_pred(*cls);
    let v = chars_of(s);
    let mut pieces: Vec<String> = Vec::new();
    let mut cur = String::new();
    let mut i: usize = 0;
    assert(v@.take(0) =~= Seq::<char>::empty());
    assert(views(pieces@).push(cur@) =~= seq![Seq::<char>::empty()]);
    while i < v.len()
        invariant
            i <= v@.len(),
            v@ == s@,
            p == class_pred(*cls),
            views(pieces@).push(cur@) == split_by(v@.take(i as int), p),
        decreases v.len() - i,
    {
        let c = v[i];
        let ghost old_pieces = pieces@;
        let ghost old_cur = cur@;
        assert(v@.take(i + 1).drop_last() =~= v@.take(i as int));
        assert(v@.take(i + 1).last() == c);
        if in_class(cls, c) {
            let done = cur;
            pieces.push(done);
            cur = String::new();
            assert(views(pieces@) =~= views(old_pieces).push(old_cur));
            assert(views(pieces@).push(cur@) =~= views(old_pieces).push(old_cur).push(
                Seq::<char>::empty(),
            ));
        } else {
            push_char(&mut cur, c);
            assert(views(pieces@).push(cur@) =~= views(old_pieces).push(old_cur).update(
                views(old_pieces).len() as int,
                old_cur.push(c),
            ));
        }
        i += 1;
    }
    assert(v@.take(v@.len() as int) =~= v@);
    let ghost before = pieces@;
    pieces.push(cur);
    assert(views(pieces@) =~= views(before).push(cur@));
    pieces
}


/// The non-empty pieces of a split, in order.
pub open spec fn nonempty_pieces(ps: Seq<Seq<char>>) -> Seq<Seq<char>>
    decreases ps.len(),
{
    if ps.len() == 0 {
        ps
    } else if ps.last().len() == 0 {
        nonempty_pieces(ps.drop_last())
    } else {
        nonempty_pieces(ps.drop_last()).push(ps.last())
    }
}

/// `str::split_whitespace`: the maximal runs of non-whitespace characters.
pub open spec fn split_whitespace_spec(s: Seq<char>) -> Seq<Seq<char>> {
    nonempty_pieces(split_by(s, class_pred(CharClass::Whitespace)))
}

/// `str::split_whitespace`.
pub fn split_whitespace(s: &str) -> (r: Vec<String>)
    ensures
        views(r@) == split_whitespace_spec(s@),
{
    let pieces = split_class(s, &CharClass::Whitespace);
    let ghost ps = views(pieces@);
    let mut out: Vec<String> = Vec::new();
    let mut i: usize = 0;
    assert(ps.take(0) =~= Seq::<Seq<char>>::empty());
    while i < pieces.len()
        invariant
            i <= pieces@.len(),
            ps == views(pieces@),
            views(out@) == nonempty_pieces(ps.take(i as int)),
        decreases pieces.len() - i,
    {
        assert(ps.take(i + 1).drop_last() =~= ps.take(i as int));
        assert(ps.take(i + 1).last() == pieces@[i as int]@);
        if !pieces[i].as_str().is_empty() {
            let ghost before = out@;
            out.push(pieces[i].clone());
            assert(views(out@) =~= views(before).push(pieces@[i as int]@));
        } else {
            assert(pieces@[i as int]@.len() == 0);
        }
        i += 1;
    }
    assert(ps.take(pieces@.len() as int) =~= ps);
    out
}

// ---------------------------------------------------------------------------
// Searching
// ---------------------------------------------------------------------------

/// The index of the first `c` in `s`, if any.
pub open spec fn find_char(s: Seq<char>, c: char) -> Option<int>
    decreases s.len(),
{
    if s.len() == 0 {
        None
    } else if s[0] == c {
        Some(0)
    } else {
        match find_char(s.drop_first(), c) {
            Some(i) => Some(i + 1),
            None => None,
        }
    }
}

pub proof fn lemma_find_char(s: Seq<char>, c: char, i: int)
    requires
        0 <= i <= s.len(),
        forall|k: int| 0 <= k < i ==> s[k] != c,
    ensures
        i < s.len() && s[i] == c ==> find_char(s, c) == Some(i),
        i == s.len() ==> find_char(s, c) is None,
    decreases i,
{
    if i > 0 {
        lemma_find_char(s.drop_first(), c, i - 1);
    } else if s.len() > 0 {
    }
}

/// `str::find` with a `char` pattern, counted in characters.
pub fn find_char_in(v: &Vec<char>, c: char) -> (r: Option<usize>)
    ensures
        match r {
            Some(i) => find_char(v@, c) == Some(i as int) && i < v@.len(),
            None => find_char(v@, c) is None,
        },
{
    let mut i: usize = 0;
    while i < v.len()
        invariant
            i <= v@.len(),
            forall|k: int| 0 <= k < i ==> v@[k] != c,
        decreases v.len() - i,
    {
        if v[i] == c {
            proof {
                lemma_find_char(v@, c, i as int);
            }
            return Some(i);
        }
        i += 1;
    }
    proof {
        lemma_find_char(v@, c, i as int);
    }
    None
}

/// Whether `pat` occurs in `v` at position `i`.
pub fn matches_at(v: &Vec<char>, i: usize, pat: &Vec<char>) -> (r: bool)
    requires
        i <= v@.len(),
    ensures
        r == pat@.is_prefix_of(v@.skip(i as int)),
{
    if pat.len() > v.len() - i {
        return false;
    }
    let mut k: usize = 0;
    while k < pat.len()
        invariant
            k <= pat@.len(),
            i + pat@.len() <= v@.len() <= usize::MAX,
            forall|j: int| 0 <= j < k ==> pat@[j] == v@[i + j],
        decreases pat.len() - k,
    {
        if pat[k] != v[i + k] {
            assert(v@.skip(i as int)[k as int] == v@[i + k]);
            return false;
        }
        k += 1;
    }
    assert(pat@ =~= v@.skip(i as int).subrange(0, pat@.len() as int));
    true
}

/// `str::starts_with`.
pub fn starts_with(s: &str, pat: &str) -> (r: bool)
    ensures
        r == pat@.is_prefix_of(s@),
{
    let v = chars_of(s);
    let p = chars_of(pat);
    assert(v@.skip(0) =~= v@);
    matches_at(&v, 0, &p)
}

/// `str::ends_with`.
pub fn ends_with(s: &str, pat: &str) -> (r: bool)
    ensures
        r == pat@.is_suffix_of(s@),
{
    let v = chars_of(s);
    let p = chars_of(pat);
    if p.len() > v.len() {
        return false;
    }
    let i = v.len() - p.len();
    let r = matches_at(&v, i, &p);
    assert(v@.skip(i as int).subrange(0, p@.len() as int) =~= v@.subrange(
        v@.len() - p@.len(),
        v@.len() as int,
    ));
    r
}

/// Whether `sub` occurs anywhere in `s`.
pub open spec fn contains_seq(s: Seq<char>, sub: Seq<char>) -> bool {
    exists|i: int| 0 <= i <= s.len() && #[trigger] sub.is_prefix_of(s.skip(i))
}

/// `str::contains` with a string pattern.
pub fn contains_str(s: &str, sub: &str) -> (r: bool)
    ensures
        r == contains_seq(s@, sub@),
{
    let v = chars_of(s);
    let p = chars_of(sub);
    let mut i: usize = 0;
    while i < v.len()
        invariant
            i <= v@.len(),
            v@ == s@,
            p@ == sub@,
            forall|j: int| 0 <= j < i ==> !#[trigger] p@.is_prefix_of(v@.skip(j)),
        decreases v.len() - i,
    {
        if matches_at(&v, i, &p) {
            return true;
        }
        i += 1;
    }
    matches_at(&v, i, &p)
}

/// `str::contains` with a `char` pattern.
pub fn contains_char(s: &str, c: char) -> (r: bool)
    ensures
        r == s@.contains(c),
{
    let v = chars_of(s);
    let i = find_char_in(&v, c);
    proof {
        lemma_find_char_contains(v@, c);
    }
    i.is_some()
}

pub proof fn lemma_find_char_contains(s: Seq<char>, c: char)
    ensures
        (find_char(s, c) is Some) == s.contains(c),
        find_char(s, c) matches Some(i) ==> 0 <= i < s.len() && s[i] == c && forall|k: int|
            0 <= k < i ==> s[k] != c,
    decreases s.len(),
{
    if s.len() > 0 {
        lemma_find_char_contains(s.drop_first(), c);
        if s[0] != c {
            if let Some(j) = find_char(s.drop_first(), c) {
                assert forall|k: int| 0 <= k < j + 1 implies s[k] != c by {
                    if k > 0 {
                        assert(s[k] == s.drop_first()[k - 1]);
                    }
                }
            }
            if s.contains(c) {
                let k = choose|k: int| 0 <= k < s.len() && s[k] == c;
                assert(s.drop_first()[k - 1] == c);
            }
            if s.drop_first().contains(c) {
                let k = choose|k: int| 0 <= k < s.drop_first().len() && s.drop_first()[k] == c;
                assert(s[k + 1] == c);
            }
        } else {
            assert(s[0] == c);
        }
    }
}

// ---------------------------------------------------------------------------
// Replacing
// ---------------------------------------------------------------------------

/// `str::replace`: every non-overlapping occurrence of `pat`, left to right,
/// replaced by `rep`; an empty pattern matches before each character and at
/// the end.
pub open spec fn replace_spec(s: Seq<char>, pat: Seq<char>, rep: Seq<char>) -> Seq<char>
    decreases s.len(), pat.len(),
{
    if pat.len() == 0 {
        if s.len() == 0 {
            rep
        } else {
            rep + seq![s[0]] + replace_spec(s.drop_first(), pat, rep)
        }
    } else if s.len() == 0 {
        s
    } else if pat.is_prefix_of(s) {
        rep + replace_spec(s.skip(pat.len() as int), pat, rep)
    } else {
        seq![s[0]] + replace_spec(s.drop_first(), pat, rep)
    }
}

/// `str::replace`.
pub fn replace(s: &str, pat: &str, rep: &str) -> (r: String)
    ensures
        r@ == replace_spec(s@, pat@, rep@),
{
    let v = chars_of(s);
    let p = chars_of(pat);
    let mut out = String::new();
    let mut i: usize = 0;
    assert(v@.skip(0) =~= v@);
    while i < v.len()
        invariant
            i <= v@.len(),
            v@ == s@,
            p@ == pat@,
            replace_spec(s@, pat@, rep@) == out@ + replace_spec(v@.skip(i as int), pat@, rep@),
        decreases v.len() - i,
    {
        let ghost rest = v@.skip(i as int);
        assert(rest[0] == v@[i as int]);
        assert(rest.drop_first() =~= v@.skip(i + 1));
        if p.len() == 0 {
            let ghost before = out@;
            out.append(rep);
            push_char(&mut out, v[i]);
            assert(out@ =~= before + rep@ + seq![v@[i as int]]);
            i += 1;
        } else if matches_at(&v, i, &p) {
            let ghost before = out@;
            out.append(rep);
            assert(rest.skip(p@.len() as int) =~= v@.skip(i + p@.len()));
            i += p.len();
        } else {
            let ghost before = out@;
            push_char(&mut out, v[i]);
            assert(out@ =~= before + seq![v@[i as int]]);
            i += 1;
        }
    }
    if p.len() == 0 {
        out.append(rep);
    }
    out
}

// ---------------------------------------------------------------------------
// Joining
// ---------------------------------------------------------------------------

/// `[&str]::join`.
pub open spec fn join_spec(parts: Seq<Seq<char>>, sep: Seq<char>) -> Seq<char>
    decreases parts.len(),
{
    if parts.len() == 0 {
        Seq::<char>::empty()
    } else if parts.len() == 1 {
        parts[0]
    } else {
        join_spec(parts.drop_last(), sep) + sep + parts.last()
    }
}

/// The parts, with `sep` between each two.
pub fn join(parts: &Vec<String>, sep: &str) -> (r: String)
    ensures
        r@ == join_spec(views(parts@), sep@),
{
    let mut out = String::new();
    let mut i: usize = 0;
    assert(views(parts@).take(0) =~= Seq::<Seq<char>>::empty());
    while i < parts.len()
        invariant
            i <= parts@.len(),
            out@ == join_spec(views(parts@).take(i as int), sep@),
        decreases parts.len() - i,
    {
        assert(views(parts@).take(i + 1).drop_last() =~= views(parts@).take(i as int));
        assert(views(parts@).take(i + 1).last() == parts@[i as int]@);
        if i > 0 {
            out.append(sep);
        } else {
            assert(views(parts@).take(1)[0] == parts@[0]@);
        }
        out.append(parts[i].as_str());
        i += 1;
    }
    assert(views(parts@).take(parts@.len() as int) =~= views(parts@));
    out
}


// ---------------------------------------------------------------------------
// Lines
// ---------------------------------------------------------------------------

/// A line as `str::lines` yields it when a `\n` ended it: a final `\r` is
/// dropped too.
pub open spec fn strip_cr(l: Seq<char>) -> Seq<char> {
    if l.len() > 0 && l.last() == '\r' {
        l.drop_last()
    } else {
        l
    }
}

/// `str::lines`: the pieces between `\n`s; a last empty piece is not a line,
/// and `\r` is dropped from the end of each line that a `\n` ended.
pub open spec fn lines_spec(s: Seq<char>) -> Seq<Seq<char>> {
    let ps = split_by(s, char_in(seq!['\n']));
    let n = if ps.last().len() == 0 {
        ps.len() - 1
    } else {
        ps.len() as int
    };
    Seq::new(
        n as nat,
        |i: int|
            if i < ps.len() - 1 {
                strip_cr(ps[i])
            } else {
                ps[i]
            },
    )
}


/// `str::lines`.
pub fn lines(s: &str) -> (r: Vec<String>)
    ensures
        views(r@) == lines_spec(s@),
{
    let mut nl: Vec<char> = Vec::new();
    nl.push('\n');
    assert(nl@ =~= seq!['\n']);
    let cls = CharClass::OneOf(nl);
    let pieces = split_class(s, &cls);
    assert(class_pred(cls) =~= char_in(seq!['\n']));
    let ghost ps = split_by(s@, char_in(seq!['\n']));
    proof {
        lemma_split_by_len(s@, char_in(seq!['\n']));
    }
    let n = pieces.len();
    let last_empty = pieces[n - 1].as_str().is_empty();
    let count = if last_empty { n - 1 } else { n };
    let mut out: Vec<String> = Vec::new();
    let mut i: usize = 0;
    while i < count
        invariant
            count <= n == pieces@.len(),
            views(pieces@) == ps,
            i <= count,
            out@.len() == i,
            forall|k: int| 0 <= k < i ==> #[trigger] out@[k]@ == lines_spec(s@)[k],
            lines_spec(s@).len() == count,
            ps == split_by(s@, char_in(seq!['\n'])),
        decreases count - i,
    {
        let piece = pieces[i].as_str();
        assert(piece@ == ps[i as int]);
        if i < n - 1 && ends_with(piece, "\r") {
            proof {
                reveal_strlit("\r");
                assert("\r"@ =~= seq!['\r']);
                assert(piece@.subrange(piece@.len() - 1, piece@.len() as int)[0] == piece@.last());
                assert(piece@.last() == '\r');
            }
            let v = chars_of(piece);
            let l = string_of_range(&v, 0, v.len() - 1);
            assert(l@ =~= piece@.drop_last());
            assert(lines_spec(s@)[i as int] == strip_cr(ps[i as int]));
            out.push(l);
        } else {
            proof {
                reveal_strlit("\r");
                if i < n - 1 && piece@.len() > 0 && piece@.last() == '\r' {
                    assert(seq!['\r'].is_suffix_of(piece@));
                }
                assert(lines_spec(s@)[i as int] == piece@);
            }
            out.push(piece.to_owned());
        }
        i += 1;
    }
    assert(views(out@) =~= lines_spec(s@));
    out
}

/// `str::strip_prefix`.
pub open spec fn strip_prefix_spec(s: Seq<char>, pre: Seq<char>) -> Option<Seq<char>> {
    if pre.is_prefix_of(s) {
        Some(s.skip(pre.len() as int))
    } else {
        None
    }
}

/// `str::strip_prefix`.
pub fn strip_prefix(s: &str, pre: &str) -> (r: Option<String>)
    ensures
        match r {
            Some(x) => strip_prefix_spec(s@, pre@) == Some(x@),
            None => strip_prefix_spec(s@, pre@) is None,
        },
{
    let v = chars_of(s);
    let p = chars_of(pre);
    assert(v@.skip(0) =~= v@);
    if matches_at(&v, 0, &p) {
        let r = string_of_range(&v, p.len(), v.len());
        assert(r@ =~= s@.skip(pre@.len() as int));
        Some(r)
    } else {
        None
    }
}

// ---------------------------------------------------------------------------
// Decimal numbers
// ---------------------------------------------------------------------------

/// The decimal digit for `d < 10`.
pub open spec fn digit_char(d: nat) -> char {
    ((d + 48) as u8) as char
}

/// The decimal representation of `n`, as `Display` writes it for an
/// unsigned integer.
pub open spec fn decimal(n: nat) -> Seq<char>
    decreases n,
{
    if n < 10 {
        seq![digit_char(n)]
    } else {
        decimal(n / 10).push(digit_char(n % 10))
    }
}

/// `u32::to_string`.
pub fn u32_to_string(n: u32) -> (s: String)
    ensures
        s@ == decimal(n as nat),
    decreases n,
{
    if n < 10 {
        let mut s = String::new();
        let b: u8 = (n as u8) + 48;
        push_char(&mut s, b as char);
        s
    } else {
        let mut s = u32_to_string(n / 10);
        let b: u8 = ((n % 10) as u8) + 48;
        push_char(&mut s, b as char);
        s
    }
}

/// `u64::to_string`.
pub fn u64_to_string(n: u64) -> (s: String)
    ensures
        s@ == decimal(n as nat),
    decreases n,
{
    if n < 10 {
        let mut s = String::new();
        let b: u8 = (n as u8) + 48;
        push_char(&mut s, b as char);
        s
    } else {
        let mut s = u64_to_string(n / 10);
        let b: u8 = ((n % 10) as u8) + 48;
        push_char(&mut s, b as char);
        s
    }
}

pub open spec fn is_digit(c: char) -> bool {
    '0' <= c && c <= '9'
}

/// The value of a string of decimal digits.
pub open spec fn digits_value(s: Seq<char>) -> nat
    decreases s.len(),
{
    if s.len() == 0 {
        0
    } else {
        digits_value(s.drop_last()) * 10 + ((s.last() as u32) - 48) as nat
    }
}

/// `s` without one leading `+`.
pub open spec fn unsigned_digits(s: Seq<char>) -> Seq<char> {
    if s.len() > 0 && s[0] == '+' {
        s.drop_first()
    } else {
        s
    }
}

pub open spec fn all_digits(d: Seq<char>) -> bool {
    forall|i: int| 0 <= i < d.len() ==> is_digit(#[trigger] d[i])
}

/// `u32::from_str`: an optional `+`, then one or more ASCII digits whose
/// value fits in a `u32`.
pub open spec fn parse_u32_spec(s: Seq<char>) -> Option<u32> {
    let d = unsigned_digits(s);
    if d.len() == 0 || !all_digits(d) {
        None
    } else if digits_value(d) > u32::MAX {
        None
    } else {
        Some(digits_value(d) as u32)
    }
}

/// `str::parse::<u32>`, with the error dropped.
pub fn parse_u32(s: &str) -> (r: Option<u32>)
    ensures
        r == parse_u32_spec(s@),
{
    let v = chars_of(s);
    let start: usize = if v.len() > 0 && v[0] == '+' { 1 } else { 0 };
    let ghost d = unsigned_digits(s@);
    assert(d =~= v@.skip(start as int));
    if start == v.len() {
        return None;
    }
    let bound: u64 = 0x1_0000_0000;
    let mut acc: u64 = 0;
    let mut i: usize = start;
    assert(d.take(0) =~= Seq::<char>::empty());
    while i < v.len()
        invariant
            start <= i <= v@.len(),
            d == v@.skip(start as int),
            v@ == s@,
            d == unsigned_digits(s@),
            bound == 0x1_0000_0000,
            forall|k: int| 0 <= k < i - start ==> is_digit(#[trigger] d[k]),
            acc as nat == if digits_value(d.take(i - start)) < bound {
                digits_value(d.take(i - start))
            } else {
                bound as nat
            },
        decreases v.len() - i,
    {
        let c = v[i];
        assert(d[i - start] == c);
        if !('0' <= c && c <= '9') {
            assert(!is_digit(d[i - start]));
            assert(!all_digits(d));
            return None;
        }
        let dv: u64 = ((c as u32) - 48) as u64;
        let ghost prev = digits_value(d.take(i - start));
        assert(d.take(i - start + 1).drop_last() =~= d.take(i - start));
        assert(digits_value(d.take(i - start + 1)) == prev * 10 + dv);
        if acc >= bound {
            assert(prev >= bound);
            assert(prev * 10 + dv >= bound) by (nonlinear_arith)
                requires
                    prev >= bound,
                    dv >= 0,
            ;
            acc = bound;
        } else {
            assert(acc * 10 + dv <= 0x1_0000_0000 * 10) by (nonlinear_arith)
                requires
                    acc < 0x1_0000_0000,
                    dv < 10,
            ;
            let next = acc * 10 + dv;
            acc = if next >= bound { bound } else { next };
        }
        i += 1;
    }
    assert(d.take(v@.len() - start) =~= d);
    if acc >= bound {
        None
    } else {
        Some(acc as u32)
    }
}

} // verus!
