//! Small verified text helpers: string equality, ASCII lowering, separator
//! positions, and attribute lookup, with the spec functions the rest of the
//! crate states its contracts over.

use vstd::prelude::*;

verus! {

/// Character-by-character string equality, proved equivalent to equality of
/// the views.
pub fn str_eq(a: &str, b: &str) -> (r: bool)
    ensures
        r == (a@ == b@),
{
    let la = a.unicode_len();
    let lb = b.unicode_len();
    if la != lb {
        assert(a@ =~= b@ ==> a@.len() == b@.len());
        return false;
    }
    let mut i: usize = 0;
    while i < la
        invariant
            i <= la,
            la == a@.len(),
            la == b@.len(),
            forall|j: int| 0 <= j < i ==> a@[j] == b@[j],
        decreases la - i,
    {
        if a.get_char(i) != b.get_char(i) {
            return false;
        }
        i = i + 1;
    }
    assert(a@ =~= b@);
    true
}

/// The ASCII-lowered form of one character: letters `A` through `Z` move to
/// their lower-case form, everything else is unchanged.
pub open spec fn lower_char(c: char) -> char {
    if 'A' <= c && c <= 'Z' {
        ((c as u8) + 0x20) as char
    } else {
        c
    }
}

/// The ASCII-lowered form of a character sequence.
pub open spec fn lower(s: Seq<char>) -> Seq<char> {
    s.map_values(|c: char| lower_char(c))
}

/// Relies on `str::to_ascii_lowercase`: ASCII upper-case letters are mapped
/// to lower case and every other character is returned unchanged.
#[verifier::external_body]
pub fn to_lower(s: &str) -> (r: String)
    ensures
        r@ == lower(s@),
{
    s.to_ascii_lowercase()
}

/// The positions (in character indices) at which `sep` occurs in `s`, in
/// increasing order.
pub open spec fn sep_positions(s: Seq<char>, sep: char) -> Seq<int>
    decreases s.len(),
{
    if s.len() == 0 {
        seq![]
    } else if s.last() == sep {
        sep_positions(s.drop_last(), sep) + seq![s.len() - 1]
    } else {
        sep_positions(s.drop_last(), sep)
    }
}

/// Every reported position is a real occurrence of the separator, and they
/// are strictly increasing.
pub proof fn lemma_sep_positions_sound(s: Seq<char>, sep: char)
    ensures
        forall|k: int|
            0 <= k < sep_positions(s, sep).len() ==> 0 <= #[trigger] sep_positions(s, sep)[k]
                < s.len() && s[sep_positions(s, sep)[k]] == sep,
        forall|k: int, l: int|
            0 <= k < l < sep_positions(s, sep).len() ==> #[trigger] sep_positions(s, sep)[k]
                < #[trigger] sep_positions(s, sep)[l],
    decreases s.len(),
{
    if s.len() > 0 {
        lemma_sep_positions_sound(s.drop_last(), sep);
        let p = sep_positions(s, sep);
        let q = sep_positions(s.drop_last(), sep);
        assert(forall|k: int| 0 <= k < q.len() ==> #[trigger] p[k] == q[k]);
        assert(forall|k: int|
            0 <= k < q.len() ==> s.drop_last()[#[trigger] q[k]] == s[q[k]]);
        assert(forall|k: int| 0 <= k < q.len() ==> #[trigger] q[k] < s.len() - 1);
    }
}

/// A sequence without the separator has no separator positions.
pub proof fn lemma_sep_positions_none(s: Seq<char>, sep: char)
    requires
        forall|i: int| 0 <= i < s.len() ==> s[i] != sep,
    ensures
        sep_positions(s, sep).len() == 0,
    decreases s.len(),
{
    if s.len() > 0 {
        lemma_sep_positions_none(s.drop_last(), sep);
    }
}

/// Joining two separator-free sequences with one separator puts exactly one
/// separator position in the result: the length of the first part.
pub proof fn lemma_sep_positions_single(a: Seq<char>, b: Seq<char>, sep: char)
    requires
        forall|i: int| 0 <= i < a.len() ==> a[i] != sep,
        forall|i: int| 0 <= i < b.len() ==> b[i] != sep,
    ensures
        sep_positions(a + seq![sep] + b, sep) == seq![a.len() as int],
    decreases b.len(),
{
    let t = a + seq![sep] + b;
    if b.len() == 0 {
        assert(t.drop_last() =~= a);
        assert(t.last() == sep);
        lemma_sep_positions_none(a, sep);
        assert(sep_positions(t, sep) =~= seq![a.len() as int]);
    } else {
        assert(t.drop_last() =~= a + seq![sep] + b.drop_last());
        assert(t.last() == b.last());
        lemma_sep_positions_single(a, b.drop_last(), sep);
    }
}

/// Find the positions of `sep` in `s`, as executable code.
pub fn find_sep_positions(s: &str, sep: char) -> (r: Vec<usize>)
    ensures
        r@.map_values(|p: usize| p as int) == sep_positions(s@, sep),
{
    let n = s.unicode_len();
    let mut out: Vec<usize> = Vec::new();
    let mut i: usize = 0;
    while i < n
        invariant
            i <= n,
            n == s@.len(),
            out@.map_values(|p: usize| p as int) == sep_positions(s@.take(i as int), sep),
        decreases n - i,
    {
        let ghost prefix = s@.take(i as int);
        let c = s.get_char(i);
        if c == sep {
            out.push(i);
        }
        proof {
            assert(s@.take(i + 1 as int).drop_last() =~= prefix);
            assert(s@.take(i + 1 as int).last() == s@[i as int]);
            if c == sep {
                assert(out@.map_values(|p: usize| p as int) =~= sep_positions(prefix, sep) + seq![
                    i as int,
                ]);
            }
        }
        i = i + 1;
    }
    proof {
        assert(s@.take(n as int) =~= s@);
    }
    out
}

/// The value of the last attribute named `key` in `attrs`, if any: when a
/// key is repeated, the later occurrence wins.
pub open spec fn last_attr(attrs: Seq<(String, String)>, key: Seq<char>) -> Option<Seq<char>>
    decreases attrs.len(),
{
    if attrs.len() == 0 {
        None
    } else if attrs.last().0@ == key {
        Some(attrs.last().1@)
    } else {
        last_attr(attrs.drop_last(), key)
    }
}

/// Scan an attribute list for the last occurrence of `key`.
pub fn find_last_attr(attrs: &Vec<(String, String)>, key: &str) -> (r: Option<String>)
    ensures
        match r {
            Some(v) => last_attr(attrs@, key@) == Some(v@),
            None => last_attr(attrs@, key@) is None,
        },
{
    let n = attrs.len();
    proof {
        assert(attrs@.take(n as int) =~= attrs@);
    }
    let mut i: usize = n;
    while i > 0
        invariant
            i <= n,
            n == attrs@.len(),
            last_attr(attrs@, key@) == last_attr(attrs@.take(i as int), key@),
        decreases i,
    {
        let ghost prefix = attrs@.take(i as int);
        proof {
            assert(prefix.drop_last() =~= attrs@.take(i - 1 as int));
            assert(prefix.last() == attrs@[i - 1 as int]);
        }
        if str_eq(attrs[i - 1].0.as_str(), key) {
            return Some(attrs[i - 1].1.clone());
        }
        i = i - 1;
    }
    proof {
        assert(attrs@.take(0) =~= Seq::<(String, String)>::empty());
    }
    None
}

/// Where position `k` holds the last occurrence of `key`, the lookup finds
/// its value.
pub proof fn lemma_last_attr_at(attrs: Seq<(String, String)>, key: Seq<char>, k: int)
    requires
        0 <= k < attrs.len(),
        attrs[k].0@ == key,
        forall|j: int| k < j < attrs.len() ==> (#[trigger] attrs[j]).0@ != key,
    ensures
        last_attr(attrs, key) == Some(attrs[k].1@),
    decreases attrs.len(),
{
    if k < attrs.len() - 1 {
        assert(attrs.last() == attrs[attrs.len() - 1]);
        assert(forall|j: int|
            0 <= j < attrs.len() - 1 ==> #[trigger] attrs.drop_last()[j] == attrs[j]);
        lemma_last_attr_at(attrs.drop_last(), key, k);
    }
}

/// The value of the last attribute named `key` in a view-level attribute
/// list.
pub open spec fn attr_value(attrs: Seq<(Seq<char>, Seq<char>)>, key: Seq<char>) -> Option<
    Seq<char>,
>
    decreases attrs.len(),
{
    if attrs.len() == 0 {
        None
    } else if attrs.last().0 == key {
        Some(attrs.last().1)
    } else {
        attr_value(attrs.drop_last(), key)
    }
}

/// Where position `k` holds the last occurrence of `key` in a view-level
/// list, the lookup finds its value.
pub proof fn lemma_attr_value_at(attrs: Seq<(Seq<char>, Seq<char>)>, key: Seq<char>, k: int)
    requires
        0 <= k < attrs.len(),
        attrs[k].0 == key,
        forall|j: int| k < j < attrs.len() ==> (#[trigger] attrs[j]).0 != key,
    ensures
        attr_value(attrs, key) == Some(attrs[k].1),
    decreases attrs.len(),
{
    if k < attrs.len() - 1 {
        assert(attrs.last() == attrs[attrs.len() - 1]);
        assert(forall|j: int|
            0 <= j < attrs.len() - 1 ==> #[trigger] attrs.drop_last()[j] == attrs[j]);
        lemma_attr_value_at(attrs.drop_last(), key, k);
    }
}

/// The views of an attribute list: each pair of strings as a pair of
/// character sequences.
pub open spec fn kv_views(attrs: Seq<(String, String)>) -> Seq<(Seq<char>, Seq<char>)> {
    attrs.map_values(|kv: (String, String)| (kv.0@, kv.1@))
}

} // verus!
