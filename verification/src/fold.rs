//! The case-fold comparator: the one algorithm both wrapper types apply.
//!
//! A character is folded by mapping an ASCII uppercase letter to its
//! lowercase form and leaving every other character (including non-ASCII
//! case pairs) unchanged. Equality, ordering and hashing of the wrapper
//! types are all defined over the folded character sequence, stated here by
//! [`caseless_equal`] and [`caseless_cmp`].

use core::cmp::Ordering;
use vstd::prelude::*;
use vstd::string::StrSliceExecFns;

verus! {

/// ASCII case folding of a single character: `A`..`Z` map to `a`..`z`,
/// every other character is unchanged.
pub open spec fn fold_char(c: char) -> char {
    if 'A' <= c && c <= 'Z' {
        (((c as u32) + 32) as u8) as char
    } else {
        c
    }
}

/// ASCII case folding of a character sequence, element-wise.
pub open spec fn fold_seq(s: Seq<char>) -> Seq<char> {
    Seq::new(s.len(), |i: int| fold_char(s[i]))
}

/// Case-insensitive equality: the folded character sequences are identical.
pub open spec fn caseless_equal(a: Seq<char>, b: Seq<char>) -> bool {
    fold_seq(a) == fold_seq(b)
}

/// Lexicographic comparison of two character sequences by code point.
pub open spec fn lex_cmp(a: Seq<char>, b: Seq<char>) -> Ordering
    decreases a.len(),
{
    if a.len() == 0 && b.len() == 0 {
        Ordering::Equal
    } else if a.len() == 0 {
        Ordering::Less
    } else if b.len() == 0 {
        Ordering::Greater
    } else if (a[0] as u32) < (b[0] as u32) {
        Ordering::Less
    } else if (b[0] as u32) < (a[0] as u32) {
        Ordering::Greater
    } else {
        lex_cmp(a.drop_first(), b.drop_first())
    }
}

/// Case-insensitive ordering: lexicographic comparison of the folded
/// character sequences.
pub open spec fn caseless_cmp(a: Seq<char>, b: Seq<char>) -> Ordering {
    lex_cmp(fold_seq(a), fold_seq(b))
}

/// Law: folding alters exactly the ASCII uppercase letters; every other
/// character, lowercase ASCII and non-ASCII alike, passes through unchanged.
pub proof fn lemma_fold_char_passthrough(c: char)
    ensures
        fold_char(c) == c <==> !('A' <= c && c <= 'Z'),
{
}

/// Law: a sequence without ASCII uppercase letters is left unchanged by
/// folding.
pub proof fn lemma_fold_seq_passthrough(s: Seq<char>)
    requires
        forall|i: int| 0 <= i < s.len() ==> !('A' <= #[trigger] s[i] && s[i] <= 'Z'),
    ensures
        fold_seq(s) == s,
{
    assert(fold_seq(s) =~= s);
}

/// Two characters with the same code point are the same character.
proof fn lemma_char_eq_from_u32(x: char, y: char)
    requires
        x as u32 == y as u32,
    ensures
        x == y,
{
    vstd::utf8::char_u32_cast(x, x as u32);
    vstd::utf8::char_u32_cast(y, y as u32);
}

/// Lexicographic comparison is `Equal` exactly on equal sequences.
pub proof fn lemma_lex_cmp_equal_iff(a: Seq<char>, b: Seq<char>)
    ensures
        lex_cmp(a, b) == Ordering::Equal <==> a == b,
    decreases a.len(),
{
    if a.len() == 0 && b.len() == 0 {
        assert(a =~= b);
    } else if a.len() == 0 || b.len() == 0 {
        assert(a.len() != b.len());
    } else if (a[0] as u32) < (b[0] as u32) || (b[0] as u32) < (a[0] as u32) {
        assert(a[0] != b[0]);
    } else {
        lemma_char_eq_from_u32(a[0], b[0]);
        lemma_lex_cmp_equal_iff(a.drop_first(), b.drop_first());
        if lex_cmp(a, b) == Ordering::Equal {
            assert(a.drop_first() == b.drop_first());
            assert forall|i: int| 0 <= i < a.len() implies a[i] == b[i] by {
                if i > 0 {
                    assert(a[i] == a.drop_first()[i - 1]);
                    assert(b[i] == b.drop_first()[i - 1]);
                }
            }
            assert(a =~= b);
        } else {
            assert(a.drop_first() != b.drop_first());
            if a == b {
                assert(a.drop_first() =~= b.drop_first());
            }
        }
    }
}

/// Lexicographic comparison is antisymmetric: swapping the arguments swaps
/// `Less` and `Greater`.
pub proof fn lemma_lex_cmp_antisym(a: Seq<char>, b: Seq<char>)
    ensures
        lex_cmp(a, b) == Ordering::Less <==> lex_cmp(b, a) == Ordering::Greater,
    decreases a.len(),
{
    if a.len() == 0 || b.len() == 0 {
    } else if (a[0] as u32) < (b[0] as u32) || (b[0] as u32) < (a[0] as u32) {
    } else {
        lemma_lex_cmp_antisym(a.drop_first(), b.drop_first());
    }
}

/// Lexicographic comparison is transitive in `Less`.
pub proof fn lemma_lex_cmp_trans(a: Seq<char>, b: Seq<char>, c: Seq<char>)
    requires
        lex_cmp(a, b) == Ordering::Less,
        lex_cmp(b, c) == Ordering::Less,
    ensures
        lex_cmp(a, c) == Ordering::Less,
    decreases a.len(),
{
    assert(b.len() > 0);
    assert(c.len() > 0);
    if a.len() > 0 {
        let a0 = a[0] as u32;
        let b0 = b[0] as u32;
        let c0 = c[0] as u32;
        assert(a0 <= b0);
        assert(b0 <= c0);
        if a0 == c0 {
            lemma_lex_cmp_trans(a.drop_first(), b.drop_first(), c.drop_first());
        }
    }
}

/// Skipping a common prefix does not change the lexicographic comparison.
pub proof fn lemma_lex_cmp_skip(a: Seq<char>, b: Seq<char>, i: int)
    requires
        0 <= i <= a.len(),
        i <= b.len(),
        forall|j: int| 0 <= j < i ==> a[j] == b[j],
    ensures
        lex_cmp(a, b) == lex_cmp(a.skip(i), b.skip(i)),
    decreases i,
{
    if i == 0 {
        assert(a.skip(0) =~= a);
        assert(b.skip(0) =~= b);
    } else {
        assert(a[0] == b[0]);
        lemma_lex_cmp_skip(a.drop_first(), b.drop_first(), i - 1);
        assert(a.drop_first().skip(i - 1) =~= a.skip(i));
        assert(b.drop_first().skip(i - 1) =~= b.skip(i));
    }
}

/// Law: case-insensitive ordering is `Equal` exactly where case-insensitive
/// equality holds, so the order is consistent with equality.
pub proof fn lemma_caseless_cmp_equal_iff(a: Seq<char>, b: Seq<char>)
    ensures
        caseless_cmp(a, b) == Ordering::Equal <==> caseless_equal(a, b),
{
    lemma_lex_cmp_equal_iff(fold_seq(a), fold_seq(b));
}

/// Law: case-insensitive ordering is antisymmetric: comparing in the other
/// direction swaps `Less` and `Greater` and keeps `Equal`.
pub proof fn lemma_caseless_cmp_antisymmetric(a: Seq<char>, b: Seq<char>)
    ensures
        caseless_cmp(a, b) == Ordering::Less <==> caseless_cmp(b, a) == Ordering::Greater,
        caseless_cmp(a, b) == Ordering::Equal <==> caseless_cmp(b, a) == Ordering::Equal,
{
    lemma_lex_cmp_antisym(fold_seq(a), fold_seq(b));
    lemma_lex_cmp_antisym(fold_seq(b), fold_seq(a));
    lemma_lex_cmp_equal_iff(fold_seq(a), fold_seq(b));
    lemma_lex_cmp_equal_iff(fold_seq(b), fold_seq(a));
}

/// Law: case-insensitive ordering is transitive.
pub proof fn lemma_caseless_cmp_transitive(a: Seq<char>, b: Seq<char>, c: Seq<char>)
    requires
        caseless_cmp(a, b) == Ordering::Less,
        caseless_cmp(b, c) == Ordering::Less,
    ensures
        caseless_cmp(a, c) == Ordering::Less,
{
    lemma_lex_cmp_trans(fold_seq(a), fold_seq(b), fold_seq(c));
}

/// Folds one character, executably.
pub fn fold_char_ascii(c: char) -> (r: char)
    ensures
        r == fold_char(c),
{
    let u: u32 = c as u32;
    if 65 <= u && u <= 90 {
        ((u + 32) as u8) as char
    } else {
        c
    }
}

/// Case-insensitive equality of two string slices: true exactly when the
/// ASCII-lowercased character sequences are identical.
pub fn str_caseless_eq(a: &str, b: &str) -> (r: bool)
    ensures
        r == caseless_equal(a@, b@),
{
    let alen = a.unicode_len();
    let blen = b.unicode_len();
    if alen != blen {
        proof {
            assert(fold_seq(a@).len() != fold_seq(b@).len());
        }
        return false;
    }
    let mut i: usize = 0;
    while i < alen
        invariant
            alen == a@.len(),
            alen == b@.len(),
            i <= alen,
            forall|j: int| 0 <= j < i ==> fold_char(a@[j]) == fold_char(b@[j]),
        decreases alen - i,
    {
        let ca = fold_char_ascii(a.get_char(i));
        let cb = fold_char_ascii(b.get_char(i));
        if ca != cb {
            proof {
                assert(fold_seq(a@)[i as int] != fold_seq(b@)[i as int]);
            }
            return false;
        }
        i = i + 1;
    }
    proof {
        assert(fold_seq(a@) =~= fold_seq(b@));
    }
    true
}

/// Case-insensitive ordering of two string slices: the lexicographic
/// comparison of the ASCII-lowercased character sequences.
pub fn str_caseless_cmp(a: &str, b: &str) -> (r: Ordering)
    ensures
        r == caseless_cmp(a@, b@),
{
    let alen = a.unicode_len();
    let blen = b.unicode_len();
    let mut i: usize = 0;
    while i < alen && i < blen
        invariant
            alen == a@.len(),
            blen == b@.len(),
            i <= alen,
            i <= blen,
            forall|j: int| 0 <= j < i ==> fold_char(a@[j]) == fold_char(b@[j]),
        decreases alen - i,
    {
        let ca = fold_char_ascii(a.get_char(i));
        let cb = fold_char_ascii(b.get_char(i));
        if (ca as u32) < (cb as u32) {
            proof {
                lemma_lex_cmp_skip(fold_seq(a@), fold_seq(b@), i as int);
                assert(fold_seq(a@).skip(i as int)[0] == fold_char(a@[i as int]));
                assert(fold_seq(b@).skip(i as int)[0] == fold_char(b@[i as int]));
            }
            return Ordering::Less;
        }
        if (cb as u32) < (ca as u32) {
            proof {
                lemma_lex_cmp_skip(fold_seq(a@), fold_seq(b@), i as int);
                assert(fold_seq(a@).skip(i as int)[0] == fold_char(a@[i as int]));
                assert(fold_seq(b@).skip(i as int)[0] == fold_char(b@[i as int]));
            }
            return Ordering::Greater;
        }
        i = i + 1;
    }
    proof {
        lemma_lex_cmp_skip(fold_seq(a@), fold_seq(b@), i as int);
    }
    if alen == blen {
        proof {
            assert(fold_seq(a@).skip(i as int).len() == 0);
            assert(fold_seq(b@).skip(i as int).len() == 0);
        }
        Ordering::Equal
    } else if alen < blen {
        proof {
            assert(fold_seq(a@).skip(i as int).len() == 0);
            assert(fold_seq(b@).skip(i as int).len() > 0);
        }
        Ordering::Less
    } else {
        proof {
            assert(fold_seq(a@).skip(i as int).len() > 0);
            assert(fold_seq(b@).skip(i as int).len() == 0);
        }
        Ordering::Greater
    }
}

/// The folded form of a string slice, as a vector of characters: the
/// canonical case-insensitive key that hashing feeds to the hasher.
pub fn fold_chars(s: &str) -> (r: Vec<char>)
    ensures
        r@ == fold_seq(s@),
{
    let len = s.unicode_len();
    let mut r: Vec<char> = Vec::new();
    let mut i: usize = 0;
    while i < len
        invariant
            len == s@.len(),
            i <= len,
            r@.len() == i,
            forall|j: int| 0 <= j < i ==> r@[j] == fold_char(s@[j]),
        decreases len - i,
    {
        let c = fold_char_ascii(s.get_char(i));
        r.push(c);
        i = i + 1;
    }
    proof {
        assert(r@ =~= fold_seq(s@));
    }
    r
}

} // verus!
