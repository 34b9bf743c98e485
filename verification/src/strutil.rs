//! Small verified string helpers shared across the crate.

use vstd::prelude::*;
use vstd::string::StrSliceExecFns;

verus! {

/// Character-wise equality test for string slices.
pub fn str_eq(a: &str, b: &str) -> (r: bool)
    ensures
        r == (a@ == b@),
{
    let alen = a.unicode_len();
    let blen = b.unicode_len();
    if alen != blen {
        return false;
    }
    let mut i: usize = 0;
    while i < alen
        invariant
            alen == a@.len(),
            blen == b@.len(),
            alen == blen,
            i <= alen,
            forall|j: int| 0 <= j < i ==> a@[j] == b@[j],
        decreases alen - i,
    {
        if a.get_char(i) != b.get_char(i) {
            return false;
        }
        i += 1;
    }
    proof {
        assert(a@ =~= b@);
    }
    true
}

/// Whether the string `a` ends with the suffix `b`.
pub open spec fn spec_ends_with(a: Seq<char>, b: Seq<char>) -> bool {
    a.len() >= b.len() && a.subrange(a.len() - b.len(), a.len() as int) == b
}

/// Character-wise suffix test for string slices.
pub fn str_ends_with(a: &str, b: &str) -> (r: bool)
    ensures
        r == spec_ends_with(a@, b@),
{
    let alen = a.unicode_len();
    let blen = b.unicode_len();
    if alen < blen {
        return false;
    }
    let mut i: usize = 0;
    while i < blen
        invariant
            alen == a@.len(),
            blen == b@.len(),
            blen <= alen,
            i <= blen,
            forall|j: int| 0 <= j < i ==> a@[alen - blen + j] == b@[j],
        decreases blen - i,
    {
        if a.get_char(alen - blen + i) != b.get_char(i) {
            proof {
                let tail = a@.subrange(a@.len() - b@.len(), a@.len() as int);
                assert(tail[i as int] == a@[alen - blen + i]);
            }
            return false;
        }
        i += 1;
    }
    proof {
        assert(a@.subrange(a@.len() - b@.len(), a@.len() as int) =~= b@);
    }
    true
}

/// The character sequences of a vector of strings.
pub open spec fn line_views(items: Seq<String>) -> Seq<Seq<char>> {
    items.map_values(|s: String| s@)
}

/// Whether some element of `items` has the same characters as `needle`.
pub open spec fn spec_contains_str(items: Seq<Seq<char>>, needle: Seq<char>) -> bool {
    exists|i: int| 0 <= i < items.len() && items[i] == needle
}

/// Linear search for a string among a vector of strings.
pub fn contains_str(items: &Vec<String>, needle: &str) -> (r: bool)
    ensures
        r == spec_contains_str(items@.map_values(|s: String| s@), needle@),
{
    let ghost views = items@.map_values(|s: String| s@);
    let mut i: usize = 0;
    while i < items.len()
        invariant
            views == items@.map_values(|s: String| s@),
            i <= items@.len(),
            forall|j: int| 0 <= j < i ==> views[j] != needle@,
        decreases items@.len() - i,
    {
        if str_eq(items[i].as_str(), needle) {
            proof {
                assert(views[i as int] == needle@);
            }
            return true;
        }
        i += 1;
    }
    false
}


/// Lexicographic order on character sequences, by code point: `a` comes
/// strictly before `b`.
pub open spec fn spec_str_lt(a: Seq<char>, b: Seq<char>) -> bool
    decreases a.len(),
{
    if b.len() == 0 {
        false
    } else if a.len() == 0 {
        true
    } else if a[0] != b[0] {
        a[0] < b[0]
    } else {
        spec_str_lt(a.drop_first(), b.drop_first())
    }
}

/// Character-wise lexicographic comparison of string slices.
pub fn str_lt(a: &str, b: &str) -> (r: bool)
    ensures
        r == spec_str_lt(a@, b@),
{
    let alen = a.unicode_len();
    let blen = b.unicode_len();
    let mut i: usize = 0;
    proof {
        assert(a@.skip(0) =~= a@);
        assert(b@.skip(0) =~= b@);
    }
    while i < alen && i < blen
        invariant
            alen == a@.len(),
            blen == b@.len(),
            i <= alen,
            i <= blen,
            spec_str_lt(a@, b@) == spec_str_lt(a@.skip(i as int), b@.skip(i as int)),
        decreases alen - i,
    {
        let ca = a.get_char(i);
        let cb = b.get_char(i);
        proof {
            assert(a@.skip(i as int)[0] == a@[i as int]);
            assert(b@.skip(i as int)[0] == b@[i as int]);
        }
        if ca != cb {
            return ca < cb;
        }
        proof {
            assert(a@.skip(i as int).drop_first() =~= a@.skip(i + 1));
            assert(b@.skip(i as int).drop_first() =~= b@.skip(i + 1));
        }
        i += 1;
    }
    proof {
        assert(a@.skip(i as int).len() == 0 || b@.skip(i as int).len() == 0);
    }
    alen < blen
}


/// Strict lexicographic order is asymmetric: two sequences never come
/// strictly before each other.
pub proof fn lemma_str_lt_asym(a: Seq<char>, b: Seq<char>)
    requires
        spec_str_lt(a, b),
    ensures
        !spec_str_lt(b, a),
    decreases a.len(),
{
    if a.len() > 0 && b.len() > 0 && a[0] == b[0] {
        lemma_str_lt_asym(a.drop_first(), b.drop_first());
    }
}

/// "Not lexicographically above" is transitive.
pub proof fn lemma_str_le_trans(a: Seq<char>, b: Seq<char>, c: Seq<char>)
    requires
        !spec_str_lt(b, a),
        !spec_str_lt(c, b),
    ensures
        !spec_str_lt(c, a),
    decreases a.len(),
{
    if spec_str_lt(c, a) {
        assert(a.len() > 0);
        if c.len() == 0 {
            assert(b.len() == 0);
            assert(spec_str_lt(b, a));
        } else {
            assert(b.len() > 0);
            let ha = a[0];
            let hb = b[0];
            let hc = c[0];
            if hc != ha {
                assert(hc < ha);
                if hc == hb {
                    assert(hb != ha);
                    assert(!(hb < ha));
                } else {
                    assert(!(hc < hb));
                    if hb != ha {
                        assert(!(hb < ha));
                    }
                }
                assert(false);
            } else {
                if hb != ha {
                    assert(!(hb < ha));
                    assert(hc != hb);
                    assert(!(hc < hb));
                    assert(false);
                } else {
                    lemma_str_le_trans(a.drop_first(), b.drop_first(), c.drop_first());
                    assert(false);
                }
            }
        }
        assert(false);
    }
}

} // verus!
