//! Lexicographic order on strings, and sorted de-duplicated insertion:
//! the derived set views (task owners, teams with asks) are kept as
//! sorted vectors without duplicates.

use vstd::prelude::*;
use crate::text::str_eq;

verus! {

/// Lexicographic order on character sequences, by code point.
pub open spec fn lex_le(a: Seq<char>, b: Seq<char>) -> bool
    decreases a.len(),
{
    if a.len() == 0 {
        true
    } else if b.len() == 0 {
        false
    } else if (a[0] as u32) < (b[0] as u32) {
        true
    } else if (a[0] as u32) > (b[0] as u32) {
        false
    } else {
        lex_le(a.drop_first(), b.drop_first())
    }
}

/// The order is total.
pub proof fn lemma_lex_total(a: Seq<char>, b: Seq<char>)
    ensures
        lex_le(a, b) || lex_le(b, a),
    decreases a.len(),
{
    if a.len() > 0 && b.len() > 0 && a[0] as u32 == b[0] as u32 {
        lemma_lex_total(a.drop_first(), b.drop_first());
    }
}

/// The order is reflexive.
pub proof fn lemma_lex_refl(a: Seq<char>)
    ensures
        lex_le(a, a),
    decreases a.len(),
{
    if a.len() > 0 {
        lemma_lex_refl(a.drop_first());
    }
}

/// The order is transitive.
pub proof fn lemma_lex_trans(a: Seq<char>, b: Seq<char>, c: Seq<char>)
    requires
        lex_le(a, b),
        lex_le(b, c),
    ensures
        lex_le(a, c),
    decreases a.len(),
{
    if a.len() > 0 {
        if a[0] as u32 == b[0] as u32 && b[0] as u32 == c[0] as u32 {
            lemma_lex_trans(a.drop_first(), b.drop_first(), c.drop_first());
        }
    }
}

/// Equal code points are the same character.
proof fn char_code_injective(x: char, y: char)
    requires
        x as u32 == y as u32,
    ensures
        x == y,
{
}

/// The order is antisymmetric.
pub proof fn lemma_lex_antisym(a: Seq<char>, b: Seq<char>)
    requires
        lex_le(a, b),
        lex_le(b, a),
    ensures
        a == b,
    decreases a.len(),
{
    if a.len() == 0 {
        assert(b.len() == 0);
        assert(a =~= b);
    } else {
        assert(b.len() > 0);
        assert(a[0] as u32 == b[0] as u32);
        char_code_injective(a[0], b[0]);
        lemma_lex_antisym(a.drop_first(), b.drop_first());
        assert(a.len() == b.len());
        assert forall|i: int| 0 <= i < a.len() implies a[i] == b[i] by {
            if i > 0 {
                assert(a[i] == a.drop_first()[i - 1]);
                assert(b[i] == b.drop_first()[i - 1]);
                assert(a.drop_first()[i - 1] == b.drop_first()[i - 1]);
            }
        }
        assert(a =~= b);
    }
}

/// Executable lexicographic comparison.
pub fn lex_le_str(a: &str, b: &str) -> (r: bool)
    ensures
        r == lex_le(a@, b@),
    decreases a@.len(),
{
    let alen = a.unicode_len();
    let blen = b.unicode_len();
    if alen == 0 {
        true
    } else if blen == 0 {
        false
    } else {
        let ca = a.get_char(0) as u32;
        let cb = b.get_char(0) as u32;
        if ca < cb {
            true
        } else if ca > cb {
            false
        } else {
            let ta = a.substring_char(1, alen);
            let tb = b.substring_char(1, blen);
            proof {
                assert(ta@ =~= a@.drop_first());
                assert(tb@ =~= b@.drop_first());
            }
            lex_le_str(ta, tb)
        }
    }
}

/// The sequence is sorted by `lex_le`.
pub open spec fn sorted_lex(s: Seq<Seq<char>>) -> bool {
    forall|i: int, j: int| 0 <= i < j < s.len() ==> lex_le(#[trigger] s[i], #[trigger] s[j])
}

/// No two elements are equal.
pub open spec fn no_dups(s: Seq<Seq<char>>) -> bool {
    forall|i: int, j: int| 0 <= i < j < s.len() ==> #[trigger] s[i] != #[trigger] s[j]
}

/// Insert `x` into a sorted, duplicate-free vector, keeping it sorted
/// and duplicate-free; the contents afterwards are the contents before
/// plus `x`.
pub fn insert_sorted(v: &mut Vec<String>, x: String)
    requires
        sorted_lex(old(v).deep_view()),
        no_dups(old(v).deep_view()),
    ensures
        sorted_lex(final(v).deep_view()),
        no_dups(final(v).deep_view()),
        forall|y: Seq<char>| final(v).deep_view().contains(y) <==> (
            old(v).deep_view().contains(y) || y == x@),
{
    let ghost dv = v.deep_view();
    let ghost xv = x@;
    let mut p: usize = 0;
    while p < v.len() && !lex_le_str(x.as_str(), v[p].as_str())
        invariant
            0 <= p <= v.len(),
            dv == v.deep_view(),
            xv == x@,
            sorted_lex(dv),
            no_dups(dv),
            forall|k: int| 0 <= k < p ==> !lex_le(xv, #[trigger] dv[k]),
        decreases v.len() - p,
    {
        proof {
            assert(dv[p as int] == v@[p as int]@);
        }
        p = p + 1;
    }
    proof {
        assert(dv.len() == v.len());
        if (p as int) < dv.len() {
            assert(dv[p as int] == v@[p as int]@);
        }
    }
    if p < v.len() && str_eq(v[p].as_str(), x.as_str()) {
        proof {
            assert(dv[p as int] == xv);
            assert(dv.contains(xv));
            assert(forall|y: Seq<char>| dv.contains(y) <==> (dv.contains(y) || y == xv));
        }
        return;
    }
    let ghost plen = dv.len();
    proof {
        assert(forall|k: int| 0 <= k < p ==> lex_le(#[trigger] dv[k], xv)) by {
            assert forall|k: int| 0 <= k < p implies lex_le(#[trigger] dv[k], xv) by {
                lemma_lex_total(xv, dv[k]);
            }
        }
        assert(forall|j: int| p <= j < plen ==> lex_le(xv, #[trigger] dv[j])) by {
            assert forall|j: int| p <= j < plen implies lex_le(xv, #[trigger] dv[j]) by {
                assert(lex_le(xv, dv[p as int]));
                if j > p {
                    assert(lex_le(dv[p as int], dv[j]));
                    lemma_lex_trans(xv, dv[p as int], dv[j]);
                }
            }
        }
        assert(forall|k: int| 0 <= k < plen ==> xv != #[trigger] dv[k]) by {
            assert forall|k: int| 0 <= k < plen implies xv != #[trigger] dv[k] by {
                if dv[k] == xv {
                    if k < p {
                        lemma_lex_refl(xv);
                    } else if k > p {
                        assert(lex_le(xv, dv[p as int]));
                        assert(lex_le(dv[p as int], dv[k]));
                        lemma_lex_antisym(xv, dv[p as int]);
                    }
                }
            }
        }
    }
    v.insert(p, x);
    proof {
        let nv = v.deep_view();
        assert(nv.len() == plen + 1);
        assert(nv[p as int] == xv);
        assert(forall|k: int| 0 <= k < p ==> nv[k] == dv[k]);
        assert(forall|k: int| p < k < nv.len() ==> nv[k] == dv[k - 1]);
        assert(sorted_lex(nv)) by {
            assert forall|i: int, j: int| 0 <= i < j < nv.len() implies lex_le(
                #[trigger] nv[i], #[trigger] nv[j]) by {
                if i == p {
                    assert(lex_le(xv, dv[j - 1]));
                } else if j == p {
                    assert(lex_le(dv[i], xv));
                } else if i < p && j > p {
                    assert(lex_le(dv[i], xv));
                    assert(lex_le(xv, dv[j - 1]));
                    lemma_lex_trans(dv[i], xv, dv[j - 1]);
                }
            }
        }
        assert(no_dups(nv)) by {
            assert forall|i: int, j: int| 0 <= i < j < nv.len() implies #[trigger] nv[i]
                != #[trigger] nv[j] by {
            }
        }
        assert(forall|y: Seq<char>| nv.contains(y) <==> (dv.contains(y) || y == xv)) by {
            assert forall|y: Seq<char>| nv.contains(y) implies (dv.contains(y) || y == xv) by {
                let k = choose|k: int| 0 <= k < nv.len() && nv[k] == y;
                if k < p {
                    assert(dv[k] == y);
                } else if k > p {
                    assert(dv[k - 1] == y);
                }
            }
            assert forall|y: Seq<char>| (dv.contains(y) || y == xv) implies nv.contains(y) by {
                if y == xv {
                    assert(nv[p as int] == y);
                } else {
                    let k = choose|k: int| 0 <= k < dv.len() && dv[k] == y;
                    if k < p {
                        assert(nv[k] == y);
                    } else {
                        assert(nv[k + 1] == y);
                    }
                }
            }
        }
    }
}

} // verus!
