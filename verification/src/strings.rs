//! Verified string utilities shared by the rest of the library:
//! comma-joining of feature lists and the lexicographic byte order used to
//! keep descriptor tables sorted.

use vstd::prelude::*;
use vstd::string::StringExecFns;
use vstd::string::StringSliceAdditionalSpecFns;

verus! {

/// The characters of `items` joined with a single comma between
/// consecutive items, and nothing else.
pub open spec fn comma_join(items: Seq<Seq<char>>) -> Seq<char>
    decreases items.len(),
{
    if items.len() == 0 {
        Seq::empty()
    } else if items.len() == 1 {
        items[0]
    } else {
        comma_join(items.drop_last()) + seq![','] + items.last()
    }
}

/// Joins the given strings with commas, in their original order.
pub fn join_with_commas(items: &Vec<String>) -> (r: String)
    ensures
        r@ == comma_join(items.deep_view()),
{
    let mut out = String::new();
    let ghost model = items.deep_view();
    let mut i: usize = 0;
    while i < items.len()
        invariant
            i <= items.len(),
            model == items.deep_view(),
            model.len() == items.len(),
            out@ == comma_join(model.take(i as int)),
        decreases items.len() - i,
    {
        if i > 0 {
            out.append(",");
            proof {
                reveal_strlit(",");
            }
        }
        out.append(items[i].as_str());
        proof {
            assert(model.take(i + 1).drop_last() =~= model.take(i as int));
            assert(model.take(i + 1).last() == model[i as int]);
            if i > 0 {
                assert(out@ =~= comma_join(model.take(i + 1)));
            } else {
                assert(out@ =~= comma_join(model.take(1)));
            }
        }
        i = i + 1;
    }
    proof {
        assert(model.take(items.len() as int) =~= model);
    }
    out
}

/// Strict lexicographic order on byte strings: `a` comes before `b`.
pub open spec fn lex_lt(a: Seq<u8>, b: Seq<u8>) -> bool
    decreases a.len(),
{
    if b.len() == 0 {
        false
    } else if a.len() == 0 {
        true
    } else if a[0] != b[0] {
        a[0] < b[0]
    } else {
        lex_lt(a.drop_first(), b.drop_first())
    }
}

/// Decides the strict lexicographic order of two strings over their
/// byte encodings.
pub fn str_lex_lt(a: &str, b: &str) -> (r: bool)
    ensures
        r == lex_lt(a.spec_bytes(), b.spec_bytes()),
{
    let ab = a.as_bytes();
    let bb = b.as_bytes();
    let mut i: usize = 0;
    proof {
        assert(ab@.skip(0) =~= ab@);
        assert(bb@.skip(0) =~= bb@);
        assert(ab@.take(0) =~= bb@.take(0));
    }
    loop
        invariant
            ab@ == a.spec_bytes(),
            bb@ == b.spec_bytes(),
            i <= ab@.len(),
            i <= bb@.len(),
            ab@.take(i as int) =~= bb@.take(i as int),
            lex_lt(a.spec_bytes(), b.spec_bytes()) == lex_lt(
                ab@.skip(i as int),
                bb@.skip(i as int),
            ),
        decreases ab@.len() - i,
    {
        if i == bb.len() {
            return false;
        }
        if i == ab.len() {
            return true;
        }
        let x = ab[i];
        let y = bb[i];
        if x != y {
            return x < y;
        }
        proof {
            assert(ab@.skip(i as int).drop_first() =~= ab@.skip(i + 1));
            assert(bb@.skip(i as int).drop_first() =~= bb@.skip(i + 1));
            assert(ab@.take(i + 1) =~= bb@.take(i + 1));
        }
        i = i + 1;
    }
}

/// Decides whether two strings have the same byte encoding.
pub fn str_bytes_eq(a: &str, b: &str) -> (r: bool)
    ensures
        r == (a.spec_bytes() == b.spec_bytes()),
{
    let ab = a.as_bytes();
    let bb = b.as_bytes();
    if ab.len() != bb.len() {
        return false;
    }
    let mut i: usize = 0;
    while i < ab.len()
        invariant
            ab@ == a.spec_bytes(),
            bb@ == b.spec_bytes(),
            ab@.len() == bb@.len(),
            i <= ab@.len(),
            forall|k: int| 0 <= k < i ==> ab@[k] == bb@[k],
        decreases ab@.len() - i,
    {
        if ab[i] != bb[i] {
            return false;
        }
        i = i + 1;
    }
    proof {
        assert(ab@ =~= bb@);
    }
    true
}

/// `lex_lt` is a strict total order: two byte strings are ordered one way
/// or the other, or they are equal.
pub proof fn lemma_lex_lt_trichotomy(a: Seq<u8>, b: Seq<u8>)
    ensures
        lex_lt(a, b) || lex_lt(b, a) || a == b,
    decreases a.len(),
{
    if a.len() == 0 && b.len() == 0 {
        assert(a =~= b);
    } else if a.len() > 0 && b.len() > 0 && a[0] == b[0] {
        lemma_lex_lt_trichotomy(a.drop_first(), b.drop_first());
        if !lex_lt(a, b) && !lex_lt(b, a) {
            assert(a.drop_first() == b.drop_first());
            assert(a.len() == b.len());
            assert forall|i: int| 0 <= i < a.len() implies a[i] == b[i] by {
                if i > 0 {
                    assert(a.drop_first()[i - 1] == a[i]);
                    assert(b.drop_first()[i - 1] == b[i]);
                }
            }
            assert(a =~= b);
        }
    }
}

/// `lex_lt` is transitive.
pub proof fn lemma_lex_lt_transitive(a: Seq<u8>, b: Seq<u8>, c: Seq<u8>)
    requires
        lex_lt(a, b),
        lex_lt(b, c),
    ensures
        lex_lt(a, c),
    decreases a.len(),
{
    if a.len() > 0 && b.len() > 0 && c.len() > 0 {
        if a[0] == b[0] && b[0] == c[0] {
            lemma_lex_lt_transitive(a.drop_first(), b.drop_first(), c.drop_first());
        }
    }
}

} // verus!
