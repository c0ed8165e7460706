//! What lists and texts hold that are put together from others.
use vstd::prelude::*;

use crate::text::{has_infix, occurs_at};

verus! {

/// Two lists in a row hold what either holds.
pub proof fn lemma_plus<T>(a: Seq<T>, b: Seq<T>, e: T)
    ensures
        (a + b).contains(e) <==> a.contains(e) || b.contains(e),
{
    if a.contains(e) {
        let i = choose|i: int| 0 <= i < a.len() && a[i] == e;
        assert((a + b)[i] == e);
    }
    if b.contains(e) {
        let i = choose|i: int| 0 <= i < b.len() && b[i] == e;
        assert((a + b)[a.len() + i] == e);
    }
    if (a + b).contains(e) {
        let i = choose|i: int| 0 <= i < (a + b).len() && (a + b)[i] == e;
        if i < a.len() {
            assert(a[i] == e);
        } else {
            assert(b[i - a.len()] == e);
        }
    }
}

/// A list with one more holds that and what it held.
pub proof fn lemma_one_more<T>(a: Seq<T>, x: T, e: T)
    ensures
        a.push(x).contains(e) <==> a.contains(e) || e == x,
{
    assert(a.push(x) =~= a + seq![x]);
    lemma_plus(a, seq![x], e);
    assert(seq![x][0] == x);
    assert(seq![x].contains(x));
}

/// Two texts in a row hold every text that either holds.
pub proof fn lemma_infix_plus(a: Seq<char>, b: Seq<char>, x: Seq<char>)
    ensures
        has_infix(a, x) ==> has_infix(a + b, x),
        has_infix(b, x) ==> has_infix(a + b, x),
        has_infix(x, x),
{
    if has_infix(a, x) {
        let i = choose|i: int| #[trigger] occurs_at(a, x, i);
        assert((a + b).subrange(i, i + x.len()) =~= a.subrange(i, i + x.len()));
        assert(occurs_at(a + b, x, i));
    }
    if has_infix(b, x) {
        let i = choose|i: int| #[trigger] occurs_at(b, x, i);
        assert((a + b).subrange(a.len() + i, a.len() + i + x.len()) =~= b.subrange(
            i,
            i + x.len(),
        ));
        assert(occurs_at(a + b, x, a.len() + i));
    }
    assert(x.subrange(0, x.len() as int) =~= x);
    assert(occurs_at(x, x, 0));
}

/// Texts in a row can be taken together in any way.
pub proof fn lemma_after(a: Seq<char>, b: Seq<char>, c: Seq<char>)
    ensures
        a + b + c == a + (b + c),
{
    assert(a + b + c =~= a + (b + c));
}

} // verus!
