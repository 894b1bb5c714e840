//! Facts about sequences that the proofs of this crate share.

use vstd::prelude::*;

verus! {

/// Filtering a sequence with one more element at its end filters the
/// sequence and then keeps or drops the element.
pub proof fn lemma_filter_push<A>(s: Seq<A>, x: A, pred: spec_fn(A) -> bool)
    ensures
        s.push(x).filter(pred) == if pred(x) {
            s.filter(pred).push(x)
        } else {
            s.filter(pred)
        },
{
    reveal(Seq::filter);
    assert(s.push(x).drop_last() == s);
}

/// The first `i + 1` elements are the first `i` and the one after them.
pub proof fn lemma_take_push<A>(s: Seq<A>, i: int)
    requires
        0 <= i < s.len(),
    ensures
        s.take(i + 1) == s.take(i).push(s[i]),
{
    assert(s.take(i + 1) =~= s.take(i).push(s[i]));
}

/// An element is in the filtered sequence exactly if it is in the sequence
/// and the filter holds of it, and the filtered elements keep their order.
pub proof fn lemma_filter_contains<A>(s: Seq<A>, pred: spec_fn(A) -> bool, x: A)
    ensures
        s.filter(pred).contains(x) <==> s.contains(x) && pred(x),
    decreases s.len(),
{
    reveal(Seq::filter);
    if s.len() > 0 {
        let init = s.drop_last();
        lemma_filter_contains(init, pred, x);
        assert(s =~= init.push(s.last()));
        if s.contains(x) {
            let i = choose|i: int| 0 <= i < s.len() && s[i] == x;
            if i < s.len() - 1 {
                assert(init[i] == x);
            }
        }
        if init.contains(x) {
            let i = choose|i: int| 0 <= i < init.len() && init[i] == x;
            assert(s[i] == x);
        }
        if pred(s.last()) {
            let f = init.filter(pred);
            assert(s.filter(pred) == f.push(s.last()));
            if f.push(s.last()).contains(x) {
                let i = choose|i: int| 0 <= i < f.push(s.last()).len() && f.push(s.last())[i] == x;
                if i < f.len() {
                    assert(f[i] == x);
                } else {
                    assert(s[s.len() - 1] == x);
                }
            }
            if f.contains(x) {
                let i = choose|i: int| 0 <= i < f.len() && f[i] == x;
                assert(f.push(s.last())[i] == x);
            }
            if x == s.last() {
                assert(f.push(s.last())[f.len() as int] == x);
                assert(s[s.len() - 1] == x);
            }
        }
    }
}

/// The positions of the elements of `s` that the filter `pred` keeps.
pub open spec fn kept_positions<A>(s: Seq<A>, pred: spec_fn(A) -> bool) -> Seq<int>
    decreases s.len(),
{
    if s.len() == 0 {
        Seq::empty()
    } else {
        let init = kept_positions(s.drop_last(), pred);
        if pred(s.last()) {
            init.push(s.len() - 1)
        } else {
            init
        }
    }
}

/// The filtered sequence holds the elements at the kept positions, which
/// rise, and every position whose element the filter keeps is among them.
pub proof fn lemma_kept_positions<A>(s: Seq<A>, pred: spec_fn(A) -> bool)
    ensures
        kept_positions(s, pred).len() == s.filter(pred).len(),
        forall|i: int|
            0 <= i < s.filter(pred).len() ==> {
                &&& 0 <= #[trigger] kept_positions(s, pred)[i] < s.len()
                &&& s[kept_positions(s, pred)[i]] == s.filter(pred)[i]
                &&& pred(s.filter(pred)[i])
            },
        forall|i: int, j: int|
            0 <= i < j < s.filter(pred).len() ==> #[trigger] kept_positions(s, pred)[i]
                < #[trigger] kept_positions(s, pred)[j],
        forall|a: int|
            0 <= a < s.len() && pred(#[trigger] s[a]) ==> exists|i: int|
                0 <= i < s.filter(pred).len() && #[trigger] kept_positions(s, pred)[i] == a,
    decreases s.len(),
{
    reveal(Seq::filter);
    if s.len() > 0 {
        let init = s.drop_last();
        lemma_kept_positions(init, pred);
        let at = kept_positions(s, pred);
        let before = kept_positions(init, pred);
        assert forall|a: int| 0 <= a < s.len() && pred(#[trigger] s[a]) implies exists|i: int|
            0 <= i < s.filter(pred).len() && #[trigger] at[i] == a by {
            if a < s.len() - 1 {
                assert(pred(init[a]));
                let i = choose|i: int| 0 <= i < init.filter(pred).len() && #[trigger] before[i] == a;
                assert(at[i] == a);
            } else {
                assert(at[before.len() as int] == a);
            }
        }
    }
}

} // verus!
