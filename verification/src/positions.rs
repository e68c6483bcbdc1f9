//! Picking positions out of a sequence: the ascending list of the positions
//! that pass a test, and a sequence with a set of positions taken out.

use vstd::prelude::*;

verus! {

/// The positions below `n` that pass `keep`, in ascending order.
pub open spec fn positions(n: int, keep: spec_fn(int) -> bool) -> Seq<int>
    decreases n,
{
    if n <= 0 {
        Seq::empty()
    } else if keep(n - 1) {
        positions(n - 1, keep).push(n - 1)
    } else {
        positions(n - 1, keep)
    }
}

/// `s` with every position in `doomed` taken out; what is left keeps its order.
pub open spec fn without<A>(s: Seq<A>, doomed: Set<int>) -> Seq<A>
    decreases s.len(),
{
    if s.len() == 0 {
        s
    } else if doomed.contains(s.len() - 1) {
        without(s.drop_last(), doomed)
    } else {
        without(s.drop_last(), doomed).push(s.last())
    }
}

/// `origin` says where in `whole` each item of `part` stands, and these
/// places ascend: the items of `part` come in the order they have in `whole`.
pub open spec fn embeds_at<A>(part: Seq<A>, whole: Seq<A>, origin: Seq<int>) -> bool {
    &&& origin.len() == part.len()
    &&& forall|k: int|
        0 <= k < part.len() ==> 0 <= #[trigger] origin[k] < whole.len() && part[k] == whole[origin[k]]
    &&& forall|j: int, k: int| 0 <= j < k < part.len() ==> #[trigger] origin[j] < #[trigger] origin[k]
}

/// `part` is `whole` with some items left out and the rest in their order.
pub open spec fn is_subsequence<A>(part: Seq<A>, whole: Seq<A>) -> bool {
    exists|origin: Seq<int>| embeds_at(part, whole, origin)
}

/// Every entry of `positions(n, keep)` is a position below `n` that passes
/// `keep`, and the entries ascend strictly.
pub proof fn lemma_positions_sound(n: int, keep: spec_fn(int) -> bool)
    ensures
        positions(n, keep).len() <= if n < 0 { 0 } else { n },
        forall|k: int|
            0 <= k < positions(n, keep).len() ==> 0 <= #[trigger] positions(n, keep)[k] < n && keep(
                positions(n, keep)[k],
            ),
        forall|j: int, k: int|
            0 <= j < k < positions(n, keep).len() ==> #[trigger] positions(n, keep)[j]
                < #[trigger] positions(n, keep)[k],
    decreases n,
{
    if n > 0 {
        lemma_positions_sound(n - 1, keep);
    }
}

/// Every position below `n` that passes `keep` is an entry of
/// `positions(n, keep)`.
pub proof fn lemma_positions_complete(n: int, keep: spec_fn(int) -> bool, i: int)
    requires
        0 <= i < n,
        keep(i),
    ensures
        positions(n, keep).contains(i),
    decreases n,
{
    if i == n - 1 {
        assert(positions(n, keep).last() == i);
    } else {
        lemma_positions_complete(n - 1, keep, i);
        let shorter = positions(n - 1, keep);
        let k = choose|k: int| 0 <= k < shorter.len() && shorter[k] == i;
        assert(positions(n, keep)[k] == i);
    }
}

/// Two tests that agree below `n` pick the same positions.
pub proof fn lemma_positions_agree(n: int, keep: spec_fn(int) -> bool, other: spec_fn(int) -> bool)
    requires
        forall|i: int| 0 <= i < n ==> #[trigger] keep(i) == other(i),
    ensures
        positions(n, keep) == positions(n, other),
    decreases n,
{
    if n > 0 {
        lemma_positions_agree(n - 1, keep, other);
    }
}

/// Picking by two tests at once is picking by the first and then sifting
/// what was picked by the second.
pub proof fn lemma_positions_refine(
    n: int,
    first: spec_fn(int) -> bool,
    second: spec_fn(int) -> bool,
    both: spec_fn(int) -> bool,
)
    requires
        forall|i: int| 0 <= i < n ==> #[trigger] both(i) == (first(i) && second(i)),
    ensures
        positions(n, both) == positions(n, first).filter(second),
    decreases n,
{
    if n > 0 {
        lemma_positions_refine(n - 1, first, second, both);
        if first(n - 1) {
            positions(n - 1, first).lemma_filter_push(n - 1, second);
        }
    } else {
        reveal(Seq::filter);
    }
}

} // verus!
