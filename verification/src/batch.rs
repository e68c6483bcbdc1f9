//! Removing several positions of a list in one pass. Removing one position
//! moves everything behind it, so the positions are put in descending order
//! first: each removal then leaves the positions still to come where they
//! were.

use vstd::prelude::*;
use crate::positions::without;

verus! {

/// The positions that a list of indices names, as a set.
pub open spec fn index_set(indices: Seq<usize>) -> Set<int> {
    Set::new(|i: int| exists|k: int| 0 <= k < indices.len() && indices[k] == i)
}

/// Each entry is greater than all that follow it.
pub open spec fn strictly_descending(s: Seq<usize>) -> bool {
    forall|j: int, k: int| 0 <= j < k < s.len() ==> s[j] > s[k]
}

/// Where no position of `s` is doomed, nothing is taken out.
pub proof fn lemma_without_untouched<A>(s: Seq<A>, doomed: Set<int>)
    requires
        forall|i: int| 0 <= i < s.len() ==> !doomed.contains(i),
    ensures
        without(s, doomed) == s,
    decreases s.len(),
{
    if s.len() > 0 {
        lemma_without_untouched(s.drop_last(), doomed);
        assert(s.drop_last().push(s.last()) == s);
    }
}

/// Two sets that agree on the positions of `s` take the same out of it.
pub proof fn lemma_without_agree<A>(s: Seq<A>, doomed: Set<int>, other: Set<int>)
    requires
        forall|i: int| 0 <= i < s.len() ==> doomed.contains(i) == other.contains(i),
    ensures
        without(s, doomed) == without(s, other),
    decreases s.len(),
{
    if s.len() > 0 {
        lemma_without_agree(s.drop_last(), doomed, other);
    }
}

/// What is left is no longer than what there was, and shorter by one at
/// least where a position of `s` is doomed.
pub proof fn lemma_without_len<A>(s: Seq<A>, doomed: Set<int>)
    ensures
        without(s, doomed).len() <= s.len(),
        (exists|i: int| 0 <= i < s.len() && doomed.contains(i)) <==> without(s, doomed).len()
            < s.len(),
    decreases s.len(),
{
    if s.len() > 0 {
        let shorter = s.drop_last();
        lemma_without_len(shorter, doomed);
        if exists|i: int| 0 <= i < s.len() && doomed.contains(i) {
            let i = choose|i: int| 0 <= i < s.len() && doomed.contains(i);
            if i < shorter.len() {
                assert(0 <= i < shorter.len() && doomed.contains(i));
            }
        }
        if without(s, doomed).len() < s.len() && !doomed.contains(s.len() - 1) {
            let i = choose|i: int| 0 <= i < shorter.len() && doomed.contains(i);
            assert(0 <= i < s.len() && doomed.contains(i));
        }
    }
}

/// A position that is not doomed leaves something behind.
pub proof fn lemma_without_survivor<A>(s: Seq<A>, doomed: Set<int>, at: int)
    requires
        0 <= at < s.len(),
        !doomed.contains(at),
    ensures
        without(s, doomed).len() > 0,
    decreases s.len(),
{
    if at < s.len() - 1 {
        lemma_without_survivor(s.drop_last(), doomed, at);
    }
}

/// Dooming one more position, below which nothing is doomed, is removing
/// that position from what was left before.
pub proof fn lemma_without_one_more<A>(s: Seq<A>, doomed: Set<int>, at: int)
    requires
        0 <= at < s.len(),
        forall|i: int| 0 <= i <= at ==> !doomed.contains(i),
    ensures
        at < without(s, doomed).len(),
        without(s, doomed.insert(at)) == without(s, doomed).remove(at),
    decreases s.len(),
{
    let shorter = s.drop_last();
    if at == s.len() - 1 {
        lemma_without_untouched(shorter, doomed);
        lemma_without_untouched(shorter, doomed.insert(at));
        assert(shorter.push(s.last()).remove(at) == shorter);
    } else {
        lemma_without_one_more(shorter, doomed, at);
        let left = without(shorter, doomed);
        if !doomed.contains(s.len() - 1) {
            assert(left.remove(at).push(s.last()) == left.push(s.last()).remove(at));
        }
    }
}

/// Taking positions out and then looking at each item through `f` is the
/// same as looking first and taking out then.
pub proof fn lemma_without_map<A, B>(s: Seq<A>, doomed: Set<int>, f: spec_fn(A) -> B)
    ensures
        without(s, doomed).map_values(f) == without(s.map_values(f), doomed),
    decreases s.len(),
{
    if s.len() > 0 {
        lemma_without_map(s.drop_last(), doomed, f);
        assert(s.map_values(f).drop_last() == s.drop_last().map_values(f));
        if !doomed.contains(s.len() - 1) {
            assert(without(s.drop_last(), doomed).push(s.last()).map_values(f) == without(
                s.drop_last(),
                doomed,
            ).map_values(f).push(f(s.last())));
        }
    }
}

/// The indices below `limit`, each once, greatest first.
pub fn descending_below(indices: &Vec<usize>, limit: usize) -> (sorted: Vec<usize>)
    ensures
        strictly_descending(sorted@),
        forall|x: usize| sorted@.contains(x) <==> indices@.contains(x) && x < limit,
{
    let mut sorted: Vec<usize> = Vec::new();
    let mut i: usize = 0;
    while i < indices.len()
        invariant
            i <= indices@.len(),
            strictly_descending(sorted@),
            forall|x: usize|
                sorted@.contains(x) <==> indices@.take(i as int).contains(x) && x < limit,
        decreases indices@.len() - i,
    {
        let x = indices[i];
        let ghost before = sorted@;
        let ghost seen = indices@.take(i as int);
        assert(indices@.take(i + 1) == seen.push(x));
        if x < limit {
            let mut p: usize = 0;
            while p < sorted.len() && sorted[p] > x
                invariant
                    p <= sorted@.len(),
                    forall|j: int| 0 <= j < p ==> sorted@[j] > x,
                decreases sorted@.len() - p,
            {
                p += 1;
            }
            if p == sorted.len() || sorted[p] != x {
                sorted.insert(p, x);
                assert forall|y: usize| sorted@.contains(y) <==> before.contains(y) || y == x by {
                    if before.contains(y) {
                        let j = choose|j: int| 0 <= j < before.len() && before[j] == y;
                        if j < p {
                            assert(sorted@[j] == y);
                        } else {
                            assert(sorted@[j + 1] == y);
                        }
                    }
                    if y == x {
                        assert(sorted@[p as int] == y);
                    }
                    if sorted@.contains(y) {
                        let j = choose|j: int| 0 <= j < sorted@.len() && sorted@[j] == y;
                        if j < p {
                            assert(before[j] == y);
                        } else if j > p {
                            assert(before[j - 1] == y);
                        }
                    }
                }
            } else {
                assert(before.contains(x));
            }
        }
        assert forall|y: usize| seen.push(x).contains(y) <==> seen.contains(y) || y == x by {
            if seen.contains(y) {
                let j = choose|j: int| 0 <= j < seen.len() && seen[j] == y;
                assert(seen.push(x)[j] == y);
            }
            if y == x {
                assert(seen.push(x)[i as int] == y);
            }
            if seen.push(x).contains(y) {
                let j = choose|j: int| 0 <= j < seen.push(x).len() && seen.push(x)[j] == y;
                if j < i {
                    assert(seen[j] == y);
                }
            }
        }
        assert(forall|y: usize|
            sorted@.contains(y) <==> before.contains(y) || (y == x && x < limit));
        assert forall|y: usize|
            sorted@.contains(y) <==> indices@.take(i + 1).contains(y) && y < limit by {
            assert(seen.push(x).contains(y) <==> seen.contains(y) || y == x);
            assert(before.contains(y) <==> seen.contains(y) && y < limit);
        }
        i += 1;
    }
    assert(indices@.take(i as int) == indices@);
    sorted
}

/// Whether the list of indices names the position `at`.
pub fn names_position(indices: &Vec<usize>, at: usize) -> (named: bool)
    ensures
        named == index_set(indices@).contains(at as int),
{
    let mut k: usize = 0;
    while k < indices.len()
        invariant
            k <= indices@.len(),
            forall|j: int| 0 <= j < k ==> indices@[j] != at,
        decreases indices@.len() - k,
    {
        if indices[k] == at {
            return true;
        }
        k += 1;
    }
    false
}

/// Removes the items at the given positions and says how many it removed.
/// The positions may come in any order and more than once; one that names
/// no item is passed over. What is left keeps its order.
pub fn remove_positions<T>(items: &mut Vec<T>, indices: &Vec<usize>) -> (count: usize)
    ensures
        final(items)@ == without(old(items)@, index_set(indices@)),
        count == old(items)@.len() - final(items)@.len(),
{
    let ghost start = items@;
    let sorted = descending_below(indices, items.len());
    let mut k: usize = 0;
    proof {
        assert(index_set(sorted@.take(0)) =~= Set::<int>::empty());
        lemma_without_untouched(start, index_set(sorted@.take(0)));
    }
    while k < sorted.len()
        invariant
            k <= sorted@.len(),
            strictly_descending(sorted@),
            forall|x: usize| sorted@.contains(x) ==> x < start.len(),
            items@ == without(start, index_set(sorted@.take(k as int))),
            items@.len() == start.len() - k,
        decreases sorted@.len() - k,
    {
        let at = sorted[k];
        proof {
            let shorter = sorted@.take(k as int);
            let longer = sorted@.take(k + 1);
            let doomed = index_set(shorter);
            assert(sorted@.contains(at));
            assert(longer == shorter.push(at));
            assert forall|i: int| 0 <= i <= at implies !doomed.contains(i) by {
                if doomed.contains(i) {
                    let j = choose|j: int| 0 <= j < shorter.len() && shorter[j] == i;
                    assert(sorted@[j] > sorted@[k as int]);
                }
            }
            lemma_without_one_more(start, doomed, at as int);
            assert forall|i: int| index_set(longer).contains(i) implies doomed.insert(
                at as int,
            ).contains(i) by {
                let j = choose|j: int| 0 <= j < longer.len() && longer[j] == i;
                if j < k {
                    assert(shorter[j] == i);
                }
            }
            assert forall|i: int| doomed.insert(at as int).contains(i) implies index_set(
                longer,
            ).contains(i) by {
                if i == at {
                    assert(longer[k as int] == i);
                } else {
                    let j = choose|j: int| 0 <= j < shorter.len() && shorter[j] == i;
                    assert(longer[j] == i);
                }
            }
            assert(index_set(longer) =~= doomed.insert(at as int));
        }
        items.remove(at);
        k += 1;
    }
    proof {
        assert(sorted@.take(k as int) == sorted@);
        assert forall|i: int| 0 <= i < start.len() implies index_set(sorted@).contains(i)
            == index_set(indices@).contains(i) by {
            if index_set(sorted@).contains(i) {
                let j = choose|j: int| 0 <= j < sorted@.len() && sorted@[j] == i;
                assert(sorted@.contains(sorted@[j]));
                assert(indices@.contains(i as usize));
            }
            if index_set(indices@).contains(i) {
                let j = choose|j: int| 0 <= j < indices@.len() && indices@[j] == i;
                assert(indices@.contains(indices@[j]));
                assert(sorted@.contains(i as usize));
            }
        }
        lemma_without_agree(start, index_set(sorted@), index_set(indices@));
    }
    k
}

} // verus!
