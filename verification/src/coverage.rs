//! The mathematics of covering points on a line with one roof.
//!
//! Chickens stand at integer positions; a roof of length `roof` whose left
//! end is at `start` protects exactly the chickens at a position in the
//! half-open interval `[start, start + roof)`.

use vstd::prelude::*;
use vstd::set_lib::{lemma_int_range, lemma_len_subset, set_int_range};

verus! {

/// The positions never go down from one chicken to the next.
pub open spec fn ascending(positions: Seq<usize>) -> bool {
    forall|i: int, j: int| 0 <= i < j < positions.len() ==> positions[i] <= positions[j]
}

/// The chickens, by index, that a roof of length `roof` with its left end at
/// `start` protects.
pub open spec fn covered(positions: Seq<usize>, start: int, roof: int) -> Set<int> {
    Set::new(|k: int| 0 <= k < positions.len() && start <= positions[k] < start + roof)
}

/// How many chickens the roof that starts at chicken `i` protects.
pub open spec fn covered_from(positions: Seq<usize>, i: int, roof: int) -> nat {
    covered(positions, positions[i] as int, roof).len()
}

/// `best` is the largest number of chickens that one roof of length `roof`
/// can protect: a roof that starts at some chicken protects that many, and
/// no roof, wherever it starts, protects more.
pub open spec fn is_max_protected(positions: Seq<usize>, roof: int, best: int) -> bool {
    &&& exists|i: int| 0 <= i < positions.len() && #[trigger] covered_from(positions, i, roof) == best
    &&& forall|start: int| #[trigger] covered(positions, start, roof).len() <= best
}

/// Whatever the roof, the chickens under it are finitely many, and no more
/// than there are chickens.
pub proof fn lemma_covered_finite(positions: Seq<usize>, start: int, roof: int)
    ensures
        covered(positions, start, roof).finite(),
        covered(positions, start, roof).len() <= positions.len(),
{
    let all = set_int_range(0, positions.len() as int);
    lemma_int_range(0, positions.len() as int);
    assert(covered(positions, start, roof).subset_of(all));
    lemma_len_subset(covered(positions, start, roof), all);
}

/// In ascending order without repeats, the chickens under the roof that
/// starts at chicken `i` are those from `i` up to, not including, the first
/// chicken `end` that stands `roof` or more to the right.
pub proof fn lemma_covered_from_is_run(positions: Seq<usize>, i: int, end: int, roof: int)
    requires
        ascending(positions),
        positions.no_duplicates(),
        0 <= i < end <= positions.len(),
        forall|k: int| i <= k < end ==> positions[k] - positions[i] < roof,
        end < positions.len() ==> positions[end] - positions[i] >= roof,
    ensures
        covered(positions, positions[i] as int, roof) == set_int_range(i, end),
        covered_from(positions, i, roof) == end - i,
{
    let under = covered(positions, positions[i] as int, roof);
    assert forall|k: int| under.contains(k) <==> set_int_range(i, end).contains(k) by {
        if 0 <= k < i {
            assert(positions[k] <= positions[i] && positions[k] != positions[i]);
        }
        if end <= k < positions.len() {
            assert(positions[end] <= positions[k]);
        }
        if i < k < end {
            assert(positions[i] <= positions[k]);
        }
    }
    assert(under =~= set_int_range(i, end));
    lemma_int_range(i, end);
}

/// The index of the first chicken at or to the right of `start`, looking
/// from chicken `from` on; the number of chickens if there is none.
pub open spec fn first_at_or_after(positions: Seq<usize>, start: int, from: int) -> int
    decreases positions.len() - from,
{
    if 0 <= from < positions.len() && positions[from] < start {
        first_at_or_after(positions, start, from + 1)
    } else {
        from
    }
}

proof fn lemma_first_at_or_after(positions: Seq<usize>, start: int, from: int)
    requires
        0 <= from <= positions.len(),
    ensures
        from <= first_at_or_after(positions, start, from) <= positions.len(),
        forall|k: int|
            from <= k < first_at_or_after(positions, start, from) ==> positions[k] < start,
        first_at_or_after(positions, start, from) < positions.len() ==> positions[first_at_or_after(
            positions,
            start,
            from,
        )] >= start,
    decreases positions.len() - from,
{
    if from < positions.len() && positions[from] < start {
        lemma_first_at_or_after(positions, start, from + 1);
    }
}

/// Sliding a roof to the right until its left end meets the first chicken
/// under it loses no chicken: in ascending order, a roof that protects
/// anyone protects no more than the roof that starts at that chicken.
pub proof fn lemma_roof_slides_to_chicken(positions: Seq<usize>, start: int, roof: int)
    requires
        ascending(positions),
    ensures
        covered(positions, start, roof).len() == 0 || exists|i: int|
            0 <= i < positions.len() && covered(positions, start, roof).len()
                <= #[trigger] covered_from(positions, i, roof),
{
    let under = covered(positions, start, roof);
    let m = first_at_or_after(positions, start, 0);
    lemma_first_at_or_after(positions, start, 0);
    if m == positions.len() {
        assert(under =~= Set::empty());
    } else {
        let anchored = covered(positions, positions[m] as int, roof);
        assert forall|k: int| under.contains(k) implies anchored.contains(k) by {
            if k < m {
                assert(positions[k] < start);
            } else if k > m {
                assert(positions[m] <= positions[k]);
            }
        }
        lemma_covered_finite(positions, positions[m] as int, roof);
        lemma_len_subset(under, anchored);
        assert(under.len() <= covered_from(positions, m, roof));
    }
}

/// The largest of the per-chicken counts is the largest number any roof can
/// protect.
pub proof fn lemma_best_start_is_best_roof(positions: Seq<usize>, roof: int, best: int)
    requires
        ascending(positions),
        positions.len() > 0,
        exists|i: int| 0 <= i < positions.len() && #[trigger] covered_from(positions, i, roof) == best,
        forall|i: int| 0 <= i < positions.len() ==> #[trigger] covered_from(positions, i, roof) <= best,
    ensures
        is_max_protected(positions, roof, best),
{
    assert forall|start: int| #[trigger] covered(positions, start, roof).len() <= best by {
        lemma_roof_slides_to_chicken(positions, start, roof);
    }
}

/// The maximum is a function of the positions and the roof length alone:
/// two answers that are both maximal are the same number, whichever way
/// and however often they were computed.
pub proof fn lemma_max_protected_unique(positions: Seq<usize>, roof: int, a: int, b: int)
    requires
        is_max_protected(positions, roof, a),
        is_max_protected(positions, roof, b),
    ensures
        a == b,
{
    let i = choose|i: int| 0 <= i < positions.len() && #[trigger] covered_from(positions, i, roof) == a;
    let j = choose|j: int| 0 <= j < positions.len() && #[trigger] covered_from(positions, j, roof) == b;
    assert(covered(positions, positions[i] as int, roof).len() <= b);
    assert(covered(positions, positions[j] as int, roof).len() <= a);
}

} // verus!
