//! One roof, many chickens: how many can it protect at most?
//!
//! The input is validated by type. A [`ChickenNum`] and a [`RoofLength`] are
//! bounded integers, [`ChickenPositions`] is a checked list of positions, and
//! an [`Input`] is the three together with the count agreeing with the list.

use crate::coverage::{
    ascending, covered_from, is_max_protected, lemma_best_start_is_best_roof,
    lemma_covered_from_is_run,
};
use crate::limited_input_range::{LimitedInputRange, RangeError};
use itertools::Itertools;
use std::ops::Deref;
use vstd::prelude::*;
use vstd::std_specs::convert::TryFromSpecImpl;

verus! {

/// The most chickens an input may hold.
pub const MAX_CHICKEN_NUM_LENGTH: usize = 1000000;

/// The longest roof.
pub const MAX_ROOF_LENGTH: usize = 1000000;

/// The rightmost position a chicken may stand at. A list of positions may
/// also hold no more than this many entries.
pub const MAX_CHICKEN_POSITION: usize = 1000000000;

/// How many chickens there are.
pub type ChickenNum = LimitedInputRange<1, MAX_CHICKEN_NUM_LENGTH>;

/// How long the roof is.
pub type RoofLength = LimitedInputRange<1, MAX_ROOF_LENGTH>;

/// Why a list of positions was refused.
#[derive(Debug, PartialEq, Eq, Structural)]
pub enum ChickenPositionError {
    /// Two chickens stand at the same position.
    ChickenPositionNotUnique,
    /// A chicken stands outside `[1, MAX_CHICKEN_POSITION]`.
    PositionOutOfRange,
    /// The list is empty or too long.
    LengthError(RangeError),
}

/// The positions of the chickens: at least one, each in
/// `[1, MAX_CHICKEN_POSITION]`, no two the same. The order is the caller's.
#[derive(Debug, PartialEq, Eq)]
pub struct ChickenPositions(Vec<usize>);

/// Every position lies in `[1, MAX_CHICKEN_POSITION]`.
pub open spec fn all_in_range(values: Seq<usize>) -> bool {
    forall|i: int| 0 <= i < values.len() ==> 1 <= #[trigger] values[i] <= MAX_CHICKEN_POSITION
}

/// What is wrong with a list of positions, if anything. The length is
/// looked at first, then the range of each position, and only then whether
/// any position occurs twice.
pub open spec fn position_fault(values: Seq<usize>) -> Option<ChickenPositionError> {
    if values.len() < 1 {
        Some(ChickenPositionError::LengthError(RangeError::UnderRange))
    } else if values.len() > MAX_CHICKEN_POSITION {
        Some(ChickenPositionError::LengthError(RangeError::OverRange))
    } else if !all_in_range(values) {
        Some(ChickenPositionError::PositionOutOfRange)
    } else if !values.no_duplicates() {
        Some(ChickenPositionError::ChickenPositionNotUnique)
    } else {
        None
    }
}

/// A list that holds the same position twice is refused, wherever the two
/// stand in it.
pub proof fn lemma_duplicate_is_refused(values: Seq<usize>, i: int, j: int)
    requires
        0 <= i < j < values.len(),
        values[i] == values[j],
    ensures
        position_fault(values) is Some,
{
}

/// `Itertools::unique` followed by `count`: the adaptor lets each value
/// through the first time it occurs and never again, so what is counted is
/// the number of different values in `values`.
#[verifier::external_body]
fn distinct_count(values: &Vec<usize>) -> (n: usize)
    ensures
        n == values@.to_set().len(),
{
    values.iter().unique().count()
}

impl View for ChickenPositions {
    type V = Seq<usize>;

    /// The positions, in the order they were given.
    closed spec fn view(&self) -> Seq<usize> {
        self.0@
    }
}

impl ChickenPositions {
    /// What every list of positions satisfies once it exists.
    #[verifier::type_invariant]
    pub open spec fn wf(&self) -> bool {
        position_fault(self@) is None
    }

    /// Whether the positions never go down from one chicken to the next,
    /// which is what the solvers ask for.
    pub fn is_ascending(&self) -> (yes: bool)
        ensures
            yes == ascending(self@),
    {
        proof {
            use_type_invariant(self);
        }
        let n = self.0.len();
        let mut i: usize = 1;
        while i < n
            invariant
                1 <= i <= n,
                n == self.0@.len(),
                forall|a: int, b: int| 0 <= a < b < i ==> self.0@[a] <= self.0@[b],
            decreases n - i,
        {
            if self.0[i - 1] > self.0[i] {
                return false;
            }
            assert forall|a: int, b: int| 0 <= a < b < i + 1 implies self.0@[a] <= self.0@[b] by {
                if b == i && a < i - 1 {
                    assert(self.0@[a] <= self.0@[i - 1]);
                }
            }
            i += 1;
        }
        true
    }
}

impl TryFromSpecImpl<Vec<usize>> for ChickenPositions {
    open spec fn obeys_try_from_spec() -> bool {
        true
    }

    /// What `try_from` returns.
    closed spec fn try_from_spec(value: Vec<usize>) -> Result<Self, ChickenPositionError> {
        match position_fault(value@) {
            Some(fault) => Err(fault),
            None => Ok(ChickenPositions(value)),
        }
    }
}

impl TryFrom<Vec<usize>> for ChickenPositions {
    type Error = ChickenPositionError;

    /// Takes the list over when nothing is wrong with it, and names the
    /// first thing that is wrong otherwise.
    fn try_from(value: Vec<usize>) -> (r: Result<Self, ChickenPositionError>)
        ensures
            match r {
                Ok(positions) => position_fault(value@) is None && positions@ == value@
                    && positions.wf(),
                Err(fault) => position_fault(value@) == Some(fault),
            },
    {
        let range = LimitedInputRange::<1, MAX_CHICKEN_POSITION>::try_from(value.len());
        match range {
            Err(fault) => {
                return Err(ChickenPositionError::LengthError(fault));
            },
            Ok(_) => {},
        }
        let n = value.len();
        let mut i: usize = 0;
        while i < n
            invariant
                i <= n,
                n == value@.len(),
                1 <= n <= MAX_CHICKEN_POSITION,
                forall|k: int| 0 <= k < i ==> 1 <= #[trigger] value@[k] <= MAX_CHICKEN_POSITION,
            decreases n - i,
        {
            if value[i] < 1 || value[i] > MAX_CHICKEN_POSITION {
                assert(!(1 <= value@[i as int] <= MAX_CHICKEN_POSITION));
                return Err(ChickenPositionError::PositionOutOfRange);
            }
            i += 1;
        }
        let all_chicken_positions_unique = distinct_count(&value) == n;
        proof {
            if all_chicken_positions_unique {
                value@.lemma_no_dup_set_cardinality();
            }
            if value@.no_duplicates() {
                value@.unique_seq_to_set();
            }
        }
        if !all_chicken_positions_unique {
            return Err(ChickenPositionError::ChickenPositionNotUnique);
        }
        Ok(ChickenPositions(value))
    }
}

impl Deref for ChickenPositions {
    type Target = Vec<usize>;

    /// Borrows the list.
    fn deref(&self) -> (v: &Vec<usize>)
        ensures
            v@ == self@,
    {
        &self.0
    }
}

/// Why the three parts of an input do not go together.
#[derive(Debug, PartialEq, Eq, Structural)]
pub enum InputError {
    /// The number of chickens is not the number of positions.
    ChickenNumNotMatch,
}

/// A whole, consistent input: the announced number of chickens is the
/// number of positions.
#[derive(Debug, PartialEq, Eq)]
pub struct Input {
    chicken_num: ChickenNum,
    roof_length: RoofLength,
    chicken_positions: ChickenPositions,
}

/// What an [`Input`] holds.
pub ghost struct InputView {
    /// The announced number of chickens.
    pub chicken_num: int,
    /// The length of the roof.
    pub roof_length: int,
    /// Where the chickens stand.
    pub chicken_positions: Seq<usize>,
}

impl View for Input {
    type V = InputView;

    closed spec fn view(&self) -> InputView {
        InputView {
            chicken_num: self.chicken_num@,
            roof_length: self.roof_length@,
            chicken_positions: self.chicken_positions@,
        }
    }
}

impl Input {
    /// What every input satisfies once it exists: each part is valid by
    /// itself, and the count is the number of positions.
    #[verifier::type_invariant]
    pub open spec fn wf(&self) -> bool {
        &&& 1 <= self@.chicken_num <= MAX_CHICKEN_NUM_LENGTH
        &&& 1 <= self@.roof_length <= MAX_ROOF_LENGTH
        &&& position_fault(self@.chicken_positions) is None
        &&& self@.chicken_num == self@.chicken_positions.len()
    }

    /// Puts the three parts together, unless the number of chickens is not
    /// the number of positions.
    pub fn new(
        chicken_num: ChickenNum,
        roof_length: RoofLength,
        chicken_positions: ChickenPositions,
    ) -> (r: Result<Self, InputError>)
        ensures
            match r {
                Ok(input) => chicken_num@ == chicken_positions@.len() && input@ == (InputView {
                    chicken_num: chicken_num@,
                    roof_length: roof_length@,
                    chicken_positions: chicken_positions@,
                }) && input.wf(),
                Err(fault) => chicken_num@ != chicken_positions@.len() && fault
                    == InputError::ChickenNumNotMatch,
            },
    {
        proof {
            use_type_invariant(&chicken_num);
            use_type_invariant(&roof_length);
            use_type_invariant(&chicken_positions);
        }
        if chicken_num.value() != chicken_positions.len() {
            return Err(InputError::ChickenNumNotMatch);
        }
        Ok(Input { chicken_num, roof_length, chicken_positions })
    }

    /// The announced number of chickens.
    pub fn chicken_num(&self) -> (count: ChickenNum)
        ensures
            count@ == self@.chicken_num,
    {
        self.chicken_num
    }

    /// The length of the roof.
    pub fn roof_length(&self) -> (roof: RoofLength)
        ensures
            roof@ == self@.roof_length,
    {
        self.roof_length
    }

    /// Where the chickens stand.
    pub fn chicken_positions(&self) -> (positions: &ChickenPositions)
        ensures
            positions@ == self@.chicken_positions,
    {
        &self.chicken_positions
    }
}

/// How many chickens the roof protects when its left end is at chicken
/// `start`: that chicken, and each one after it up to the first that stands
/// `roof_length` or more to the right.
pub fn protected_from(positions: &ChickenPositions, roof_length: RoofLength, start: usize) -> (count:
    usize)
    requires
        ascending(positions@),
        start < positions@.len(),
    ensures
        count == covered_from(positions@, start as int, roof_length@),
        1 <= count <= positions@.len() - start,
{
    proof {
        use_type_invariant(positions);
        use_type_invariant(&roof_length);
    }
    let roof = roof_length.value();
    let n = positions.0.len();
    let first = positions.0[start];
    let mut end: usize = start + 1;
    while end < n && positions.0[end] - first < roof
        invariant
            start < end <= n,
            n == positions.0@.len(),
            first == positions.0@[start as int],
            ascending(positions.0@),
            1 <= roof,
            forall|k: int| start <= k < end ==> positions.0@[k] - first < roof,
        decreases n - end,
    {
        end += 1;
    }
    proof {
        lemma_covered_from_is_run(positions@, start as int, end as int, roof as int);
    }
    end - start
}

/// The largest of the counts.
pub fn largest_count(counts: &Vec<usize>) -> (best: usize)
    requires
        counts@.len() > 0,
    ensures
        exists|i: int| 0 <= i < counts@.len() && counts@[i] == best,
        forall|i: int| 0 <= i < counts@.len() ==> counts@[i] <= best,
{
    let mut best: usize = counts[0];
    let mut i: usize = 1;
    while i < counts.len()
        invariant
            1 <= i <= counts@.len(),
            exists|k: int| 0 <= k < i && counts@[k] == best,
            forall|k: int| 0 <= k < i ==> counts@[k] <= best,
        decreases counts@.len() - i,
    {
        if counts[i] > best {
            best = counts[i];
        }
        i += 1;
    }
    best
}

/// The largest number of chickens that one roof can protect, found by
/// trying the roof at every chicken in turn and keeping the best count.
pub fn max_chicken_protected(input: Input) -> (best: usize)
    requires
        ascending(input@.chicken_positions),
    ensures
        is_max_protected(input@.chicken_positions, input@.roof_length, best as int),
        1 <= best <= input@.chicken_positions.len(),
{
    proof {
        use_type_invariant(&input);
    }
    let n = input.chicken_positions.0.len();
    let mut counts: Vec<usize> = Vec::new();
    let mut i: usize = 0;
    while i < n
        invariant
            i <= n,
            n == input@.chicken_positions.len(),
            ascending(input@.chicken_positions),
            counts@.len() == i,
            forall|k: int|
                0 <= k < i ==> counts@[k] == #[trigger] covered_from(
                    input@.chicken_positions,
                    k,
                    input@.roof_length,
                ),
            forall|k: int| 0 <= k < i ==> 1 <= #[trigger] counts@[k] <= n,
        decreases n - i,
    {
        let count = protected_from(&input.chicken_positions, input.roof_length, i);
        counts.push(count);
        i += 1;
    }
    let best = largest_count(&counts);
    proof {
        let at = choose|k: int| 0 <= k < counts@.len() && counts@[k] == best;
        assert(covered_from(input@.chicken_positions, at, input@.roof_length) == best);
        assert(1 <= counts@[at] <= n);
        lemma_best_start_is_best_roof(
            input@.chicken_positions,
            input@.roof_length,
            best as int,
        );
    }
    best
}

/// The same maximum as [`max_chicken_protected`], found in one sweep: the
/// right end of the roof only ever moves forward while the left end steps
/// from chicken to chicken.
pub fn max_chicken_protected_sweep(input: Input) -> (best: usize)
    requires
        ascending(input@.chicken_positions),
    ensures
        is_max_protected(input@.chicken_positions, input@.roof_length, best as int),
        1 <= best <= input@.chicken_positions.len(),
{
    proof {
        use_type_invariant(&input);
    }
    let roof = input.roof_length.value();
    let n = input.chicken_positions.0.len();
    let mut best: usize = 0;
    let mut end: usize = 0;
    let mut start: usize = 0;
    let ghost mut at: int = 0;
    while start < n
        invariant
            start <= n,
            start <= end <= n,
            n == input@.chicken_positions.len(),
            n == input.chicken_positions.0@.len(),
            input.chicken_positions.0@ == input@.chicken_positions,
            roof == input@.roof_length,
            1 <= roof,
            ascending(input@.chicken_positions),
            input@.chicken_positions.no_duplicates(),
            forall|k: int|
                start <= k < end ==> input@.chicken_positions[k] - input@.chicken_positions[start as int]
                    < roof,
            forall|k: int|
                0 <= k < start ==> #[trigger] covered_from(
                    input@.chicken_positions,
                    k,
                    input@.roof_length,
                ) <= best,
            start > 0 ==> 0 <= at < start && covered_from(
                input@.chicken_positions,
                at,
                input@.roof_length,
            ) == best,
            best <= n,
            start == 0 ==> best == 0,
            start > 0 ==> 1 <= best,
        decreases n - start,
    {
        let first = input.chicken_positions.0[start];
        if end == start {
            end = start + 1;
        }
        while end < n && input.chicken_positions.0[end] - first < roof
            invariant
                start < end <= n,
                n == input.chicken_positions.0@.len(),
                input.chicken_positions.0@ == input@.chicken_positions,
                first == input@.chicken_positions[start as int],
                ascending(input@.chicken_positions),
                forall|k: int| start <= k < end ==> input@.chicken_positions[k] - first < roof,
            decreases n - end,
        {
            end += 1;
        }
        proof {
            lemma_covered_from_is_run(
                input@.chicken_positions,
                start as int,
                end as int,
                roof as int,
            );
        }
        let count = end - start;
        if count > best {
            best = count;
            proof {
                at = start as int;
            }
        }
        proof {
            let s = input@.chicken_positions;
            if start + 1 < n {
                assert forall|k: int| start + 1 <= k < end implies #[trigger] s[k] - s[start + 1]
                    < roof by {
                    assert(s[start as int] <= s[start + 1]);
                }
            }
        }
        start += 1;
    }
    proof {
        lemma_best_start_is_best_roof(
            input@.chicken_positions,
            input@.roof_length,
            best as int,
        );
    }
    best
}

} // verus!
