//! Does the boss only ever hit back, and hit back often enough?
//!
//! The record of a day is a string of `S` (a kid shoots at the boss) and `R`
//! (the boss retaliates). He is a good boy when he never retaliates before
//! he was shot at, and answers every volley of shots with at least as many
//! retaliations before the next volley begins.

use std::ops::Deref;
use vstd::prelude::*;
use vstd::std_specs::convert::TryFromSpecImpl;
use vstd::std_specs::iter::IteratorSpec;
use vstd::utf8::{encode_utf8, is_ascii_chars, is_ascii_chars_encode_utf8};

verus! {

/// The longest record that is accepted, in bytes.
pub const MAX_INPUT_LEN: usize = 1000000;

/// One entry of the record.
#[derive(Debug, PartialEq, Eq, Structural, Clone, Copy)]
pub enum Action {
    /// A shot at the boss.
    S,
    /// The boss retaliates.
    R,
}

/// The verdict.
#[derive(Debug, PartialEq, Eq, Structural)]
pub enum Output {
    /// Every volley was answered in full, and nothing else was done.
    GoodBoy,
    /// He retaliated unprovoked, or left a volley short of answers.
    BadBoy,
}

/// Why a string is not a record.
#[derive(Debug, PartialEq, Eq, Structural)]
pub enum InputConversionError {
    /// The string is empty.
    EmptyString,
    /// The string is longer than `MAX_INPUT_LEN` bytes.
    StringOverMaxLength,
    /// The string holds a character other than `S` and `R`.
    InvalidCharacter,
}

/// What one stretch of the record, shots and then retaliations, amounts to.
#[derive(Debug, PartialEq, Eq, Structural)]
pub enum SequenceType {
    /// There were shots, and at least as many retaliations after them.
    Valid,
    /// Retaliations without shots before them, or fewer than the shots.
    Invalid,
    /// Nothing was left of the record.
    Empty,
}

/// A record: between one and `MAX_INPUT_LEN` actions.
#[derive(Debug, PartialEq, Eq)]
pub struct Input(Vec<Action>);

/// The action that a character stands for.
pub open spec fn action_of(c: char) -> Option<Action> {
    if c == 'S' {
        Some(Action::S)
    } else if c == 'R' {
        Some(Action::R)
    } else {
        None
    }
}

/// Every character stands for an action.
pub open spec fn all_actions(text: Seq<char>) -> bool {
    forall|i: int| 0 <= i < text.len() ==> #[trigger] action_of(text[i]) is Some
}

/// What is wrong with a string as a record, if anything: emptiness is
/// looked at first, then the length in bytes, then the characters.
pub open spec fn conversion_fault(text: Seq<char>) -> Option<InputConversionError> {
    if text.len() == 0 {
        Some(InputConversionError::EmptyString)
    } else if encode_utf8(text).len() > MAX_INPUT_LEN {
        Some(InputConversionError::StringOverMaxLength)
    } else if !all_actions(text) {
        Some(InputConversionError::InvalidCharacter)
    } else {
        None
    }
}

/// The record that a string of `S` and `R` spells.
pub open spec fn actions_of(text: Seq<char>) -> Seq<Action> {
    Seq::new(text.len(), |i: int| action_of(text[i]).unwrap())
}

/// Where the run of `a` that begins at `from` ends: the index of the first
/// entry at or after `from` that is not `a`, or the length of the record.
pub open spec fn run_end(record: Seq<Action>, from: int, a: Action) -> int
    decreases record.len() - from,
{
    if 0 <= from < record.len() && record[from] == a {
        run_end(record, from + 1, a)
    } else {
        from
    }
}

/// How many shots in a row begin at `from`.
pub open spec fn shots_at(record: Seq<Action>, from: int) -> int {
    run_end(record, from, Action::S) - from
}

/// How many retaliations in a row follow the shots that begin at `from`.
pub open spec fn answers_at(record: Seq<Action>, from: int) -> int {
    sequence_end(record, from) - run_end(record, from, Action::S)
}

/// Where the stretch of shots and then retaliations that begins at `from`
/// ends.
pub open spec fn sequence_end(record: Seq<Action>, from: int) -> int {
    run_end(record, run_end(record, from, Action::S), Action::R)
}

/// What a stretch of `shots` shots followed by `answers` retaliations
/// amounts to.
pub open spec fn classify(shots: int, answers: int) -> SequenceType {
    if shots == 0 && answers == 0 {
        SequenceType::Empty
    } else if 0 < shots <= answers {
        SequenceType::Valid
    } else {
        SequenceType::Invalid
    }
}

/// A volley begins at `i`: a shot that is the first entry or comes right
/// after a retaliation.
pub open spec fn is_volley_start(record: Seq<Action>, i: int) -> bool {
    &&& 0 <= i < record.len()
    &&& record[i] == Action::S
    &&& (i == 0 || record[i - 1] == Action::R)
}

/// The boss never retaliates first, and every volley of shots is followed
/// at once by at least as many retaliations.
pub open spec fn well_behaved(record: Seq<Action>) -> bool {
    &&& record.len() > 0 ==> record[0] == Action::S
    &&& forall|i: int| #[trigger]
        is_volley_start(record, i) ==> shots_at(record, i) <= answers_at(record, i)
}

/// The verdict on a record.
pub open spec fn verdict(record: Seq<Action>) -> Output {
    if well_behaved(record) {
        Output::GoodBoy
    } else {
        Output::BadBoy
    }
}

/// A run ends within the record, holds nothing but `a`, and stops at the
/// end of the record or before an entry that is not `a`.
pub proof fn lemma_run_end(record: Seq<Action>, from: int, a: Action)
    requires
        0 <= from <= record.len(),
    ensures
        from <= run_end(record, from, a) <= record.len(),
        forall|k: int| from <= k < run_end(record, from, a) ==> record[k] == a,
        run_end(record, from, a) < record.len() ==> record[run_end(record, from, a)] != a,
    decreases record.len() - from,
{
    if from < record.len() && record[from] == a {
        lemma_run_end(record, from + 1, a);
    }
}

/// A stretch of `a` that cannot be extended is the run that begins at
/// `from`.
pub proof fn lemma_run_end_is(record: Seq<Action>, from: int, end: int, a: Action)
    requires
        0 <= from <= end <= record.len(),
        forall|k: int| from <= k < end ==> record[k] == a,
        end < record.len() ==> record[end] != a,
    ensures
        run_end(record, from, a) == end,
    decreases end - from,
{
    if from < end {
        lemma_run_end_is(record, from + 1, end, a);
    }
}

/// Every shot belongs to a volley: going back from a shot at `at` there is
/// a volley start with nothing but shots from it up to `at`.
proof fn lemma_volley_start_before(record: Seq<Action>, at: int) -> (start: int)
    requires
        0 <= at < record.len(),
        record[at] == Action::S,
    ensures
        is_volley_start(record, start),
        start <= at,
        forall|k: int| start <= k <= at ==> record[k] == Action::S,
    decreases at,
{
    if at == 0 || record[at - 1] == Action::R {
        at
    } else {
        lemma_volley_start_before(record, at - 1)
    }
}

/// A record that ends with a shot leaves its last volley unanswered.
proof fn lemma_last_shot_is_unanswered(record: Seq<Action>)
    requires
        record.len() > 0,
        record[record.len() - 1] == Action::S,
    ensures
        !well_behaved(record),
{
    let n = record.len() as int;
    let start = lemma_volley_start_before(record, n - 1);
    lemma_run_end_is(record, start, n, Action::S);
    assert(shots_at(record, start) > answers_at(record, start));
}

impl View for Input {
    type V = Seq<Action>;

    /// The actions, in order.
    closed spec fn view(&self) -> Seq<Action> {
        self.0@
    }
}

impl Input {
    /// What every record satisfies once it exists.
    #[verifier::type_invariant]
    pub open spec fn wf(&self) -> bool {
        1 <= self@.len() <= MAX_INPUT_LEN
    }
}

impl<'a> TryFromSpecImpl<&'a str> for Input {
    /// Two vectors that hold the same actions need not be one vector, so
    /// the result is stated by `try_from` itself, over the view.
    open spec fn obeys_try_from_spec() -> bool {
        false
    }

    open spec fn try_from_spec(value: &'a str) -> Result<Self, InputConversionError> {
        arbitrary()
    }
}

impl<'a> TryFrom<&'a str> for Input {
    type Error = InputConversionError;

    /// Reads a record from a string of `S` and `R`, and names the first
    /// thing that is wrong with the string otherwise.
    fn try_from(value: &'a str) -> (r: Result<Self, InputConversionError>)
        ensures
            match r {
                Ok(input) => conversion_fault(value@) is None && input@ == actions_of(value@)
                    && input.wf(),
                Err(fault) => conversion_fault(value@) == Some(fault),
            },
    {
        if value.is_empty() {
            return Err(InputConversionError::EmptyString);
        }
        if value.as_bytes().len() > MAX_INPUT_LEN {
            return Err(InputConversionError::StringOverMaxLength);
        }
        let mut actions: Vec<Action> = Vec::new();
        let mut chars = value.chars();
        loop
            invariant
                chars.obeys_prophetic_iter_laws(),
                chars.decrease() is Some,
                actions@.len() <= value@.len(),
                chars.remaining() == value@.skip(actions@.len() as int),
                forall|k: int| 0 <= k < actions@.len() ==> action_of(value@[k]) == Some(actions@[k]),
                value@.len() > 0,
                encode_utf8(value@).len() <= MAX_INPUT_LEN,
            ensures
                actions@.len() == value@.len(),
            decreases value@.len() - actions@.len(),
        {
            match chars.next() {
                None => {
                    break;
                },
                Some(c) => {
                    let action = if c == 'S' {
                        Action::S
                    } else if c == 'R' {
                        Action::R
                    } else {
                        assert(action_of(value@[actions@.len() as int]) is None);
                        return Err(InputConversionError::InvalidCharacter);
                    };
                    assert(value@.skip(actions@.len() as int).drop_first() == value@.skip(
                        actions@.len() as int + 1,
                    ));
                    actions.push(action);
                },
            }
        }
        proof {
            assert(all_actions(value@)) by {
                assert forall|i: int| 0 <= i < value@.len() implies #[trigger] action_of(
                    value@[i],
                ) is Some by {
                    assert(action_of(value@[i]) == Some(actions@[i]));
                }
            }
            assert(is_ascii_chars(value@)) by {
                assert forall|i: int| 0 <= i < value@.len() implies (value@[i] as nat) < 128 by {
                    assert(action_of(value@[i]) is Some);
                }
            }
            is_ascii_chars_encode_utf8(value@);
            assert(actions@ =~= actions_of(value@));
        }
        Ok(Input(actions))
    }
}

impl Deref for Input {
    type Target = Vec<Action>;

    /// Borrows the actions.
    fn deref(&self) -> (v: &Vec<Action>)
        ensures
            v@ == self@,
    {
        &self.0
    }
}

/// Reads on from `cursor` over as many shots as follow and then as many
/// retaliations as follow, leaves `cursor` behind them, and says what the
/// stretch amounts to.
pub fn take_sequence(actions: &Vec<Action>, cursor: &mut usize) -> (kind: SequenceType)
    requires
        *old(cursor) <= actions@.len(),
    ensures
        *final(cursor) == sequence_end(actions@, *old(cursor) as int),
        *old(cursor) <= *final(cursor) <= actions@.len(),
        kind == classify(
            shots_at(actions@, *old(cursor) as int),
            answers_at(actions@, *old(cursor) as int),
        ),
{
    let n = actions.len();
    let from = *cursor;
    let mut at: usize = from;
    let mut s_count: usize = 0;
    let mut r_count: usize = 0;
    loop
        invariant
            n == actions@.len(),
            from <= at <= n,
            at == from + s_count + r_count,
            forall|k: int| from <= k < from + s_count ==> actions@[k] == Action::S,
            forall|k: int| from + s_count <= k < at ==> actions@[k] == Action::R,
        ensures
            at == n || (r_count > 0 && actions@[at as int] == Action::S),
        decreases n - at,
    {
        if at >= n {
            break;
        }
        match actions[at] {
            Action::S => {
                if r_count > 0 {
                    break;
                }
                s_count += 1;
                at += 1;
            },
            Action::R => {
                r_count += 1;
                at += 1;
            },
        }
    }
    proof {
        lemma_run_end_is(actions@, from as int, from + s_count, Action::S);
        lemma_run_end_is(actions@, from + s_count, at as int, Action::R);
    }
    *cursor = at;
    if s_count == 0 && r_count == 0 {
        SequenceType::Empty
    } else if 0 < s_count && s_count <= r_count {
        SequenceType::Valid
    } else {
        SequenceType::Invalid
    }
}

/// Whether the boss was a good boy.
pub fn check_boss_behavior(input: Input) -> (out: Output)
    ensures
        out == verdict(input@),
{
    proof {
        use_type_invariant(&input);
    }
    let n = input.0.len();
    match input.0[0] {
        Action::R => {
            return Output::BadBoy;
        },
        Action::S => {},
    }
    match input.0[n - 1] {
        Action::S => {
            proof {
                lemma_last_shot_is_unanswered(input@);
            }
            return Output::BadBoy;
        },
        Action::R => {},
    }
    let mut cursor: usize = 0;
    loop
        invariant
            n == input.0@.len(),
            input.0@ == input@,
            n > 0,
            input@[0] == Action::S,
            cursor <= n,
            cursor == n || is_volley_start(input@, cursor as int),
            forall|i: int|
                i < cursor && #[trigger] is_volley_start(input@, i) ==> shots_at(input@, i)
                    <= answers_at(input@, i),
        decreases n - cursor,
    {
        let ghost from = cursor as int;
        let kind = take_sequence(&input.0, &mut cursor);
        proof {
            lemma_run_end(input@, from, Action::S);
            lemma_run_end(input@, run_end(input@, from, Action::S), Action::R);
        }
        match kind {
            SequenceType::Invalid => {
                assert(is_volley_start(input@, from));
                return Output::BadBoy;
            },
            SequenceType::Empty => {
                assert(from == n);
                return Output::GoodBoy;
            },
            SequenceType::Valid => {
                let ghost mid = run_end(input@, from, Action::S);
                assert forall|i: int| i < cursor && #[trigger] is_volley_start(
                    input@,
                    i,
                ) implies shots_at(input@, i) <= answers_at(input@, i) by {
                    if from < i <= mid {
                        assert(input@[i - 1] == Action::S);
                    } else if mid < i {
                        assert(input@[i] == Action::R);
                    }
                }
                assert(cursor < n ==> input@[cursor - 1] == Action::R);
            },
        }
    }
}

} // verus!
