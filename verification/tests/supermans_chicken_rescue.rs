use coding_puzzles::limited_input_range::RangeError;
use coding_puzzles::supermans_chicken_rescue::{
    largest_count, max_chicken_protected, max_chicken_protected_sweep, protected_from,
    ChickenNum, ChickenPositionError, ChickenPositions, Input, InputError, RoofLength,
    MAX_CHICKEN_NUM_LENGTH, MAX_CHICKEN_POSITION, MAX_ROOF_LENGTH,
};

fn input(roof: usize, positions: Vec<usize>) -> Input {
    Input::new(
        positions.len().try_into().unwrap(),
        roof.try_into().unwrap(),
        positions.try_into().unwrap(),
    )
    .unwrap()
}

#[test]
fn test_chicken_num_not_match() {
    assert_eq!(
        Input::new(
            1.try_into().unwrap(),
            1.try_into().unwrap(),
            vec![1, 2].try_into().unwrap()
        ),
        Err(InputError::ChickenNumNotMatch)
    );
}

#[test]
fn test_chicken_num_out_of_range() {
    assert_eq!(ChickenNum::try_from(0), Err(RangeError::UnderRange));
    assert_eq!(
        ChickenNum::try_from(MAX_CHICKEN_NUM_LENGTH + 1),
        Err(RangeError::OverRange)
    )
}

#[test]
fn test_roof_length_out_of_range() {
    assert_eq!(RoofLength::try_from(0), Err(RangeError::UnderRange));
    assert_eq!(
        RoofLength::try_from(MAX_ROOF_LENGTH + 1),
        Err(RangeError::OverRange)
    );
}

#[test]
fn test_chicken_position_out_of_range() {
    assert_eq!(
        ChickenPositions::try_from(vec![0, MAX_CHICKEN_POSITION + 1]),
        Err(ChickenPositionError::PositionOutOfRange)
    );
}

#[test]
fn test_chicken_position_not_unique() {
    assert_eq!(
        ChickenPositions::try_from(vec![1, 2, 2]),
        Err(ChickenPositionError::ChickenPositionNotUnique)
    );
}

#[test]
fn test_chicken_position_length_range() {
    assert_eq!(
        ChickenPositions::try_from(vec![]),
        Err(ChickenPositionError::LengthError(RangeError::UnderRange))
    );
}

#[test]
fn test_1() {
    let input = Input::new(
        5.try_into().unwrap(),
        5.try_into().unwrap(),
        vec![2, 5, 10, 12, 15].try_into().unwrap(),
    )
    .unwrap();
    assert_eq!(max_chicken_protected(input), 2);
}

#[test]
fn test_2() {
    let input = Input::new(
        6.try_into().unwrap(),
        10.try_into().unwrap(),
        vec![1, 11, 30, 34, 35, 37].try_into().unwrap(),
    )
    .unwrap();
    assert_eq!(max_chicken_protected(input), 4);
}

#[test]
fn test_3() {
    let input = Input::new(
        6.try_into().unwrap(),
        10.try_into().unwrap(),
        vec![1, 2, 3, 4, 5, 6].try_into().unwrap(),
    )
    .unwrap();
    assert_eq!(max_chicken_protected(input), 6);
}

#[test]
fn test_4() {
    let input = Input::new(
        6.try_into().unwrap(),
        4.try_into().unwrap(),
        vec![1, 2, 4, 5, 6, 8].try_into().unwrap(),
    )
    .unwrap();
    assert_eq!(max_chicken_protected(input), 3);
}

#[test]
fn single_chicken_is_protected_by_any_roof() {
    for roof in [1usize, 2, 7, 1000, MAX_ROOF_LENGTH] {
        assert_eq!(max_chicken_protected(input(roof, vec![7])), 1);
        assert_eq!(max_chicken_protected_sweep(input(roof, vec![7])), 1);
    }
}

#[test]
fn roof_of_length_one_protects_one() {
    assert_eq!(max_chicken_protected(input(1, vec![1, 2, 3, 4])), 1);
    assert_eq!(max_chicken_protected_sweep(input(1, vec![1, 2, 3, 4])), 1);
}

#[test]
fn window_is_half_open() {
    // 1 and 5 are exactly 4 apart: a roof of 4 covers [1, 5), a roof of 5 covers both.
    assert_eq!(max_chicken_protected(input(4, vec![1, 5])), 1);
    assert_eq!(max_chicken_protected(input(5, vec![1, 5])), 2);
    assert_eq!(max_chicken_protected_sweep(input(4, vec![1, 5])), 1);
    assert_eq!(max_chicken_protected_sweep(input(5, vec![1, 5])), 2);
}

#[test]
fn best_window_at_the_far_end() {
    let positions = vec![1, 100, 200, MAX_CHICKEN_POSITION - 2, MAX_CHICKEN_POSITION - 1, MAX_CHICKEN_POSITION];
    assert_eq!(max_chicken_protected(input(3, positions.clone())), 3);
    assert_eq!(max_chicken_protected_sweep(input(3, positions)), 3);
}

#[test]
fn both_solvers_agree_on_the_scenarios() {
    let vectors: Vec<(usize, Vec<usize>, usize)> = vec![
        (5, vec![2, 5, 10, 12, 15], 2),
        (10, vec![1, 11, 30, 34, 35, 37], 4),
        (10, vec![1, 2, 3, 4, 5, 6], 6),
        (4, vec![1, 2, 4, 5, 6, 8], 3),
        (9, vec![7], 1),
        (3, vec![1, 2, 3, 10, 11, 12, 13, 20], 3),
        (1000, vec![5, 900, 1004, 1005, 2000, 2004], 3),
    ];
    for (roof, positions, expected) in vectors {
        let by_starts = max_chicken_protected(input(roof, positions.clone()));
        let by_sweep = max_chicken_protected_sweep(input(roof, positions));
        assert_eq!(by_starts, expected);
        assert_eq!(by_sweep, expected);
    }
}

#[test]
fn both_solvers_agree_with_a_plain_count() {
    // every subset of 1..=10 that is not empty, every roof from 1 to 12
    for mask in 1u32..(1 << 10) {
        let positions: Vec<usize> = (1..=10usize).filter(|p| mask & (1 << (p - 1)) != 0).collect();
        for roof in 1..=12usize {
            let mut expected = 0;
            for start in 0..=12usize {
                let under = positions.iter().filter(|&&p| start <= p && p < start + roof).count();
                if under > expected {
                    expected = under;
                }
            }
            assert_eq!(max_chicken_protected(input(roof, positions.clone())), expected);
            assert_eq!(max_chicken_protected_sweep(input(roof, positions.clone())), expected);
        }
    }
}

#[test]
fn solving_twice_gives_the_same() {
    let first = max_chicken_protected(input(10, vec![1, 11, 30, 34, 35, 37]));
    let second = max_chicken_protected(input(10, vec![1, 11, 30, 34, 35, 37]));
    assert_eq!(first, second);
    let third = max_chicken_protected_sweep(input(10, vec![1, 11, 30, 34, 35, 37]));
    let fourth = max_chicken_protected_sweep(input(10, vec![1, 11, 30, 34, 35, 37]));
    assert_eq!(third, fourth);
}

#[test]
fn protected_from_counts_each_start() {
    let positions: ChickenPositions = vec![1, 11, 30, 34, 35, 37].try_into().unwrap();
    let roof: RoofLength = 10.try_into().unwrap();
    let counts: Vec<usize> = (0..6).map(|i| protected_from(&positions, roof, i)).collect();
    assert_eq!(counts, vec![1, 1, 4, 3, 2, 1]);
    assert_eq!(largest_count(&counts), 4);
}

#[test]
fn largest_count_picks_the_maximum() {
    assert_eq!(largest_count(&vec![3]), 3);
    assert_eq!(largest_count(&vec![1, 5, 2]), 5);
    assert_eq!(largest_count(&vec![7, 7, 1]), 7);
    assert_eq!(largest_count(&vec![0, 0]), 0);
}

#[test]
fn duplicate_is_refused_wherever_it_stands() {
    let cases: Vec<Vec<usize>> = vec![
        vec![2, 2],
        vec![2, 2, 3, 4],
        vec![1, 2, 3, 3],
        vec![5, 1, 2, 5],
        vec![1, 9, 3, 9, 4],
        vec![4, 4, 4],
    ];
    for values in cases {
        assert_eq!(
            ChickenPositions::try_from(values),
            Err(ChickenPositionError::ChickenPositionNotUnique)
        );
    }
}

#[test]
fn distinct_positions_are_accepted_in_any_order() {
    let positions = ChickenPositions::try_from(vec![3, 1, 2]).unwrap();
    assert_eq!(*positions, vec![3, 1, 2]);
    assert!(!positions.is_ascending());
    let sorted = ChickenPositions::try_from(vec![1, 2, 3]).unwrap();
    assert!(sorted.is_ascending());
    let single = ChickenPositions::try_from(vec![9]).unwrap();
    assert!(single.is_ascending());
}

#[test]
fn position_bounds() {
    assert!(ChickenPositions::try_from(vec![1]).is_ok());
    assert!(ChickenPositions::try_from(vec![MAX_CHICKEN_POSITION]).is_ok());
    assert_eq!(
        ChickenPositions::try_from(vec![0]),
        Err(ChickenPositionError::PositionOutOfRange)
    );
    assert_eq!(
        ChickenPositions::try_from(vec![1, MAX_CHICKEN_POSITION + 1]),
        Err(ChickenPositionError::PositionOutOfRange)
    );
}

#[test]
fn range_is_checked_before_uniqueness() {
    assert_eq!(
        ChickenPositions::try_from(vec![0, 0]),
        Err(ChickenPositionError::PositionOutOfRange)
    );
    assert_eq!(
        ChickenPositions::try_from(vec![5, 5, 0]),
        Err(ChickenPositionError::PositionOutOfRange)
    );
}

#[test]
fn count_mismatch_is_refused_either_way() {
    assert_eq!(
        Input::new(
            3.try_into().unwrap(),
            2.try_into().unwrap(),
            vec![1, 2].try_into().unwrap()
        ),
        Err(InputError::ChickenNumNotMatch)
    );
    assert_eq!(
        Input::new(
            2.try_into().unwrap(),
            2.try_into().unwrap(),
            vec![1, 2, 3].try_into().unwrap()
        ),
        Err(InputError::ChickenNumNotMatch)
    );
}

#[test]
fn matching_input_keeps_its_parts() {
    let made = input(4, vec![1, 2, 4]);
    assert_eq!(made.roof_length().value(), 4);
    assert_eq!(**made.chicken_positions(), vec![1, 2, 4]);
}
