use coding_puzzles::boss_babys_revenge::{
    check_boss_behavior, take_sequence, Action, Input, InputConversionError, Output,
    SequenceType, MAX_INPUT_LEN,
};

#[test]
fn validate_input_over_max() {
    let string = "S".repeat(MAX_INPUT_LEN + 1);
    assert_eq!(
        Input::try_from(string.as_str()),
        Err(InputConversionError::StringOverMaxLength)
    )
}

#[test]
fn validate_input_empty() {
    assert_eq!(Input::try_from(""), Err(InputConversionError::EmptyString))
}

#[test]
fn validate_input_invalid_character() {
    assert_eq!(Input::try_from("A"), Err(InputConversionError::InvalidCharacter))
}

#[test]
fn pos_1() {
    assert_eq!(check_boss_behavior("SRSSRRR".try_into().unwrap()), Output::GoodBoy);
}

#[test]
fn pos_2() {
    assert_eq!(check_boss_behavior("SSRR".try_into().unwrap()), Output::GoodBoy);
}

#[test]
fn neg_1() {
    assert_eq!(check_boss_behavior("RSSRR".try_into().unwrap()), Output::BadBoy);
}

#[test]
fn neg_2() {
    assert_eq!(check_boss_behavior("SSSRRRRS".try_into().unwrap()), Output::BadBoy);
}

#[test]
fn neg_3() {
    assert_eq!(check_boss_behavior("SRRSSR".try_into().unwrap()), Output::BadBoy);
}

#[test]
fn input_at_max_length_is_accepted() {
    let string = "SR".repeat(MAX_INPUT_LEN / 2);
    let input = Input::try_from(string.as_str()).unwrap();
    assert_eq!(input.len(), MAX_INPUT_LEN);
    assert_eq!(check_boss_behavior(input), Output::GoodBoy);
}

#[test]
fn length_is_counted_in_bytes_before_characters_are_read() {
    // 500_000 characters of three bytes each: too long in bytes, and checked first
    let string = "\u{20AC}".repeat(MAX_INPUT_LEN / 2);
    assert_eq!(
        Input::try_from(string.as_str()),
        Err(InputConversionError::StringOverMaxLength)
    );
}

#[test]
fn other_characters_are_refused_wherever_they_stand() {
    for text in ["s", "r", "SRx", "xSR", "S R", "SR\n", "S\u{20AC}R", "SS1RR"] {
        assert_eq!(Input::try_from(text), Err(InputConversionError::InvalidCharacter));
    }
}

#[test]
fn characters_become_actions_in_order() {
    let input = Input::try_from("SRRS").unwrap();
    assert_eq!(*input, vec![Action::S, Action::R, Action::R, Action::S]);
}

#[test]
fn single_actions() {
    assert_eq!(check_boss_behavior("S".try_into().unwrap()), Output::BadBoy);
    assert_eq!(check_boss_behavior("R".try_into().unwrap()), Output::BadBoy);
    assert_eq!(check_boss_behavior("SR".try_into().unwrap()), Output::GoodBoy);
    assert_eq!(check_boss_behavior("RS".try_into().unwrap()), Output::BadBoy);
}

#[test]
fn more_answers_than_shots_are_fine() {
    assert_eq!(check_boss_behavior("SRRRR".try_into().unwrap()), Output::GoodBoy);
    assert_eq!(check_boss_behavior("SSRRSR".try_into().unwrap()), Output::GoodBoy);
    assert_eq!(check_boss_behavior("SRRSRRSSRR".try_into().unwrap()), Output::GoodBoy);
}

#[test]
fn one_short_volley_spoils_the_day() {
    assert_eq!(check_boss_behavior("SSRSR".try_into().unwrap()), Output::BadBoy);
    assert_eq!(check_boss_behavior("SRSSR".try_into().unwrap()), Output::BadBoy);
    assert_eq!(check_boss_behavior("SRSSSRRSR".try_into().unwrap()), Output::BadBoy);
}

#[test]
fn take_sequence_reads_one_stretch() {
    let actions = vec![Action::S, Action::R, Action::S, Action::S, Action::R, Action::R, Action::R];
    let mut cursor = 0;
    assert_eq!(take_sequence(&actions, &mut cursor), SequenceType::Valid);
    assert_eq!(cursor, 2);
    assert_eq!(take_sequence(&actions, &mut cursor), SequenceType::Valid);
    assert_eq!(cursor, 7);
    assert_eq!(take_sequence(&actions, &mut cursor), SequenceType::Empty);
    assert_eq!(cursor, 7);
}

#[test]
fn take_sequence_tells_short_and_unprovoked_stretches() {
    let short = vec![Action::S, Action::S, Action::R, Action::S];
    let mut cursor = 0;
    assert_eq!(take_sequence(&short, &mut cursor), SequenceType::Invalid);
    assert_eq!(cursor, 3);
    assert_eq!(take_sequence(&short, &mut cursor), SequenceType::Invalid);
    assert_eq!(cursor, 4);

    let unprovoked = vec![Action::R, Action::R, Action::S, Action::R];
    let mut cursor = 0;
    assert_eq!(take_sequence(&unprovoked, &mut cursor), SequenceType::Invalid);
    assert_eq!(cursor, 2);
    assert_eq!(take_sequence(&unprovoked, &mut cursor), SequenceType::Valid);
    assert_eq!(cursor, 4);
}

#[test]
fn take_sequence_on_nothing_is_empty() {
    let nothing: Vec<Action> = vec![];
    let mut cursor = 0;
    assert_eq!(take_sequence(&nothing, &mut cursor), SequenceType::Empty);
    assert_eq!(cursor, 0);
}
