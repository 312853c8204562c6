use quiz_program::scoring::compute_score;

#[test]
fn all_answers_correct() {
    assert_eq!(compute_score(&[1, 3], &[1, 3]), 2);
}

#[test]
fn one_answer_correct() {
    assert_eq!(compute_score(&[1, 3], &[0, 3]), 1);
}

#[test]
fn no_answer_correct() {
    assert_eq!(compute_score(&[1, 3], &[3, 1]), 0);
}

#[test]
fn answers_past_the_last_question_earn_nothing() {
    assert_eq!(compute_score(&[1, 3], &[1, 3, 9]), 2);
    assert_eq!(compute_score(&[], &[0, 0, 0]), 0);
}

#[test]
fn missing_answers_earn_nothing() {
    assert_eq!(compute_score(&[1, 3, 2], &[1]), 1);
    assert_eq!(compute_score(&[1, 3, 2], &[]), 0);
}

#[test]
fn scoring_twice_gives_the_same_score() {
    let key = [0u8, 1, 2, 3, 0, 1];
    let answers = [0u8, 0, 2, 2, 0, 0];
    assert_eq!(compute_score(&key, &answers), 3);
    assert_eq!(compute_score(&key, &answers), compute_score(&key, &answers));
}

#[test]
fn score_of_255_questions_fits() {
    let key = [2u8; 255];
    assert_eq!(compute_score(&key, &key), 255);
}

#[test]
fn score_is_the_sum_of_its_parts() {
    let whole = compute_score(&[1, 2, 3, 0], &[1, 0, 3, 0]);
    let left = compute_score(&[1, 2], &[1, 0]);
    let right = compute_score(&[3, 0], &[3, 0]);
    assert_eq!(whole, left + right);
    assert_eq!(whole, 3);
}

#[test]
fn out_of_range_correct_index_can_still_be_matched() {
    assert_eq!(compute_score(&[9], &[9]), 1);
}
