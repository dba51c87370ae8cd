use estwhi_core::{score_hand, ScoreMode};

#[test]
fn scoring_vanilla_soft() {
    // every seat made its bid: tricks plus the bonus, for a bid of nothing too
    let calls = vec![1, 0, 0, 0];
    let tricks = vec![1, 0, 0, 0];
    let d = score_hand(ScoreMode::Vanilla, false, &calls, &tricks, 1);
    assert_eq!(d, vec![11, 10, 10, 10]);
}

#[test]
fn scoring_vanilla_hard_zero_bid_penalty() {
    // total calls < dealt under the hard rule: nobody gets the bonus
    let calls = vec![0, 0, 0, 0];
    let tricks = vec![0, 0, 0, 0];
    let d = score_hand(ScoreMode::Vanilla, true, &calls, &tricks, 1);
    assert_eq!(d, vec![0, 0, 0, 0]);
}

#[test]
fn scoring_squared_exact() {
    let calls = vec![2, 0, 0, 0];
    let tricks = vec![2, 0, 0, 0];
    let d = score_hand(ScoreMode::Squared, false, &calls, &tricks, 2);
    assert_eq!(d, vec![14, 10, 10, 10]); // 10 + 2^2
}

#[test]
fn scoring_squared_miss() {
    let calls = vec![2, 0, 0, 0];
    let tricks = vec![1, 0, 0, 0];
    let d = score_hand(ScoreMode::Squared, false, &calls, &tricks, 2);
    assert_eq!(d, vec![1, 10, 10, 10]);
}

#[test]
fn scoring_vanilla_miss_earns_tricks_only() {
    let d = score_hand(ScoreMode::Vanilla, false, &[3, 1], &[2, 4], 6);
    assert_eq!(d, vec![2, 4]);
}

#[test]
fn scoring_hard_rule_keeps_bonus_when_table_calls_enough() {
    // calls add up to the cards dealt: the bonus stands
    let d = score_hand(ScoreMode::Vanilla, true, &[2, 1], &[2, 1], 3);
    assert_eq!(d, vec![12, 11]);
    // calls add up to more than the cards dealt: the bonus stands
    let d = score_hand(ScoreMode::Squared, true, &[3, 1], &[3, 0], 3);
    assert_eq!(d, vec![19, 0]);
    // calls add up to less: no bonus, the square is still earned
    let d = score_hand(ScoreMode::Squared, true, &[2, 0], &[2, 0], 3);
    assert_eq!(d, vec![4, 0]);
}

#[test]
fn scoring_truncates_to_shorter_list() {
    let d = score_hand(ScoreMode::Vanilla, false, &[1, 2, 3], &[1, 2], 3);
    assert_eq!(d, vec![11, 12]);
    let d = score_hand(ScoreMode::Vanilla, false, &[1], &[1, 2, 3], 3);
    assert_eq!(d, vec![11]);
    let d = score_hand(ScoreMode::Vanilla, false, &[], &[1, 2, 3], 3);
    assert_eq!(d, Vec::<u32>::new());
}

#[test]
fn scoring_hard_rule_sums_only_the_seats_scored() {
    // the third call is not scored and does not count towards the table's calls
    let d = score_hand(ScoreMode::Vanilla, true, &[1, 1, 5], &[1, 1], 3);
    assert_eq!(d, vec![1, 1]);
}

#[test]
fn scoring_is_capped() {
    let d = score_hand(ScoreMode::Vanilla, false, &[u32::MAX], &[u32::MAX], 1);
    assert_eq!(d, vec![u32::MAX]);
    let d = score_hand(ScoreMode::Squared, false, &[70000], &[70000], 1);
    assert_eq!(d, vec![u32::MAX]);
    let d = score_hand(ScoreMode::Squared, false, &[65535], &[65535], 1);
    assert_eq!(d, vec![4294836235]);
}
