use endless_runner::score::{
    best, digit, digit_count, digits, load_highscore, save_highscore, ScoreTracker,
};

#[test]
fn digits_of_12345_come_least_significant_first() {
    assert_eq!(digits(12345), vec![5, 4, 3, 2, 1]);
    assert_eq!(digit_count(12345), 5);
    assert_eq!(digit(12345, 0), 5);
    assert_eq!(digit(12345, 1), 4);
    assert_eq!(digit(12345, 2), 3);
    assert_eq!(digit(12345, 3), 2);
    assert_eq!(digit(12345, 4), 1);
}

#[test]
fn zero_has_one_digit() {
    assert_eq!(digit_count(0), 1);
    assert_eq!(digits(0), vec![0]);
}

#[test]
fn digit_counts_at_the_powers_of_ten() {
    assert_eq!(digit_count(9), 1);
    assert_eq!(digit_count(10), 2);
    assert_eq!(digit_count(99), 2);
    assert_eq!(digit_count(100), 3);
    assert_eq!(digit_count(999_999_999_999_999_999), 18);
    assert_eq!(digit_count(1_000_000_000_000_000_000), 19);
    assert_eq!(digit_count(u64::MAX), 20);
}

#[test]
fn digits_of_the_largest_score() {
    assert_eq!(
        digits(u64::MAX),
        vec![5, 1, 6, 1, 5, 5, 9, 0, 7, 3, 7, 0, 4, 4, 7, 6, 4, 4, 8, 1]
    );
}

#[test]
fn a_digit_beyond_the_number_is_zero() {
    assert_eq!(digit(12345, 5), 0);
    assert_eq!(digit(12345, 19), 0);
    assert_eq!(digit(u64::MAX, 20), 0);
    assert_eq!(digit(u64::MAX, 4_000_000), 0);
}

#[test]
fn best_is_the_larger_of_the_two() {
    assert_eq!(best(5, 9), 9);
    assert_eq!(best(9, 5), 9);
    assert_eq!(best(7, 7), 7);
}

#[test]
fn saved_text_is_the_numeral_and_a_line_feed() {
    assert_eq!(save_highscore(12345), b"12345\n".to_vec());
    assert_eq!(save_highscore(0), b"0\n".to_vec());
    assert_eq!(save_highscore(u64::MAX), b"18446744073709551615\n".to_vec());
}

#[test]
fn save_then_load_gives_the_value_back() {
    let values: [u64; 9] = [0, 1, 9, 10, 99, 12345, 1_000_000, u64::MAX - 1, u64::MAX];
    for v in values {
        assert_eq!(load_highscore(&Some(save_highscore(v))), v);
    }
}

#[test]
fn missing_storage_loads_as_zero() {
    assert_eq!(load_highscore(&None), 0);
}

#[test]
fn empty_or_blank_storage_loads_as_zero() {
    assert_eq!(load_highscore(&Some(Vec::new())), 0);
    assert_eq!(load_highscore(&Some(b"   \n\t ".to_vec())), 0);
}

#[test]
fn malformed_storage_loads_as_zero() {
    assert_eq!(load_highscore(&Some(b"abc".to_vec())), 0);
    assert_eq!(load_highscore(&Some(b"12a".to_vec())), 0);
    assert_eq!(load_highscore(&Some(b"-5".to_vec())), 0);
    assert_eq!(load_highscore(&Some(b"+".to_vec())), 0);
    assert_eq!(load_highscore(&Some(b"++5".to_vec())), 0);
    assert_eq!(load_highscore(&Some(b"1.5".to_vec())), 0);
    assert_eq!(load_highscore(&Some(vec![0xff, 0xfe])), 0);
}

#[test]
fn only_the_first_word_counts() {
    assert_eq!(load_highscore(&Some(b"  42 99".to_vec())), 42);
    assert_eq!(load_highscore(&Some(b"\n\t7\r\n".to_vec())), 7);
    assert_eq!(load_highscore(&Some(b"x 99".to_vec())), 0);
}

#[test]
fn a_plus_sign_and_leading_zeros_are_accepted() {
    assert_eq!(load_highscore(&Some(b"+7".to_vec())), 7);
    assert_eq!(load_highscore(&Some(b"007".to_vec())), 7);
}

#[test]
fn a_number_too_large_loads_as_zero() {
    assert_eq!(load_highscore(&Some(b"18446744073709551615".to_vec())), u64::MAX);
    assert_eq!(load_highscore(&Some(b"18446744073709551616".to_vec())), 0);
    assert_eq!(load_highscore(&Some(b"99999999999999999999999".to_vec())), 0);
}

#[test]
fn the_tracker_counts_and_restarts() {
    let mut t = ScoreTracker::new(40);
    assert_eq!(t.score, 0);
    assert_eq!(t.highscore, 40);
    t.count();
    t.count();
    t.count();
    assert_eq!(t.score, 3);
    assert_eq!(t.best(), 40);
    t.restart();
    assert_eq!(t.score, 0);
    assert_eq!(t.highscore, 40);
}

#[test]
fn the_tracker_stops_counting_at_the_end_of_the_range() {
    let mut t = ScoreTracker { score: u64::MAX - 1, highscore: 0 };
    t.count();
    assert_eq!(t.score, u64::MAX);
    t.count();
    assert_eq!(t.score, u64::MAX);
}

#[test]
fn settling_raises_the_high_score_to_the_record() {
    let mut t = ScoreTracker { score: 50, highscore: 40 };
    assert_eq!(t.settle(), 50);
    assert_eq!(t.highscore, 50);
    assert_eq!(t.score, 50);
    let mut u = ScoreTracker { score: 30, highscore: 40 };
    assert_eq!(u.settle(), 40);
    assert_eq!(u.highscore, 40);
}
