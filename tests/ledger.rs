use hamis::ledger::{gamble_update, score_update, Record};

#[test]
fn new_player_starts_at_zero() {
    assert_eq!(score_update(None, 5000), Some(Record { score: 0, option: 0, last_time: 5000 }));
}

#[test]
fn score_loses_a_quarter_and_grows_with_time() {
    let r = Record { score: 100, option: 5, last_time: 1000 };
    assert_eq!(score_update(Some(r), 1010), Some(Record { score: 85, option: 5, last_time: 1010 }));
}

#[test]
fn matching_digits_triple_the_rate() {
    let r = Record { score: 0, option: 7, last_time: 1777 };
    assert_eq!(score_update(Some(r), 1787).unwrap().score, 270);
    let r = Record { score: 0, option: 7, last_time: 1707 };
    assert_eq!(score_update(Some(r), 1717).unwrap().score, 90);
}

#[test]
fn negative_score_rounds_toward_zero() {
    let r = Record { score: -7, option: 1, last_time: 0 };
    assert_eq!(score_update(Some(r), 0).unwrap().score, -6);
}

#[test]
fn overflowing_score_is_refused() {
    let r = Record { score: i64::MAX, option: 0, last_time: 0 };
    assert_eq!(score_update(Some(r), i64::MAX), None);
}

#[test]
fn gamble_keeps_score_and_time() {
    let r = Record { score: 40, option: 1, last_time: 77 };
    assert_eq!(gamble_update(Some(r), 4, 90), Record { score: 40, option: 4, last_time: 77 });
    assert_eq!(gamble_update(None, 4, 90), Record { score: 0, option: 4, last_time: 90 });
}
