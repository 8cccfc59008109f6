use sm2::easiness::next_easiness;
use sm2::interval::grown_interval;
use sm2::repetitions::next_repetitions;
use sm2::{Item, Quality, INITIAL_EF, MAX_EF, MAX_INTERVAL, MIN_EF};

const ALL: [Quality; 6] = [
    Quality::Blackout,
    Quality::Incorrect,
    Quality::IncorrectEasy,
    Quality::Hard,
    Quality::Good,
    Quality::Perfect,
];

#[test]
fn value_is_the_grade() {
    let expected: [u8; 6] = [0, 1, 2, 3, 4, 5];
    for (q, v) in ALL.iter().zip(expected) {
        assert_eq!(q.value(), v);
        assert_eq!(q.value(), *q as u8);
    }
}

#[test]
fn forgot_is_a_grade_below_three() {
    for q in ALL {
        assert_eq!(q.forgot(), q.value() < 3);
    }
}

#[test]
fn repeat_holds_after_every_failure_and_after_hard() {
    for q in ALL {
        assert_eq!(q.repeat(), q.forgot() || q == Quality::Hard);
        if q.forgot() {
            assert!(q.repeat());
        }
    }
}

#[test]
fn constants_are_in_hundredths() {
    assert_eq!(INITIAL_EF, 250);
    assert_eq!(MIN_EF, 130);
    assert_eq!(MAX_EF, u32::MAX);
    assert_eq!(MAX_INTERVAL, u32::MAX);
}

#[test]
fn easiness_changes_by_the_formula() {
    // -0.8 + 0.28 * q - 0.02 * q * q, in hundredths, for q = 0..=5
    let expected: [u32; 6] = [220, 246, 268, 286, 300, 310];
    for (q, e) in ALL.iter().zip(expected) {
        assert_eq!(next_easiness(300, *q), e);
    }
}

#[test]
fn easiness_follows_the_exact_trajectory() {
    let item = Item::default().review(Quality::Hard);
    assert_eq!(item.easiness(), 236);
    let item = item.review(Quality::Good);
    assert_eq!(item.easiness(), 236);
    let item = item.review(Quality::Perfect);
    assert_eq!(item.easiness(), 246);
    let item = item.review(Quality::Perfect);
    assert_eq!(item.easiness(), 256);
    assert_eq!(item.repetitions(), 4);
}

#[test]
fn easiness_below_the_minimum_is_raised_before_the_update() {
    assert_eq!(next_easiness(0, Quality::Perfect), 140);
    assert_eq!(next_easiness(129, Quality::Perfect), 140);
    assert_eq!(next_easiness(100, Quality::Good), 130);
    assert_eq!(next_easiness(0, Quality::Blackout), 130);
    assert_eq!(Item::new(4, 50).review(Quality::Perfect).easiness(), 140);
}

#[test]
fn easiness_is_raised_to_the_minimum_after_the_update() {
    assert_eq!(next_easiness(130, Quality::Blackout), 130);
    assert_eq!(next_easiness(200, Quality::Blackout), 130);
    assert_eq!(next_easiness(210, Quality::Blackout), 130);
    assert_eq!(next_easiness(211, Quality::Blackout), 131);
    assert_eq!(next_easiness(143, Quality::Hard), 130);
    assert_eq!(next_easiness(145, Quality::Hard), 131);
}

#[test]
fn easiness_stops_at_the_largest_value() {
    assert_eq!(next_easiness(MAX_EF, Quality::Perfect), MAX_EF);
    assert_eq!(next_easiness(MAX_EF - 5, Quality::Perfect), MAX_EF);
    assert_eq!(next_easiness(MAX_EF - 10, Quality::Perfect), MAX_EF);
    assert_eq!(next_easiness(MAX_EF - 11, Quality::Perfect), MAX_EF - 1);
    assert_eq!(next_easiness(MAX_EF, Quality::Good), MAX_EF);
    assert_eq!(next_easiness(MAX_EF, Quality::Hard), MAX_EF - 14);
}

#[test]
fn easiness_is_at_least_the_minimum_from_any_start() {
    for start in [0, 1, 129, 130, 131, 250, 1000, MAX_EF] {
        for q in ALL {
            assert!(next_easiness(start, q) >= MIN_EF);
            assert!(Item::new(0, start).review(q).easiness() >= MIN_EF);
        }
    }
}

#[test]
fn repetitions_count_successes_in_a_row() {
    assert_eq!(next_repetitions(0, Quality::Good), 1);
    assert_eq!(next_repetitions(7, Quality::Hard), 8);
    assert_eq!(next_repetitions(7, Quality::Perfect), 8);
    assert_eq!(next_repetitions(u32::MAX - 1, Quality::Perfect), u32::MAX);
}

#[test]
fn repetitions_are_zero_after_a_failure() {
    for rep in [0, 1, 7, u32::MAX] {
        assert_eq!(next_repetitions(rep, Quality::Blackout), 0);
        assert_eq!(next_repetitions(rep, Quality::Incorrect), 0);
        assert_eq!(next_repetitions(rep, Quality::IncorrectEasy), 0);
        assert_eq!(Item::new(rep, 250).review(Quality::Incorrect).repetitions(), 0);
    }
}

#[test]
fn review_leaves_the_item_as_it_was() {
    let item = Item::new(3, 250);
    let next = item.review(Quality::Perfect);
    assert_eq!(item.repetitions(), 3);
    assert_eq!(item.easiness(), 250);
    assert_eq!(next.repetitions(), 4);
    assert_eq!(next.easiness(), 260);
}

#[test]
fn review_is_not_idempotent() {
    for q in [Quality::Hard, Quality::Good, Quality::Perfect] {
        let once = Item::default().review(q);
        let twice = once.review(q);
        assert_ne!(once.repetitions(), twice.repetitions());
    }
    let once = Item::default().review(Quality::Perfect);
    let twice = once.review(Quality::Perfect);
    assert_eq!((once.repetitions(), once.easiness()), (1, 260));
    assert_eq!((twice.repetitions(), twice.easiness()), (2, 270));
    // a failure above the minimum lowers the easiness once more
    let once = Item::default().review(Quality::IncorrectEasy);
    let twice = once.review(Quality::IncorrectEasy);
    assert_eq!((once.repetitions(), once.easiness()), (0, 218));
    assert_eq!((twice.repetitions(), twice.easiness()), (0, 186));
}

#[test]
fn review_repeats_itself_only_at_the_minimum_after_a_failure() {
    let once = Item::new(5, 150).review(Quality::Blackout);
    let twice = once.review(Quality::Blackout);
    assert_eq!((once.repetitions(), once.easiness()), (0, 130));
    assert_eq!((twice.repetitions(), twice.easiness()), (0, 130));
}

#[test]
fn interval_of_the_first_three_counts_ignores_the_easiness() {
    for ef in [0, 1, 99, 100, 130, 250, 100_000, MAX_EF] {
        assert_eq!(Item::new(0, ef).interval(), 0);
        assert_eq!(Item::new(1, ef).interval(), 1);
        assert_eq!(Item::new(2, ef).interval(), 6);
    }
}

#[test]
fn interval_is_the_exact_ceiling() {
    // 6 * 1.3 = 7.8, 6 * 1.69 = 10.14, 6 * 2.197 = 13.182
    assert_eq!(Item::new(3, 130).interval(), 8);
    assert_eq!(Item::new(4, 130).interval(), 11);
    assert_eq!(Item::new(5, 130).interval(), 14);
    // 6 * 1.3^20 = 1140.29...
    assert_eq!(Item::new(22, 130).interval(), 1141);
    // 6 * 2.36^4 = 186.1..., 6 * 2.56^8 = 11068.04...
    assert_eq!(Item::new(6, 236).interval(), 187);
    assert_eq!(Item::new(10, 256).interval(), 11069);
    // 6 * 1.5^2 = 13.5
    assert_eq!(Item::new(4, 150).interval(), 14);
    // 6 * 1.01 = 6.06, 6 * 1.01^100 = 16.2...
    assert_eq!(Item::new(3, 101).interval(), 7);
    assert_eq!(Item::new(102, 101).interval(), 17);
}

#[test]
fn interval_that_is_a_whole_number_is_not_rounded_up() {
    assert_eq!(Item::new(3, 150).interval(), 9);
    assert_eq!(Item::new(3, 200).interval(), 12);
    assert_eq!(Item::new(12, 200).interval(), 6144);
    assert_eq!(Item::new(3, 50).interval(), 3);
}

#[test]
fn interval_with_the_factor_one_stays_at_six() {
    assert_eq!(Item::new(3, 100).interval(), 6);
    assert_eq!(Item::new(1000, 100).interval(), 6);
    assert_eq!(Item::new(u32::MAX, 100).interval(), 6);
}

#[test]
fn interval_with_a_factor_below_one_shrinks_to_one_day() {
    assert_eq!(Item::new(3, 99).interval(), 6);
    assert_eq!(Item::new(4, 50).interval(), 2);
    assert_eq!(Item::new(5, 50).interval(), 1);
    assert_eq!(Item::new(3, 1).interval(), 1);
    // 6 * 0.99^178 = 1.002..., 6 * 0.99^179 = 0.99...
    assert_eq!(Item::new(180, 99).interval(), 2);
    assert_eq!(Item::new(181, 99).interval(), 1);
    assert_eq!(Item::new(u32::MAX, 99).interval(), 1);
}

#[test]
fn interval_with_the_factor_zero_is_zero() {
    assert_eq!(Item::new(3, 0).interval(), 0);
    assert_eq!(Item::new(4, 0).interval(), 0);
    assert_eq!(Item::new(u32::MAX, 0).interval(), 0);
}

#[test]
fn interval_stops_at_the_longest() {
    // 6 * 2.5^22 = 3410605131.6..., 6 * 2.5^23 is beyond u32
    assert_eq!(Item::new(24, 250).interval(), 3_410_605_132);
    assert_eq!(Item::new(25, 250).interval(), MAX_INTERVAL);
    assert_eq!(Item::new(30, 250).interval(), MAX_INTERVAL);
    assert_eq!(Item::new(u32::MAX, 250).interval(), MAX_INTERVAL);
    assert_eq!(Item::new(79, 130).interval(), 3_562_783_055);
    assert_eq!(Item::new(80, 130).interval(), MAX_INTERVAL);
    assert_eq!(Item::new(3, MAX_EF).interval(), 257_698_038);
    assert_eq!(Item::new(4, MAX_EF).interval(), MAX_INTERVAL);
}

#[test]
fn interval_is_exact_over_thousands_of_digits() {
    // the last interval with the factor 1.01 that is below the longest
    assert_eq!(Item::new(2051, 101).interval(), 4_291_865_773);
    assert_eq!(Item::new(2052, 101).interval(), MAX_INTERVAL);
    assert_eq!(Item::new(u32::MAX, 101).interval(), MAX_INTERVAL);
}

#[test]
fn grown_interval_without_growth_is_six() {
    for ef in [0, 1, 100, 250, MAX_EF] {
        assert_eq!(grown_interval(ef, 0), 6);
    }
}

#[test]
fn grown_interval_matches_interval_from_the_third_count() {
    for ef in [0, 1, 50, 99, 100, 101, 130, 250, 1000] {
        for k in 1..40 {
            assert_eq!(grown_interval(ef, k), Item::new(k + 2, ef).interval());
        }
    }
    assert_eq!(grown_interval(250, 1), 15);
    assert_eq!(grown_interval(250, 2), 38);
    assert_eq!(grown_interval(250, 3), 94);
}
