use mcaptcha::counter::Counter;
use mcaptcha::defense::Defense;
use mcaptcha::defense::Level;
use mcaptcha::errors::CaptchaError;

fn defense(levels: &[(u32, u32)]) -> Defense {
    let levels: Vec<Level> = levels
        .iter()
        .map(|&(visitor_threshold, difficulty_factor)| Level {
            visitor_threshold,
            difficulty_factor,
        })
        .collect();
    Defense::new(levels).unwrap()
}

#[test]
fn defense_rejects_invalid_curves() {
    let empty: Vec<Level> = Vec::new();
    assert_eq!(Defense::new(empty).unwrap_err(), CaptchaError::InvalidDefense);

    let missing_zero = vec![Level { visitor_threshold: 1, difficulty_factor: 10 }];
    assert_eq!(Defense::new(missing_zero).unwrap_err(), CaptchaError::InvalidDefense);

    let duplicate = vec![
        Level { visitor_threshold: 0, difficulty_factor: 10 },
        Level { visitor_threshold: 5, difficulty_factor: 50 },
        Level { visitor_threshold: 5, difficulty_factor: 60 },
    ];
    assert_eq!(Defense::new(duplicate).unwrap_err(), CaptchaError::InvalidDefense);

    let unsorted = vec![
        Level { visitor_threshold: 0, difficulty_factor: 10 },
        Level { visitor_threshold: 9, difficulty_factor: 50 },
        Level { visitor_threshold: 5, difficulty_factor: 60 },
    ];
    assert_eq!(Defense::new(unsorted).unwrap_err(), CaptchaError::InvalidDefense);
}

#[test]
fn defense_difficulty_exact() {
    let d = defense(&[(0, 1), (10, 2), (100, 3)]);
    assert_eq!(d.difficulty(0), 1);
    assert_eq!(d.difficulty(9), 1);
    assert_eq!(d.difficulty(10), 2);
    assert_eq!(d.difficulty(99), 2);
    assert_eq!(d.difficulty(100), 3);
    assert_eq!(d.difficulty(u32::MAX), 3);
}

#[test]
fn counter_adaptation() {
    // the difficulty factor always corresponds to the visitor count right
    // after the increment: the greatest threshold not above the count
    let mut c = Counter::new(defense(&[(0, 10), (5, 50), (10, 500)]), 5, 1000);
    let mut got: Vec<u32> = Vec::new();
    for i in 0..11u64 {
        let r = c.add_visitor(i * 10);
        assert_eq!(r.duration, 5);
        got.push(r.difficulty_factor);
    }
    assert_eq!(got[0], 10);
    assert_eq!(got[1], 10);
    assert_eq!(got[2], 10);
    assert_eq!(got[3], 10);
    // the fifth visitor reaches the (5, 50) level
    assert_eq!(got[4], 50);
    assert_eq!(got[5], 50);
    // the tenth and eleventh reach the (10, 500) level
    assert_eq!(got[9], 500);
    assert_eq!(got[10], 500);

    // after 1.5 s of quiescence every decrement has fired and a new
    // visitor sees the base difficulty again
    let r = c.add_visitor(100 + 1500);
    assert_eq!(r.difficulty_factor, 10);
}

#[test]
fn counter_conservation() {
    // after n increments with lifetime l and no stop, the counter is back
    // at zero once the last increment's lifetime has elapsed
    let lifetime = 1000;
    let mut c = Counter::new(defense(&[(0, 10)]), 5, lifetime);
    let last = 400;
    for t in [0u64, 100, 250, 400] {
        c.add_visitor(t);
    }
    assert_eq!(c.get_current_visitor_count(last), 4);
    assert_eq!(c.get_current_visitor_count(last + lifetime), 0);
}

#[test]
fn counter_stop_cancels_decrements() {
    let mut c = Counter::new(defense(&[(0, 10)]), 5, 1000);
    c.add_visitor(0);
    c.add_visitor(10);
    c.stop();
    assert!(c.stopped);
    assert!(c.pending.is_empty());
}

#[test]
fn decrement_is_paired_with_its_increment() {
    let mut c = Counter::new(defense(&[(0, 10)]), 5, 1000);
    c.add_visitor(0);
    c.add_visitor(500);
    // the first visitor leaves at 1000, the second at 1500
    assert_eq!(c.get_current_visitor_count(999), 2);
    assert_eq!(c.get_current_visitor_count(1000), 1);
    assert_eq!(c.get_current_visitor_count(1499), 1);
    assert_eq!(c.get_current_visitor_count(1500), 0);
}
