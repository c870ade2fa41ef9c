//! Days in floating-point numbers, held against the machine's own.
use pacpin::double::{days_left_of, double_of, nearest_of, tenths_of, ONE};
use pacpin::resolver::delay_left;

fn machine_left(days: u32, seconds: i64) -> u32 {
    let age = seconds as f64 / 86400.0;
    ((f64::from(days) - age + 0.99) as u32).max(1)
}

#[test]
fn whole_days_are_counted_as_the_machine_does() {
    for days in [1u32, 2, 3, 4, 7, 30, 365, 9999, 1_000_000, u32::MAX] {
        let all = i64::from(days) * 86400;
        let mut seconds = 0;
        while seconds < all.min(60_000) {
            assert_eq!(days_left_of(days, seconds as i128), machine_left(days, seconds));
            let left = all - 1 - seconds;
            assert_eq!(days_left_of(days, left as i128), machine_left(days, left));
            seconds += 1 + seconds % 7;
        }
        // A hundredth of a day before each of the last days.
        for whole in 0..days.min(200) {
            for near in -2..3 {
                let s = all - i64::from(whole) * 86400 - 864 + near;
                if s >= 0 && s < all {
                    assert_eq!(days_left_of(days, s as i128), machine_left(days, s));
                }
            }
        }
    }
    assert_eq!(days_left_of(4, 258_336), 1);
    assert_eq!(delay_left(1, 4, 258_337), Some(1));
}

#[test]
fn times_in_the_future_leave_more_days() {
    let mut seconds: i64 = -1;
    while seconds > i64::MIN / 2 {
        for days in [0u32, 1, 4, 3000, u32::MAX] {
            assert_eq!(days_left_of(days, seconds as i128), machine_left(days, seconds));
        }
        seconds = seconds * 3 - 11;
    }
    for seconds in [i64::MIN, i64::MIN + 1, -864, -86_400, -(1 << 53) - 1] {
        assert_eq!(days_left_of(4, seconds as i128), machine_left(4, seconds));
    }
}

#[test]
fn tenths_of_days_are_shown_as_the_machine_does() {
    let mut seconds: i64 = 0;
    while seconds < 1_000_000 {
        let t = tenths_of(seconds);
        let shown = format!("{}.{}", t / 10, t % 10);
        assert_eq!(shown, format!("{:.1}", seconds as f64 / 86400.0));
        seconds += if seconds % 4320 == 0 { 1 } else { 1079 + (seconds % 2) };
    }
    for tenth in 0..2000i64 {
        let s = tenth * 4320;
        let t = tenths_of(s);
        assert_eq!(format!("{}.{}", t / 10, t % 10), format!("{:.1}", s as f64 / 86400.0));
    }
    assert_eq!(tenths_of(-5), 0);
    let t = tenths_of(i64::MAX);
    assert_eq!(format!("{}.{}", t / 10, t % 10), format!("{:.1}", i64::MAX as f64 / 86400.0));
}

#[test]
fn integers_are_rounded_as_the_machine_does() {
    let mut n: u128 = 1;
    for i in 0..120u128 {
        for k in [n, n + 1, n + 3, n * 3 / 2 + i, n + n / 3] {
            assert_eq!(double_of(k), k as f64 as u128);
        }
        n *= 2;
    }
    assert_eq!(nearest_of(5, 2), 2);
    assert_eq!(nearest_of(7, 2), 4);
    assert_eq!(nearest_of(8, 3), 3);
    assert_eq!(ONE, 1u128 << 69);
}
