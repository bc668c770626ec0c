use mc_playtime::duration::{Duration, duration_to_ticks, ticks_to_duration};

#[test]
fn decompose_exact_value() {
    // 2 days, 3 hours, 4 minutes, 5 seconds
    let seconds = 2 * 86400 + 3 * 3600 + 4 * 60 + 5;
    let d = ticks_to_duration(seconds * 20);
    assert_eq!(d, Duration { days: 2, hours: 3, minutes: 4, seconds: 5 });
}

#[test]
fn decompose_zero() {
    let d = ticks_to_duration(0);
    assert_eq!(d, Duration { days: 0, hours: 0, minutes: 0, seconds: 0 });
}

#[test]
fn decompose_sub_second_count() {
    // fewer than 20 ticks is less than one whole second
    let d = ticks_to_duration(19);
    assert_eq!(d, Duration { days: 0, hours: 0, minutes: 0, seconds: 0 });
}

#[test]
fn recompose_exact_value() {
    let d = Duration { days: 1, hours: 0, minutes: 30, seconds: 59 };
    assert_eq!(duration_to_ticks(&d), (86400 + 30 * 60 + 59) * 20);
}

#[test]
fn round_trip_whole_seconds() {
    for &seconds in &[0u64, 1, 59, 60, 3599, 3600, 86399, 86400, 1_000_000] {
        let ticks = seconds * 20;
        let d = ticks_to_duration(ticks);
        assert_eq!(duration_to_ticks(&d), ticks);
    }
}
