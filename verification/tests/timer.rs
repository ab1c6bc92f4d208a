use vinput_ws_asr::timer::{drain_wait, DrainTimer};

#[test]
fn the_whole_timeout_is_there_at_first() {
    assert_eq!(drain_wait(0, 0), Some(9000));
    assert_eq!(drain_wait(1234, 1234), Some(9000));
}

#[test]
fn the_wait_is_what_is_left() {
    assert_eq!(drain_wait(1000, 1001), Some(8999));
    assert_eq!(drain_wait(1000, 5000), Some(5000));
    assert_eq!(drain_wait(1000, 9999), Some(1));
}

#[test]
fn the_timeout_ends() {
    assert_eq!(drain_wait(1000, 10000), None);
    assert_eq!(drain_wait(1000, 10001), None);
    assert_eq!(drain_wait(0, u64::MAX), None);
}

#[test]
fn a_clock_that_went_back_takes_no_time() {
    assert_eq!(drain_wait(5000, 4000), Some(9000));
    assert_eq!(drain_wait(u64::MAX, 0), Some(9000));
}

#[test]
fn asking_again_does_not_renew_the_timeout() {
    let mut timer = DrainTimer::new();
    assert_eq!(timer.wait(500), Some(9000));
    assert_eq!(timer.wait(4500), Some(5000));
    assert_eq!(timer.wait(9499), Some(1));
    assert_eq!(timer.wait(9500), None);
    assert_eq!(timer.wait(9501), None);
}

#[test]
fn a_wait_that_is_used_up_is_the_last() {
    let mut timer = DrainTimer::new();
    timer.wait(100);
    let rest = timer.wait(2100).unwrap();
    assert_eq!(rest, 7000);
    assert_eq!(timer.wait(2100 + rest), None);
}
