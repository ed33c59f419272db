use multi_tcp_client::backoff::next_delay;

#[test]
fn first_delay_is_base_when_under_cap() {
    assert_eq!(next_delay(0, 50, 500), 50);
}

#[test]
fn first_delay_is_cap_when_base_exceeds_it() {
    assert_eq!(next_delay(0, 700, 500), 500);
}

#[test]
fn delay_doubles_until_the_cap() {
    assert_eq!(next_delay(1, 50, 500), 100);
    assert_eq!(next_delay(2, 50, 500), 200);
    assert_eq!(next_delay(3, 50, 500), 400);
    assert_eq!(next_delay(4, 50, 500), 500);
    assert_eq!(next_delay(5, 50, 500), 500);
}

#[test]
fn zero_base_never_delays() {
    assert_eq!(next_delay(0, 0, 500), 0);
    assert_eq!(next_delay(17, 0, 500), 0);
}

#[test]
fn zero_cap_clamps_everything() {
    assert_eq!(next_delay(5, 50, 0), 0);
}

#[test]
fn huge_attempt_counts_saturate_at_the_cap() {
    assert_eq!(next_delay(200, 50, 500), 500);
    assert_eq!(next_delay(200, 1, u64::MAX), u64::MAX);
}

#[test]
fn exact_power_of_two_growth() {
    assert_eq!(next_delay(10, 1, u64::MAX), 1024);
    assert_eq!(next_delay(63, 1, u64::MAX), 1u64 << 63);
}

#[test]
fn delays_never_decrease_with_attempts() {
    let mut last = 0u64;
    for n in 0..40 {
        let d = next_delay(n, 7, 1000);
        assert!(d >= last);
        assert!(d <= 1000);
        last = d;
    }
}
