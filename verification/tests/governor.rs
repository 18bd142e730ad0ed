use remote_log::governor::{hour_of_exec, Governor};

#[test]
fn hour_of_wraps_daily() {
    assert_eq!(hour_of_exec(0), 0);
    assert_eq!(hour_of_exec(3599), 0);
    assert_eq!(hour_of_exec(3600), 1);
    assert_eq!(hour_of_exec(7200), 2);
    assert_eq!(hour_of_exec(86400), 0);
    assert_eq!(hour_of_exec(86400 + 23 * 3600), 23);
}

#[test]
fn zero_threshold_disables_governor() {
    let mut g = Governor::new();
    for k in 0..100u64 {
        let v = g.check(0, 7200 + k);
        assert!(!v.suppress);
        assert!(!v.reached);
        assert_eq!(v.lost, None);
    }
    assert_eq!(g.count, 0);
    assert_eq!(g.last_hour, 0);
}

#[test]
fn hourly_allowance_exact() {
    // threshold 3, five records in one hour: three pass, the fourth is the
    // one that reaches the limit (warned and suppressed), the fifth is
    // silently suppressed
    let mut g = Governor::new();
    let now = 7200u64;  // hour 2, so the very first record rolls the hour over
    let expected_suppress = [false, false, false, true, true];
    let expected_reached = [false, false, false, true, false];
    for k in 0..5 {
        let v = g.check(3, now);
        assert_eq!(v.suppress, expected_suppress[k], "record {}", k);
        assert_eq!(v.reached, expected_reached[k], "record {}", k);
        assert_eq!(v.lost, None, "record {}", k);
    }
    assert_eq!(g.count, 5);
    assert_eq!(g.last_hour, 2);
}

#[test]
fn rollover_reports_lost_records() {
    let mut g = Governor::new();
    for _ in 0..5 {
        g.check(3, 7200);
    }
    // hour rolls over with count 5 > threshold 3: exactly one warning, two lost
    let v = g.check(3, 7200 + 3600);
    assert_eq!(v.lost, Some(2));
    assert!(!v.suppress);
    assert!(!v.reached);
    // and the new hour starts counting afresh with this record included
    assert_eq!(g.count, 1);
    assert_eq!(g.last_hour, 3);
}

#[test]
fn rollover_quiet_when_under_threshold() {
    let mut g = Governor::new();
    for _ in 0..3 {
        g.check(3, 7200);
    }
    // count 3 did not exceed threshold 3: no lost-records warning
    let v = g.check(3, 7200 + 3600);
    assert_eq!(v.lost, None);
    assert!(!v.suppress);
}

#[test]
fn mid_hour_no_rollover_warning() {
    let mut g = Governor::new();
    for _ in 0..10 {
        let v = g.check(2, 7200);
        assert_eq!(v.lost, None);
    }
}

#[test]
fn count_wraps_at_integer_limit() {
    let mut g = Governor { last_hour: 2, count: u32::MAX };
    let v = g.check(5, 7200);
    assert!(v.suppress);
    assert_eq!(g.count, 0);
}
