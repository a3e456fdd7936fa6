use flocknet::text::{decimal_string, digit_str, format_time, precedes, same_text};

#[test]
fn numbers_in_decimal() {
    assert_eq!(decimal_string(0), "0");
    assert_eq!(decimal_string(7), "7");
    assert_eq!(decimal_string(10), "10");
    assert_eq!(decimal_string(5003), "5003");
    assert_eq!(decimal_string(1_234_567_890), "1234567890");
    assert_eq!(decimal_string(u64::MAX), "18446744073709551615");
    for d in 0..10u64 {
        assert_eq!(digit_str(d), d.to_string());
    }
}

#[test]
fn clock_times() {
    assert_eq!(format_time(0), "00:00");
    assert_eq!(format_time(59), "00:59");
    assert_eq!(format_time(60), "01:00");
    assert_eq!(format_time(3_599), "59:59");
    assert_eq!(format_time(3_600), "01:00:00");
    assert_eq!(format_time(3_725), "01:02:05");
    assert_eq!(format_time(360_000), "100:00:00");
    assert_eq!(format_time(86_399), "23:59:59");
}

#[test]
fn order_of_texts() {
    assert!(precedes("", "a"));
    assert!(!precedes("a", ""));
    assert!(!precedes("", ""));
    assert!(precedes("ared", "blue"));
    assert!(precedes("fq-codel", "fqcodel"));
    assert!(precedes("red", "redd"));
    assert!(!precedes("redd", "red"));
    assert!(!precedes("red", "red"));
    assert!(precedes("Z", "a"));
    assert!(precedes("z", "é"));
    let mut names = vec!["pie", "red", "ared", "", "fifo", "é", "blue", "fq-codel", "fqcodel"];
    names.sort();
    for pair in names.windows(2) {
        assert!(precedes(pair[0], pair[1]));
        assert!(!precedes(pair[1], pair[0]));
    }
}

#[test]
fn sameness_of_texts() {
    assert!(same_text("", ""));
    assert!(same_text("peak", "peak"));
    assert!(!same_text("peak", "Peak"));
    assert!(!same_text("peak", "peaks"));
    assert!(!same_text("peaks", "peak"));
}
