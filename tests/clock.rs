use time_spent::{comment_to_duration, tc_to_tuple, Tc};

#[test]
fn test_comment_to_duration() {
    assert_eq!(comment_to_duration("[%clk 0:00:01]"), Some(1))
}

#[test]
fn test_comment_to_duration2() {
    assert_eq!(comment_to_duration(" [%clk 0:03:00] "), Some(180))
}

#[test]
fn test_tc_to_duration() {
    assert_eq!(tc_to_tuple("60+3"), Some(Tc::new((60, 3))))
}

#[test]
fn clock_with_hours_and_surrounding_text() {
    assert_eq!(comment_to_duration("{ [%eval 0.3] [%clk 1:02:03] }"), Some(3723));
    assert_eq!(comment_to_duration("[%clk 0:00:05]]"), Some(5));
}

#[test]
fn malformed_clocks_are_absent() {
    assert_eq!(comment_to_duration(""), None);
    assert_eq!(comment_to_duration("no clock here"), None);
    assert_eq!(comment_to_duration("[%clk 0:00]"), None);
    assert_eq!(comment_to_duration("[%clk 0:00:01"), None);
    assert_eq!(comment_to_duration("[%clk a:00:01]"), None);
    assert_eq!(comment_to_duration("[%clk 0::01]"), None);
    assert_eq!(comment_to_duration("[%clk -1:00:01]"), None);
    assert_eq!(comment_to_duration("[%clk  0:00:01]"), None);
}

#[test]
fn clock_fields_take_a_plus_sign_as_integers_do() {
    assert_eq!(comment_to_duration("[%clk +0:01:+02]"), Some(62));
}

#[test]
fn clock_total_beyond_u64_is_absent() {
    assert_eq!(comment_to_duration("[%clk 18446744073709551615:00:00]"), None);
    assert_eq!(comment_to_duration("[%clk 0:00:18446744073709551615]"), Some(u64::MAX));
    assert_eq!(comment_to_duration("[%clk 0:00:18446744073709551616]"), None);
}

#[test]
fn time_control_variants() {
    assert_eq!(tc_to_tuple("-"), None);
    assert_eq!(tc_to_tuple("60"), None);
    assert_eq!(tc_to_tuple("+3"), None);
    assert_eq!(tc_to_tuple("60+"), None);
    assert_eq!(tc_to_tuple("180+0"), Some(Tc::new((180, 0))));
    assert_eq!(tc_to_tuple("60++3"), Some(Tc::new((60, 3))));
    assert_eq!(tc_to_tuple("60+3+1"), None);
}

#[test]
fn average_time_is_base_plus_forty_increments() {
    assert_eq!(Tc::new((60, 3)).average_time(), 180);
    assert_eq!(Tc::new((0, 0)).average_time(), 0);
    assert!(Tc::none().is_none());
    assert!(!Tc::new((0, 1)).is_none());
}
