use e7012e_sim::decimal::{parse_u16, parse_u32};
use e7012e_sim::telemetry::{
    interpret_rx_line, number_token_after_marker, parse_csv_pwm, parse_equals_pwm,
    parse_key_value_pwm, parse_pwm_from_line, parse_u16_after_marker,
};
use e7012e_sim::text::{find_bytes, split_bytes};

#[test]
fn decimal_parse_follows_std() {
    assert_eq!(parse_u16(b"1500"), Some(1500));
    assert_eq!(parse_u16(b"+1500"), Some(1500));
    assert_eq!(parse_u16(b"0001500"), Some(1500));
    assert_eq!(parse_u16(b"65535"), Some(65535));
    assert_eq!(parse_u16(b"65536"), None);
    assert_eq!(parse_u16(b""), None);
    assert_eq!(parse_u16(b"+"), None);
    assert_eq!(parse_u16(b"-5"), None);
    assert_eq!(parse_u16(b" 15"), None);
    assert_eq!(parse_u16(b"15a"), None);
    assert_eq!(parse_u32(b"4294967295"), Some(u32::MAX));
    assert_eq!(parse_u32(b"4294967296"), None);
    for text in ["0", "7", "+9", "65535", "65536", "99999999999", "12x", "", "+", "++1"] {
        assert_eq!(parse_u16(text.as_bytes()), text.parse::<u16>().ok(), "{text}");
    }
}

#[test]
fn find_matches_str_find() {
    for (hay, needle) in [
        ("steer_us:1500", "steer_us:"),
        ("abcabc", "bc"),
        ("abc", "d"),
        ("abc", ""),
        ("", ""),
        ("aaa", "aaaa"),
    ] {
        assert_eq!(find_bytes(hay.as_bytes(), needle.as_bytes()), hay.find(needle), "{hay} {needle}");
    }
}

#[test]
fn split_matches_str_split() {
    for line in ["a,b,c", ",", "", "abc", "1,controller,1500,1600,"] {
        let ours: Vec<Vec<u8>> = split_bytes(line.as_bytes(), b',');
        let theirs: Vec<Vec<u8>> = line.split(',').map(|s| s.as_bytes().to_vec()).collect();
        assert_eq!(ours, theirs, "{line}");
    }
}

#[test]
fn u16_after_marker_reads_the_digit_run() {
    assert_eq!(parse_u16_after_marker(b"x steer_us:1520 y", "steer_us:"), Some(1520));
    assert_eq!(parse_u16_after_marker(b"steer_us:1520throttle", "steer_us:"), Some(1520));
    assert_eq!(parse_u16_after_marker(b"steer_us: 1520", "steer_us:"), None);
    assert_eq!(parse_u16_after_marker(b"steer_us:", "steer_us:"), None);
    assert_eq!(parse_u16_after_marker(b"steer_us:70000", "steer_us:"), None);
    assert_eq!(parse_u16_after_marker(b"no marker", "steer_us:"), None);
    assert_eq!(parse_u16_after_marker(b"a:1 a:2", "a:"), Some(1));
}

#[test]
fn key_value_form() {
    assert_eq!(parse_key_value_pwm(b"steer_us:1400 throttle_us:1600"), Some((1400, 1600)));
    assert_eq!(parse_key_value_pwm(b"steer_us:1400"), None);
    assert_eq!(parse_key_value_pwm(b"throttle_us:1600"), None);
}

#[test]
fn equals_form() {
    assert_eq!(parse_equals_pwm(b"steer_pwm_us=1450, throttle_pwm_us=1550"), Some((1450, 1550)));
    assert_eq!(parse_equals_pwm(b"steer_pwm_us=abc throttle_pwm_us=1550"), None);
}

#[test]
fn csv_form() {
    assert_eq!(parse_csv_pwm(b"12345,controller,1480,1520"), Some((1480, 1520)));
    assert_eq!(parse_csv_pwm(b"12345,CONTROLLER,1480,1520,extra"), Some((1480, 1520)));
    assert_eq!(parse_csv_pwm(b"12345,Controller,+1480,1520"), Some((1480, 1520)));
    assert_eq!(parse_csv_pwm(b"12345,sensor,1480,1520"), None);
    assert_eq!(parse_csv_pwm(b"12345,controller,1480"), None);
    assert_eq!(parse_csv_pwm(b"12345,controller, 1480,1520"), None);
    assert_eq!(parse_csv_pwm(b"12345"), None);
}

#[test]
fn forms_are_tried_in_order() {
    let line = b"steer_us:1400 throttle_us:1600 steer_pwm_us=1100 throttle_pwm_us=1900";
    assert_eq!(parse_pwm_from_line(line), Some((1400, 1600)));
    assert_eq!(parse_pwm_from_line(b"steer_pwm_us=1100 throttle_pwm_us=1900"), Some((1100, 1900)));
    assert_eq!(parse_pwm_from_line(b"1,controller,1300,1700"), Some((1300, 1700)));
    assert_eq!(parse_pwm_from_line(b"hello"), None);
}

#[test]
fn number_tokens() {
    assert_eq!(number_token_after_marker(b"error:-1.25 x", "error:"), Some(b"-1.25".to_vec()));
    assert_eq!(number_token_after_marker(b"error:", "error:"), None);
    assert_eq!(number_token_after_marker(b"error:x", "error:"), None);
    assert_eq!(number_token_after_marker(b"kalman0:3.5,kalman1:0.1", "kalman1:"), Some(b"0.1".to_vec()));
}

#[test]
fn one_line_report() {
    let r = interpret_rx_line(b"steer_us:1500 throttle_us:1510 setpoint_mps:0.5 error:-2.0 kalman0:1 kalman1:2 kalman2:3 kalman3:4");
    assert_eq!(r.pwm, Some((1500, 1510)));
    assert_eq!(r.angle_setpoint, Some(b"0.5".to_vec()));
    assert_eq!(r.pid_error, Some(b"-2.0".to_vec()));
    assert_eq!(r.heading_estimate, Some(b"1".to_vec()));
    assert_eq!(r.observer_covariance, Some(b"2".to_vec()));
    assert_eq!(r.pid_p, Some(b"3".to_vec()));
    assert_eq!(r.pid_d, Some(b"4".to_vec()));
    assert_eq!(r.wall_left_correction, None);
    let w = interpret_rx_line(b"wall_left_deg:1.5 wall_right_deg:-0.5 wall_combined_deg:1.0");
    assert_eq!(w.wall_left_correction, Some(b"1.5".to_vec()));
    assert_eq!(w.wall_right_correction, Some(b"-0.5".to_vec()));
    assert_eq!(w.wall_combined_correction, Some(b"1.0".to_vec()));
    assert_eq!(w.pwm, None);
    let empty = interpret_rx_line(b"nothing here");
    assert_eq!(empty.pwm, None);
    assert_eq!(empty.pid_error, None);
}
