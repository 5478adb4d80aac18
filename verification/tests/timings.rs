use ffmfrog::time_fmt::ass_time;
use ffmfrog::timings::{parse_seconds, parse_timings, push_seconds, split_spaces, timings_text};

fn seconds(t: u64) -> String {
    let mut s = String::new();
    push_seconds(&mut s, t);
    s
}

#[test]
fn tokens_are_read_as_microseconds() {
    assert_eq!(parse_seconds("1.5"), Some(1_500_000));
    assert_eq!(parse_seconds("10"), Some(10_000_000));
    assert_eq!(parse_seconds("0"), Some(0));
    assert_eq!(parse_seconds("0.000001"), Some(1));
    assert_eq!(parse_seconds("83.416667"), Some(83_416_667));
    assert_eq!(parse_seconds("1."), Some(1_000_000));
    assert_eq!(parse_seconds("007.25"), Some(7_250_000));
}

#[test]
fn a_sign_and_an_empty_side_of_the_point_are_accepted() {
    assert_eq!(parse_seconds("+1.5"), Some(1_500_000));
    assert_eq!(parse_seconds("+10"), Some(10_000_000));
    assert_eq!(parse_seconds(".5"), Some(500_000));
    assert_eq!(parse_seconds("+.5"), Some(500_000));
    assert_eq!(parse_seconds("+5."), Some(5_000_000));
    assert_eq!(parse_seconds(".0000019"), Some(1));
    assert_eq!(parse_seconds("+18446744073709.551615"), Some(u64::MAX));
}

#[test]
fn digits_beyond_the_sixth_are_ignored() {
    assert_eq!(parse_seconds("1.2345678"), Some(1_234_567));
    assert_eq!(parse_seconds("83.41666666666667"), Some(83_416_666));
}

#[test]
fn malformed_tokens_are_refused() {
    assert_eq!(parse_seconds(""), None);
    assert_eq!(parse_seconds("abc"), None);
    assert_eq!(parse_seconds("."), None);
    assert_eq!(parse_seconds("+"), None);
    assert_eq!(parse_seconds("+."), None);
    assert_eq!(parse_seconds("++1"), None);
    assert_eq!(parse_seconds("1+"), None);
    assert_eq!(parse_seconds("inf"), None);
    assert_eq!(parse_seconds("NaN"), None);
    assert_eq!(parse_seconds("1.5x"), None);
    assert_eq!(parse_seconds("1.5.2"), None);
    assert_eq!(parse_seconds("-1"), None);
    assert_eq!(parse_seconds("2.5\n"), None);
    assert_eq!(parse_seconds("1e3"), None);
}

#[test]
fn timestamps_must_fit_64_bits() {
    assert_eq!(parse_seconds("18446744073709.551615"), Some(u64::MAX));
    assert_eq!(parse_seconds("18446744073709.551616"), None);
    assert_eq!(parse_seconds("18446744073709"), Some(18_446_744_073_709_000_000));
    assert_eq!(parse_seconds("18446744073710"), None);
    assert_eq!(parse_seconds("99999999999999999999999999"), None);
}

#[test]
fn timestamps_are_written_without_trailing_zeros() {
    assert_eq!(seconds(0), "0");
    assert_eq!(seconds(3_000_000), "3");
    assert_eq!(seconds(1_500_000), "1.5");
    assert_eq!(seconds(100), "0.0001");
    assert_eq!(seconds(1), "0.000001");
    assert_eq!(seconds(83_416_667), "83.416667");
    assert_eq!(seconds(u64::MAX), "18446744073709.551615");
}

#[test]
fn text_is_split_at_each_space() {
    assert_eq!(split_spaces("1 2"), vec!["1".to_string(), "2".to_string()]);
    assert_eq!(split_spaces("1 2 "), vec!["1".to_string(), "2".to_string(), String::new()]);
    assert_eq!(split_spaces(""), vec![String::new()]);
    assert_eq!(split_spaces(" a"), vec![String::new(), "a".to_string()]);
}

#[test]
fn reading_stops_at_the_first_empty_token() {
    let r = parse_timings("1 2.5  3 ");
    assert_eq!(r.stamps, vec![1_000_000, 2_500_000]);
    assert_eq!(r.bad_token, None);
    let r = parse_timings("");
    assert_eq!(r.stamps, Vec::<u64>::new());
    assert_eq!(r.bad_token, None);
    let r = parse_timings("4 5");
    assert_eq!(r.stamps, vec![4_000_000, 5_000_000]);
    assert_eq!(r.bad_token, None);
    let r = parse_timings("+4 .5 6. ");
    assert_eq!(r.stamps, vec![4_000_000, 500_000, 6_000_000]);
    assert_eq!(r.bad_token, None);
}

#[test]
fn reading_fails_at_the_first_bad_token() {
    let r = parse_timings("1 2 x 4 ");
    assert_eq!(r.stamps, vec![1_000_000, 2_000_000]);
    assert_eq!(r.bad_token, Some(2));
    let r = parse_timings("1.5 2.5\n");
    assert_eq!(r.stamps, vec![1_500_000]);
    assert_eq!(r.bad_token, Some(1));
}

#[test]
fn written_timestamps_are_read_back() {
    let stamps = vec![0, 1, 999_999, 1_000_000, 12_345_678, 3_600_000_000, u64::MAX];
    let text = timings_text(&stamps);
    assert_eq!(text, "0 0.000001 0.999999 1 12.345678 3600 18446744073709.551615 ");
    let back = parse_timings(&text);
    assert_eq!(back.stamps, stamps);
    assert_eq!(back.bad_token, None);
    assert_eq!(timings_text(&Vec::new()), "");
}

#[test]
fn timestamps_read_back_to_six_decimal_digits() {
    let recorded: [f64; 4] = [0.0, 1.5, 83.416667, 7261.000001];
    let stamps: Vec<u64> = recorded.iter().map(|t| (t * 1e6).round() as u64).collect();
    let back = parse_timings(&timings_text(&stamps));
    assert_eq!(back.bad_token, None);
    assert_eq!(back.stamps.len(), recorded.len());
    for (t, r) in back.stamps.iter().zip(recorded.iter()) {
        assert!((*t as f64 / 1e6 - r).abs() < 1e-6);
    }
}

#[test]
fn script_times() {
    assert_eq!(ass_time(0), "0:00:00.00");
    assert_eq!(ass_time(1_000_000), "0:00:01.00");
    assert_eq!(ass_time(59_999_999), "0:00:59.99");
    assert_eq!(ass_time(3_723_450_000), "1:02:03.45");
    assert_eq!(ass_time(9_999), "0:00:00.00");
    assert_eq!(ass_time(10_000), "0:00:00.01");
    assert_eq!(ass_time(360_000_000_000), "100:00:00.00");
}
