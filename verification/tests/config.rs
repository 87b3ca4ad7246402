use varint_simd_fair::config::{parse_u64, read_env_size, DEFAULT_ITERATIONS};

#[test]
fn iters_zero_negative_and_garbage_give_default() {
    assert_eq!(DEFAULT_ITERATIONS, 20);
    assert_eq!(read_env_size(Some("0"), DEFAULT_ITERATIONS), 20);
    assert_eq!(read_env_size(Some("-5"), DEFAULT_ITERATIONS), 20);
    assert_eq!(read_env_size(Some("abc"), DEFAULT_ITERATIONS), 20);
}

#[test]
fn read_env_size_absent_gives_default() {
    assert_eq!(read_env_size(None, 20), 20);
    assert_eq!(read_env_size(None, 7), 7);
}

#[test]
fn read_env_size_reads_positive_numbers() {
    assert_eq!(read_env_size(Some("1"), 20), 1);
    assert_eq!(read_env_size(Some("7"), 20), 7);
    assert_eq!(read_env_size(Some("20"), 5), 20);
    assert_eq!(read_env_size(Some("+17"), 20), 17);
    assert_eq!(read_env_size(Some("007"), 20), 7);
    assert_eq!(read_env_size(Some("4294967295"), 20), 4294967295u64 as usize);
}

#[test]
fn read_env_size_rejects_what_is_no_number() {
    for raw in ["", "+", "-", "+-1", "++1", " 5", "5 ", "1_000", "0x10", "1.5", "1e3", "٣", "५"] {
        assert_eq!(read_env_size(Some(raw), 20), 20, "{:?}", raw);
    }
}

#[test]
fn read_env_size_zero_in_any_spelling_gives_default() {
    for raw in ["0", "00", "+0", "0000000000000000000000000"] {
        assert_eq!(read_env_size(Some(raw), 20), 20, "{:?}", raw);
    }
}

#[test]
fn parse_u64_limits() {
    assert_eq!(parse_u64("18446744073709551615"), Some(u64::MAX));
    assert_eq!(parse_u64("18446744073709551616"), None);
    assert_eq!(parse_u64("99999999999999999999"), None);
    assert_eq!(parse_u64("000000000000000000000018446744073709551615"), Some(u64::MAX));
    assert_eq!(parse_u64("184467440737095516150"), None);
    assert_eq!(parse_u64("0"), Some(0));
    assert_eq!(parse_u64("+0"), Some(0));
}

#[test]
fn parse_u64_agrees_with_std() {
    let samples = [
        "", "+", "-", "0", "1", "9", "10", "+10", "-10", "0010", "12a", "a12", "1 2", " 12",
        "12 ", "+ 12", "++12", "1+2", "18446744073709551615", "18446744073709551616",
        "18446744073709551614", "+18446744073709551615", "28446744073709551615",
        "1844674407370955161", "184467440737095516159", "٣", "1٣", "/", ":", "0/", "0:",
        "\u{0}", "9\u{0}", "１２",
    ];
    for s in samples {
        assert_eq!(parse_u64(s), s.parse::<u64>().ok(), "{:?}", s);
    }
    for n in 0..2000u64 {
        let s = format!("{}", n * 7919);
        assert_eq!(parse_u64(&s), Some(n * 7919));
    }
}

#[test]
fn read_env_size_too_large_for_u64_gives_default() {
    assert_eq!(read_env_size(Some("18446744073709551616"), 20), 20);
    assert_eq!(read_env_size(Some("18446744073709551615"), 20), u64::MAX as usize);
}
