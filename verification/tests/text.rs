use cardano_lightning_client::text::{
    i128_text, i64_text, is_before, read_i64, read_u64, u64_text, without_slashes,
};

#[test]
fn numbers_are_written_in_decimal() {
    assert_eq!(u64_text(0), "0");
    assert_eq!(u64_text(u64::MAX), u64::MAX.to_string());
    assert_eq!(i64_text(i64::MIN), i64::MIN.to_string());
    assert_eq!(i64_text(-70), "-70");
    assert_eq!(i128_text(i128::MIN), i128::MIN.to_string());
    assert_eq!(i128_text(i128::MAX), i128::MAX.to_string());
}

#[test]
fn numbers_are_read_like_std_reads_them() {
    for s in [
        "", "+", "-", "0", "007", "+12", "-12", "--1", "+-1", " 1", "1 ", "1_000", "18446744073709551615",
        "18446744073709551616", "9223372036854775807", "9223372036854775808", "-9223372036854775808",
        "-9223372036854775809", "99999999999999999999999", "٣", "-0",
    ] {
        assert_eq!(read_u64(s), s.parse::<u64>().ok(), "{}", s);
        assert_eq!(read_i64(s), s.parse::<i64>().ok(), "{}", s);
    }
}

#[test]
fn numbers_are_read_as_they_were_written() {
    for n in [0, 9, 10, 12345, u64::MAX] {
        assert_eq!(read_u64(&u64_text(n)), Some(n));
    }
    for n in [0, -1, i64::MAX, i64::MIN] {
        assert_eq!(read_i64(&i64_text(n)), Some(n));
    }
}

#[test]
fn strings_are_ordered_like_std_orders_them() {
    let words = ["", "a", "ab", "b", "B", "é", "z", "\u{ffff}", "\u{10000}", "ab-", "ab0"];
    for a in words {
        for b in words {
            assert_eq!(is_before(a, b), a < b, "{} {}", a, b);
        }
    }
}

#[test]
fn slashes_are_taken_off_the_end() {
    assert_eq!(without_slashes("http://x/api///"), "http://x/api");
    assert_eq!(without_slashes("///"), "");
    assert_eq!(without_slashes("a/b"), "a/b");
}
