use mentor_x_contracts::ident::{comment_id, decimal, signed};

#[test]
fn decimal_formats_as_the_standard_library_does() {
    assert_eq!(decimal(0), "0");
    assert_eq!(decimal(7), "7");
    assert_eq!(decimal(10), "10");
    assert_eq!(decimal(109), "109");
    assert_eq!(decimal(1_000_000), "1000000");
    assert_eq!(decimal(u64::MAX), "18446744073709551615");
    for n in [1u64, 9, 11, 99, 100, 101, 999, 12345678901234567890] {
        assert_eq!(decimal(n), n.to_string());
    }
}

#[test]
fn signed_formats_negative_numbers_with_a_minus() {
    assert_eq!(signed(0), "0");
    assert_eq!(signed(1), "1");
    assert_eq!(signed(-1), "-1");
    assert_eq!(signed(-10), "-10");
    assert_eq!(signed(i32::MAX), "2147483647");
    assert_eq!(signed(i32::MIN), "-2147483648");
    for i in [-128i32, 127, -99, 42] {
        assert_eq!(signed(i), i.to_string());
    }
}

#[test]
fn comment_id_is_cid_and_the_number() {
    assert_eq!(comment_id(1), "cid1");
    assert_eq!(comment_id(42), "cid42");
    assert_eq!(comment_id(0), "cid0");
    assert_eq!(comment_id(u64::MAX), "cid18446744073709551615");
}
