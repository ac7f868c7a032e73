use fuzzcore::text::{contains_new, dec_of, hex_of};

#[test]
fn hex_rendering_is_two_digits_per_byte() {
    assert_eq!(hex_of(&[]), "");
    assert_eq!(hex_of(&[0x00]), "00");
    assert_eq!(hex_of(&[0xDE, 0xAD, 0xBE, 0xEF]), "deadbeef");
    assert_eq!(hex_of(&[0x01, 0x23, 0x45, 0x67, 0x89, 0xAB, 0xCD, 0xEF]), "0123456789abcdef");
}

#[test]
fn decimal_rendering_matches_rust() {
    for n in [0u64, 1, 9, 10, 99, 100, 12345, u64::MAX] {
        assert_eq!(dec_of(n), n.to_string());
    }
}

#[test]
fn contains_new_finds_the_allocation_mark() {
    assert!(contains_new("new"));
    assert!(contains_new("xx new Foo()"));
    assert!(contains_new("renewal"));
    assert!(!contains_new(""));
    assert!(!contains_new("ne"));
    assert!(!contains_new("nEw"));
    assert!(!contains_new("nothing here"));
}
