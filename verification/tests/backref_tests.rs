use deco8::BackReferenceMatcher;

#[test]
fn test_find_run_at_distance_four() {
    let bytes = [10u8, 20, 30, 40, 10, 20, 30, 40, 50];
    let (search, current) = bytes.split_at(4);
    assert_eq!(BackReferenceMatcher::find(search, current), Some((4, 4)));
}

#[test]
fn test_find_prefers_longest_run() {
    let search = [5u8, 10, 20, 10, 20, 30];
    let current = [10u8, 20, 30];
    // A run of two starts at position 1, but the run of three at position 3
    // wins; its distance from the end of the search buffer is three.
    assert_eq!(BackReferenceMatcher::find(&search, &current), Some((3, 3)));
}

#[test]
fn test_find_prefers_earliest_among_equals() {
    let search = [7u8, 8, 7, 8];
    let current = [7u8, 8];
    assert_eq!(BackReferenceMatcher::find(&search, &current), Some((2, 4)));
}

#[test]
fn test_find_no_match() {
    assert_eq!(BackReferenceMatcher::find(&[1u8, 2, 3], &[9u8]), None);
    assert_eq!(BackReferenceMatcher::find(&[], &[9u8]), None);
    assert_eq!(BackReferenceMatcher::find(&[1u8, 2, 3], &[]), None);
}

#[test]
fn test_encode_two_byte_length() {
    // 256 needs two big-endian bytes, 20 one; 58 is the separator `:`.
    assert_eq!(BackReferenceMatcher::encode(256, 20), vec![1, 0, 58, 20]);
}

#[test]
fn test_encode_single_bytes() {
    assert_eq!(BackReferenceMatcher::encode(1, 1), vec![1, 58, 1]);
}

#[test]
fn test_encode_four_byte_width() {
    assert_eq!(
        BackReferenceMatcher::encode(0x10000, 0xff),
        vec![0, 1, 0, 0, 58, 0xff]
    );
}

#[test]
fn test_worth_encoding_policy() {
    assert!(BackReferenceMatcher::worth_encoding(4, 4));
    assert!(!BackReferenceMatcher::worth_encoding(3, 10));
    assert!(!BackReferenceMatcher::worth_encoding(10, 3));
}
