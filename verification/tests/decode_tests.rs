use deco8::{DecoError, Lua};

fn v0(region: &[u8]) -> Result<Lua, DecoError> {
    deco8::get_v0_lua(region)
}

fn v1(region: &[u8]) -> Result<Lua, DecoError> {
    deco8::get_v1_lua(region)
}

fn v2(region: &[u8]) -> Result<Lua, DecoError> {
    deco8::get_v2_lua(region)
}

#[test]
fn test_v0_hello_then_zeros() {
    let mut region = vec![0u8; 0x3aff];
    region[..5].copy_from_slice(b"hello");
    assert_eq!(v0(&region).unwrap().txt, "hello");
}

#[test]
fn test_v0_no_zero_takes_whole_region() {
    let region = vec![b'a'; 16];
    assert_eq!(v0(&region).unwrap().txt, "aaaaaaaaaaaaaaaa");
}

#[test]
fn test_v0_invalid_utf8() {
    let region = [0xffu8, 0xfe, 0x00];
    assert_eq!(v0(&region), Err(DecoError::Decode));
}

#[test]
fn test_v1_table_tokens_then_backref() {
    // Decompressed length 5.  Three table tokens emit "012"; the
    // back-reference 0x3c 0x30 goes back a distance of three and copies two
    // bytes, repeating the start of the just-emitted run at the tail.
    let mut region = vec![0u8; 32];
    region[..4].copy_from_slice(b":c:\x00");
    region[5] = 5;
    region[8] = 1;
    region[9] = 2;
    region[10] = 3;
    region[11] = 0x3c;
    region[12] = 0x30;
    let lua = v1(&region).unwrap();
    assert_eq!(lua.txt, "01201");
    assert_eq!(lua.txt.len(), 5); // exactly the declared decompressed length
}

#[test]
fn test_v1_backref_overshoot_is_cut() {
    // The copy length of the final back-reference runs one byte past the
    // declared decompressed length of 5; the output is cut back to it.
    let mut region = vec![0u8; 32];
    region[5] = 5;
    region[8] = 1;
    region[9] = 2;
    region[10] = 3;
    region[11] = 0x3c;
    region[12] = 0x31;
    assert_eq!(v1(&region).unwrap().txt, "01201");
}

#[test]
fn test_v1_literal_escape() {
    let mut region = vec![0u8; 16];
    region[5] = 1;
    region[8] = 0;
    region[9] = b'X';
    assert_eq!(v1(&region).unwrap().txt, "X");
}

#[test]
fn test_v1_newline_and_space_tokens() {
    let mut region = vec![0u8; 16];
    region[5] = 2;
    region[8] = 0x3a;
    region[9] = 0x3b;
    assert_eq!(v1(&region).unwrap().txt, "\n ");
}

#[test]
fn test_v1_backref_before_any_output() {
    let mut region = vec![0u8; 16];
    region[5] = 10;
    region[8] = 0x3c;
    region[9] = 0x31;
    assert_eq!(v1(&region), Err(DecoError::Decode));
}

#[test]
fn test_v1_truncated_stream() {
    let mut region = vec![0u8; 8];
    region[4] = 1; // decompressed length far beyond the region
    assert_eq!(v1(&region), Err(DecoError::Decode));
}

#[test]
fn test_v1_region_shorter_than_header() {
    assert_eq!(v1(&[0u8; 7]), Err(DecoError::Format));
}

#[test]
fn test_v2_well_formed_header_is_unsupported() {
    let mut region = vec![0u8; 0x3aff];
    region[6] = 1;
    region[7] = 8; // compressed length 264: header and table only
    assert_eq!(v2(&region), Err(DecoError::Unsupported));
}

#[test]
fn test_v2_region_shorter_than_table() {
    assert_eq!(v2(&[0u8; 100]), Err(DecoError::Format));
}

#[test]
fn test_v2_compressed_len_too_small() {
    let region = vec![0u8; 300];
    assert_eq!(v2(&region), Err(DecoError::Format));
}

#[test]
fn test_v2_compressed_len_beyond_region() {
    let mut region = vec![0u8; 300];
    region[6] = 2;
    region[7] = 0; // compressed length 512 > 300
    assert_eq!(v2(&region), Err(DecoError::Format));
}

#[test]
fn test_to_u16_and_to_u32() {
    assert_eq!(deco8::to_u16(&[1, 0]), 256);
    assert_eq!(deco8::to_u16(&[0x12, 0x34]), 0x1234);
    assert_eq!(deco8::to_u32(&[b':', b'c', b':', 0]), 0x3a63_3a00);
    assert_eq!(deco8::to_u32(&[0, b'p', b'x', b'a']), 0x0070_7861);
}

#[test]
fn test_bit_from_byte() {
    assert!(deco8::bit_from_byte(0b0000_0010, 1));
    assert!(!deco8::bit_from_byte(0b0000_0010, 0));
    assert!(deco8::bit_from_byte(0b1000_0000, 7));
}

#[test]
fn test_old_lookup_table() {
    assert_eq!(deco8::old_lookup(0), b'0');
    assert_eq!(deco8::old_lookup(9), b'9');
    assert_eq!(deco8::old_lookup(10), b'a');
    assert_eq!(deco8::old_lookup(35), b'z');
    assert_eq!(deco8::old_lookup(36), b'!');
    assert_eq!(deco8::old_lookup(56), b'_');
    assert_eq!(deco8::old_lookup(57), b'\n');
    assert_eq!(deco8::old_lookup(58), b' ');
}
