use deco8::{decode_pico_txt, Cartridge, Compression, DecoError, Gfx, Lua};

#[test]
fn test_new_cartridge() {
    let mut data = vec![0u8; 0x7fff];
    // first byte is already set 0.
    data[0x4301] = b'p';
    data[0x4302] = b'x';
    data[0x4303] = b'a';

    // setting only the little endian part.
    data[0x4305] = 2u8;
}

#[test]
fn cartridge_test_new_cartridge() {
    let mut data = vec![0u8; 0x7fff];
    // first byte is already set 0.
    data[0x4301] = b'p';
    data[0x4302] = b'x';
    data[0x4303] = b'a';

    // setting only the little endian part.
    data[0x4305] = 2u8;
}

#[test]
fn test_decode_to_vec() {
    // reference png: https://garethrees.org/2007/11/14/pngcrush/
    let smol_png: Vec<u8> = vec![
        0x89, 0x50, 0x4e, 0x47, 0x0d, 0x0a, 0x1a, 0x0a, 0x00, 0x00, 0x00, 0x0d, 0x49, 0x48,
        0x44, 0x52, 0x00, 0x00, 0x00, 0x01, 0x00, 0x00, 0x00, 0x01, 0x01, 0x00, 0x00, 0x00,
        0x00, 0x37, 0x6e, 0xf9, 0x24, 0x00, 0x00, 0x00, 0x10, 0x49, 0x44, 0x41, 0x54, 0x78,
        0x9c, 0x62, 0x60, 0x01, 0x00, 0x00, 0x00, 0xff, 0xff, 0x03, 0x00, 0x00, 0x06, 0x00,
        0x05, 0x57, 0xbf, 0xab, 0xd4, 0x00, 0x00, 0x00, 0x00, 0x49, 0x45, 0x4e, 0x44, 0xae,
        0x42, 0x60, 0x82,
    ];

    let png = decode_pico_txt(&smol_png);
    assert!(png.is_err());
}

fn hello_cartridge_bytes() -> Vec<u8> {
    let mut data = vec![0u8; 0x8000];
    data[0x4300] = b'h';
    data[0x4301] = b'e';
    data[0x4302] = b'l';
    data[0x4303] = b'l';
    data[0x4304] = b'o';
    data
}

#[test]
fn test_from_bytes_v0_hello() {
    let c = Cartridge::from_bytes(&hello_cartridge_bytes()).unwrap();
    assert_eq!(c.version(), Compression::V0);
    assert_eq!(c.lua.txt, "hello");
    assert_eq!(c.len(), 0x3cff);
    assert!(!c.is_empty());
}

#[test]
fn test_unknown_magic_selects_v0() {
    let mut data = vec![0u8; 0x8000];
    data[0x4300] = b'a';
    data[0x4301] = b'b';
    data[0x4302] = b'c';
    data[0x4303] = b'd';
    let c = Cartridge::from_bytes(&data).unwrap();
    assert_eq!(c.version(), Compression::V0);
    assert_eq!(c.lua.txt, "abcd");
}

#[test]
fn test_v1_magic_selects_v1() {
    let mut data = vec![0u8; 0x8000];
    data[0x4300] = b':';
    data[0x4301] = b'c';
    data[0x4302] = b':';
    data[0x4303] = 0;
    // decompressed length 0: nothing to decode, the text is empty.
    let c = Cartridge::from_bytes(&data).unwrap();
    assert_eq!(c.version(), Compression::V1);
    assert_eq!(c.lua.txt, "");
}

#[test]
fn test_v2_magic_reports_unsupported() {
    let mut data = vec![0u8; 0x8000];
    data[0x4301] = b'p';
    data[0x4302] = b'x';
    data[0x4303] = b'a';
    // compressed length 264: a well-formed header with an empty bit stream.
    data[0x4306] = 1;
    data[0x4307] = 8;
    assert_eq!(Cartridge::from_bytes(&data), Err(DecoError::Unsupported));
}

#[test]
fn test_short_input_rejected() {
    assert_eq!(Cartridge::from_bytes(&[0u8; 100]), Err(DecoError::Format));
    assert_eq!(Cartridge::from_bytes(&vec![0u8; 0x7fff]), Err(DecoError::Format));
}

#[test]
fn test_invalid_utf8_rejected() {
    let mut data = vec![0u8; 0x8000];
    data[0x4300] = 0xff;
    data[0x4301] = 0xfe;
    assert_eq!(Cartridge::from_bytes(&data), Err(DecoError::Decode));
}

#[test]
fn test_decode_idempotent() {
    let data = hello_cartridge_bytes();
    let c1 = Cartridge::from_bytes(&data).unwrap();
    let c2 = Cartridge::from_bytes(&data).unwrap();
    assert_eq!(c1, c2);
}

#[test]
fn test_png_round_trip() {
    let c = Cartridge::from_bytes(&hello_cartridge_bytes()).unwrap();
    let png = c.to_png(Compression::V0).unwrap();
    let back = Cartridge::from_png(&png).unwrap();
    assert_eq!(back.version(), Compression::V0);
    assert_eq!(back.lua.txt, "hello");
    assert_eq!(back.len(), 0x3cff);
}

#[test]
fn test_to_png_unsupported_schemes() {
    let c = Cartridge::from_bytes(&hello_cartridge_bytes()).unwrap();
    assert_eq!(c.to_png(Compression::V1), Err(DecoError::Unsupported));
    assert_eq!(c.to_png(Compression::V2), Err(DecoError::Unsupported));
}

#[test]
fn test_from_png_rejects_garbage() {
    assert_eq!(Cartridge::from_png(&[1, 2, 3]), Err(DecoError::Format));
}

#[test]
fn test_lua_default_and_text() {
    let lua = Lua::default();
    assert_eq!(lua.text(), "");
    let _gfx = Gfx::default();
}
