use sola_indexer::wire::{read_bool, read_key, read_string, read_u16, read_u32, read_u64, read_u8};

#[test]
fn integers_are_little_endian() {
    let bytes = [1u8, 0, 0, 0, 0, 0, 0, 1, 9];
    let (v, rest) = read_u64(&bytes).unwrap();
    assert_eq!(v, 1 + (1u64 << 56));
    assert_eq!(rest, &[9u8][..]);
    assert_eq!(read_u32(&[0x78, 0x56, 0x34, 0x12]).unwrap().0, 0x1234_5678);
    assert_eq!(read_u16(&[0xf4, 0x01]).unwrap().0, 500);
    assert_eq!(read_u8(&[7]).unwrap().0, 7);
    assert_eq!(read_u64(&[0xff; 8]).unwrap().0, u64::MAX);
}

#[test]
fn short_integers_fail() {
    assert!(read_u64(&[0u8; 7]).is_none());
    assert!(read_u32(&[0u8; 3]).is_none());
    assert!(read_u16(&[0u8; 1]).is_none());
    assert!(read_u8(&[]).is_none());
}

#[test]
fn booleans_are_zero_or_one() {
    assert_eq!(read_bool(&[0]).unwrap().0, false);
    assert_eq!(read_bool(&[1]).unwrap().0, true);
    assert!(read_bool(&[2]).is_none());
    assert!(read_bool(&[]).is_none());
}

#[test]
fn keys_take_thirty_two_bytes() {
    let mut bytes: Vec<u8> = (0u8..33).collect();
    let (k, rest) = read_key(&bytes).unwrap();
    assert_eq!(k[31], 31);
    assert_eq!(rest, &[32u8][..]);
    bytes.truncate(31);
    assert!(read_key(&bytes).is_none());
}

#[test]
fn strings_are_length_prefixed_utf8() {
    let bytes = [2u8, 0, 0, 0, b'h', b'i', b'!'];
    let (s, rest) = read_string(&bytes).unwrap();
    assert_eq!(s, "hi");
    assert_eq!(rest, &[b'!'][..]);
    assert_eq!(read_string(&[0u8, 0, 0, 0]).unwrap().0, "");
    assert!(read_string(&[3u8, 0, 0, 0, b'a']).is_none());
    assert!(read_string(&[1u8, 0, 0, 0, 0xc3]).is_none());
}
