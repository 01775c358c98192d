use gilber::git::oid::parse_oid_hex;

#[test]
fn full_hash_parses() {
    let text = b"0123456789abcdef0123456789ABCDEF01234567";
    let id = parse_oid_hex(text).unwrap();
    assert_eq!(id.len(), 20);
    assert_eq!(id[0], 0x01);
    assert_eq!(id[7], 0xef);
    assert_eq!(id[15], 0xef);
    assert_eq!(id[19], 0x67);
}

#[test]
fn short_hash_is_padded_with_zeros() {
    let id = parse_oid_hex(b"abc").unwrap();
    let mut want = vec![0u8; 20];
    want[0] = 0xab;
    want[1] = 0xc0;
    assert_eq!(id, want);
}

#[test]
fn bad_hashes_are_refused() {
    assert_eq!(parse_oid_hex(b""), None);
    assert_eq!(parse_oid_hex(b"xyz"), None);
    assert_eq!(parse_oid_hex(b"hello.txt"), None);
    assert_eq!(parse_oid_hex(&[b'a'; 41]), None);
}
