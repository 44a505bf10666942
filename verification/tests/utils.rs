use blockchain::utils::get_unix_timestamp;
use blockchain::utils::random_id;
use blockchain::utils::sha256_digest;

#[test]
fn digest_known_value() {
    // SHA-256 of the empty input.
    let d = sha256_digest(&Vec::new());
    let expected = vec![
        0xe3, 0xb0, 0xc4, 0x42, 0x98, 0xfc, 0x1c, 0x14, 0x9a, 0xfb, 0xf4, 0xc8, 0x99, 0x6f,
        0xb9, 0x24, 0x27, 0xae, 0x41, 0xe4, 0x64, 0x9b, 0x93, 0x4c, 0xa4, 0x95, 0x99, 0x1b,
        0x78, 0x52, 0xb8, 0x55,
    ];
    assert_eq!(d, expected);

    // SHA-256 of "abc".
    let d2 = sha256_digest(&vec![b'a', b'b', b'c']);
    let expected2 = vec![
        0xba, 0x78, 0x16, 0xbf, 0x8f, 0x01, 0xcf, 0xea, 0x41, 0x41, 0x40, 0xde, 0x5d, 0xae,
        0x22, 0x23, 0xb0, 0x03, 0x61, 0xa3, 0x96, 0x17, 0x7a, 0x9c, 0xb4, 0x10, 0xff, 0x61,
        0xf2, 0x00, 0x15, 0xad,
    ];
    assert_eq!(d2, expected2);
}

#[test]
fn random_id_length() {
    assert_eq!(random_id(5).len(), 5);
    assert_eq!(random_id(0).len(), 0);
    assert_eq!(random_id(32).len(), 32);
    for c in random_id(64).chars() {
        assert!(c.is_ascii_alphanumeric());
    }
}

#[test]
fn timestamp_is_recent() {
    let ts = get_unix_timestamp();
    // After 2020 on any sanely-set clock.
    assert!(ts > 1_577_836_800);
}
