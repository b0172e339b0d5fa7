use htlc::hashlock::{digest_matches, valid_signature};
use htlc::U256;

const ZEROS_DIGEST: [u8; 32] = [
    0xb5, 0xfd, 0xab, 0x78, 0xd8, 0x94, 0x7e, 0xac, 0xc8, 0x64, 0xbf, 0xee, 0xcb, 0x4d, 0x21, 0x00,
    0x78, 0x0e, 0x5a, 0xfe, 0x1c, 0xd8, 0xef, 0xaf, 0xb1, 0x24, 0x88, 0x79, 0x13, 0xac, 0x49, 0xfa,
];

#[test]
fn zeros_open_their_own_commitment() {
    let hash = U256::from_be_bytes(&ZEROS_DIGEST);
    assert!(valid_signature(&hash, &[0u8; 112]));
}

#[test]
fn digest_is_read_big_endian() {
    let hash = U256::from_be_bytes(&ZEROS_DIGEST);
    assert_eq!(hash.hi, 0xb5fdab78d8947eacc864bfeecb4d2100);
    assert_eq!(hash.lo, 0x780e5afe1cd8efafb124887913ac49fa);
    assert!(digest_matches(&hash, &ZEROS_DIGEST));
}
