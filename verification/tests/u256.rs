use htlc::U256;
use soroban_sdk::{Bytes, Env};

fn counting() -> [u8; 32] {
    let mut bytes = [0u8; 32];
    for (i, byte) in bytes.iter_mut().enumerate() {
        *byte = i as u8 + 1;
    }
    bytes
}

#[test]
fn from_be_bytes_puts_the_first_byte_on_top() {
    let value = U256::from_be_bytes(&counting());
    assert_eq!(value.hi, 0x0102030405060708090a0b0c0d0e0f10);
    assert_eq!(value.lo, 0x1112131415161718191a1b1c1d1e1f20);
}

#[test]
fn from_be_bytes_of_small_numbers() {
    let mut bytes = [0u8; 32];
    assert_eq!(U256::from_be_bytes(&bytes), U256::from_u128(0));
    bytes[31] = 1;
    assert_eq!(U256::from_be_bytes(&bytes), U256::from_u128(1));
    bytes[30] = 1;
    assert_eq!(U256::from_be_bytes(&bytes), U256::from_u128(257));
    bytes[15] = 2;
    assert_eq!(U256::from_be_bytes(&bytes), U256::from_parts(2, 257));
    bytes[0] = 0x80;
    assert_eq!(U256::from_be_bytes(&bytes), U256::from_parts((1 << 127) + 2, 257));
}

#[test]
fn from_be_bytes_of_the_largest_number() {
    let value = U256::from_be_bytes(&[0xff; 32]);
    assert_eq!(value, U256 { hi: u128::MAX, lo: u128::MAX });
    assert_eq!(value.to_be_bytes(), [0xff; 32]);
}

#[test]
fn to_be_bytes_undoes_from_be_bytes() {
    let bytes = counting();
    assert_eq!(U256::from_be_bytes(&bytes).to_be_bytes(), bytes);
    let value = U256::from_parts(0xdead_beef, 7 << 100);
    assert_eq!(U256::from_be_bytes(&value.to_be_bytes()), value);
    let mut expected = [0u8; 32];
    expected[12..16].copy_from_slice(&[0xde, 0xad, 0xbe, 0xef]);
    expected[19] = 0x70;
    assert_eq!(value.to_be_bytes(), expected);
}

#[test]
fn from_parts_and_from_u128() {
    assert_eq!(U256::from_parts(3, 4), U256 { hi: 3, lo: 4 });
    assert_eq!(U256::from_u128(u128::MAX), U256 { hi: 0, lo: u128::MAX });
    assert_ne!(U256::from_parts(1, 0), U256::from_parts(0, 1));
}

#[test]
fn reading_agrees_with_the_host() {
    let env = Env::default();
    let bytes = counting();
    let host = soroban_sdk::U256::from_be_bytes(&env, &Bytes::from_array(&env, &bytes));
    let ours = U256::from_be_bytes(&bytes);
    let pieces = soroban_sdk::U256::from_parts(
        &env,
        (ours.hi >> 64) as u64,
        ours.hi as u64,
        (ours.lo >> 64) as u64,
        ours.lo as u64,
    );
    assert_eq!(host, pieces);
    let mut written = [0u8; 32];
    host.to_be_bytes().copy_into_slice(&mut written);
    assert_eq!(ours.to_be_bytes(), written);

    let small = soroban_sdk::U256::from_u128(&env, 0x0102_0304);
    let mut digits = [0u8; 32];
    small.to_be_bytes().copy_into_slice(&mut digits);
    assert_eq!(U256::from_be_bytes(&digits), U256::from_u128(0x0102_0304));
}
