use candy_machine::entropy::{
    decimal_string, fixed_digits_string, le_u128, random, range_random, reduce_index, seed_string,
};
use candy_machine::types::BlockInfo;

fn block(height: u64, time_nanos: u64, tx_index: Option<u32>) -> BlockInfo {
    BlockInfo { height, time_nanos, tx_index }
}

#[test]
fn decimal_digits() {
    assert_eq!(decimal_string(0), "0");
    assert_eq!(decimal_string(7), "7");
    assert_eq!(decimal_string(12345), "12345");
    assert_eq!(decimal_string(u64::MAX), u64::MAX.to_string());
}

#[test]
fn nanos_are_padded_to_nine_digits() {
    assert_eq!(fixed_digits_string(5, 9), "000000005");
    assert_eq!(fixed_digits_string(879305533, 9), "879305533");
    assert_eq!(fixed_digits_string(0, 0), "");
}

#[test]
fn seed_text_joins_inputs() {
    let b = block(12345, 1_571_797_419_879_305_533, Some(3));
    let text = seed_string(&"alice".to_string(), &"bob".to_string(), &"0".to_string(), &b);
    assert_eq!(text, "alice_bob_0_12345_1571797419.879305533_3");
    let b = block(100, 5_000_000_000, None);
    let text = seed_string(&"alice".to_string(), &"creator".to_string(), &"0".to_string(), &b);
    assert_eq!(text, "alice_creator_0_100_5.000000000_0");
}

#[test]
fn little_endian_read() {
    let mut bytes = vec![0u8; 32];
    bytes[0] = 1;
    assert_eq!(le_u128(&bytes), 1);
    bytes[0] = 0;
    bytes[1] = 1;
    assert_eq!(le_u128(&bytes), 256);
    bytes[16] = 9;
    assert_eq!(le_u128(&bytes), 256);
    let all = vec![0xffu8; 16];
    assert_eq!(le_u128(&all), u128::MAX);
}

#[test]
fn entropy_is_keccak_of_seed_text() {
    let b = block(12345, 1_571_797_419_879_305_533, Some(3));
    let r = random(&b, &"alice".to_string(), &"bob".to_string(), &"0".to_string());
    assert_eq!(r, 70332516087169545519900098363128132931);
    let b = block(100, 5_000_000_000, None);
    let r = random(&b, &"alice".to_string(), &"creator".to_string(), &"0".to_string());
    assert_eq!(r, 151369948069661300207058140316112245535);
}

#[test]
fn entropy_is_deterministic() {
    let b = block(1, 2, None);
    let x = random(&b, &"a".to_string(), &"b".to_string(), &"c".to_string());
    let y = random(&b, &"a".to_string(), &"b".to_string(), &"c".to_string());
    assert_eq!(x, y);
    let z = random(&b, &"a".to_string(), &"b".to_string(), &"d".to_string());
    assert_ne!(x, z);
}

#[test]
fn zero_range_draw_is_zero() {
    let b = block(12345, 1_571_797_419_879_305_533, Some(3));
    assert_eq!(range_random(&b, &"alice".to_string(), &"bob".to_string(), &"0".to_string(), 0), 0);
    assert_eq!(reduce_index(u128::MAX, 0), 0);
}

#[test]
fn draw_reduces_modulo_range() {
    assert_eq!(reduce_index(10, 3), 1);
    assert_eq!(reduce_index(u128::MAX, 2), 1);
    let b = block(12345, 1_571_797_419_879_305_533, Some(3));
    let r = range_random(&b, &"alice".to_string(), &"bob".to_string(), &"0".to_string(), 1000);
    assert_eq!(r, (70332516087169545519900098363128132931u128 % 1000) as usize);
}
