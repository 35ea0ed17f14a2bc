use candy_machine::fee::{calculate_fee, split_fee};
use candy_machine::types::FEE_SCALE;

#[test]
fn ten_percent_of_thousand() {
    let percent = FEE_SCALE / 10;
    assert_eq!(calculate_fee(percent, 1000).ok(), Some(100));
    assert_eq!(split_fee(percent, 1000), (100, 900));
}

#[test]
fn small_rate_truncates_to_zero() {
    let percent = 3 * FEE_SCALE / 1000;
    assert_eq!(split_fee(percent, 100), (0, 100));
}

#[test]
fn fee_rounds_down() {
    // 5 * 0.99 = 4.95
    let percent = 99 * FEE_SCALE / 100;
    assert_eq!(split_fee(percent, 5), (4, 1));
}

#[test]
fn shares_add_up() {
    for (percent, amount) in [(0u128, 7u128), (FEE_SCALE, 7), (FEE_SCALE / 3, 1000), (123_456_789, u128::MAX)] {
        let (protocol, creator) = split_fee(percent, amount);
        assert_eq!(protocol + creator, amount);
    }
    assert_eq!(split_fee(FEE_SCALE, 7), (7, 0));
    assert_eq!(split_fee(0, 7), (0, 7));
}
