use defi::bignum::Number;
use defi::bonding::{
    bigint_from_number, bigint_to_number, decimal_from_number, get_mint_amount,
    get_return_amount, number_from_decimal,
};
use defi::decimal::Decimal;

#[test]
fn test_1_buy() {
    let precision_bits = 384;
    let collateral_amount = Decimal::from_u64(300);
    let reserve_amount = Decimal::from_u64(60000);
    let supply_amount = Decimal::from_u64(300000);
    let reserve_ratio_n = 1;
    let reserve_ratio_d = 5;
    let to_mint = get_mint_amount(
        collateral_amount,
        reserve_amount,
        supply_amount,
        reserve_ratio_n,
        reserve_ratio_d,
        precision_bits,
    );
    let expected: i128 = 299401793723844635041;
    let expected: Decimal = Decimal(expected);
    assert_eq!(to_mint, expected);

    let collateral_amount = Decimal::from_u64(700);
    let reserve_amount = Decimal::from_u64(60300);
    let supply_amount = Decimal(300000000000000000000000i128 + 299401793723844635041i128);
    let to_mint = get_mint_amount(
        collateral_amount,
        reserve_amount,
        supply_amount,
        reserve_ratio_n,
        reserve_ratio_d,
        precision_bits,
    );
    let expected: i128 = 693997438220660073726;
    let expected: Decimal = Decimal(expected);
    assert_eq!(to_mint, expected);
}

#[test]
fn test_2_buy_sell() {
    let precision_bits = 384;
    let to_mint = get_mint_amount(
        Decimal::from_u64(300),
        Decimal::from_u64(60000),
        Decimal::from_u64(300000),
        1,
        5,
        precision_bits,
    );
    let expected = Decimal(299401793723844635041);
    assert_eq!(to_mint, expected);

    let to_return = get_return_amount(
        expected,
        Decimal::from_u64(60300),
        Decimal(300000000000000000000000i128 + 299401793723844635041i128),
        1,
        5,
        precision_bits,
    );
    assert_eq!(to_return, Decimal(300000000000000000000));
}

#[test]
fn test_3_sell() {
    let precision_bits = 384;
    let to_return = get_return_amount(
        Decimal::from_u64(100),
        Decimal::from_u64(61000),
        Decimal(300000000000000000000000i128 + 299401793723844635041i128 + 693997438220660073726i128),
        1,
        5,
        precision_bits,
    );
    assert_eq!(to_return, Decimal(101263817029251588263));
}

#[test]
fn test_decimal_from_bigint() {
    let precision_bits = 10;
    let b = Number::from_i128(-25);
    let b = bigint_to_number(&b, precision_bits);
    let maybe_d = decimal_from_number(&b, precision_bits);
    assert_eq!(maybe_d, Some(Decimal(-25)));
}

#[test]
fn test_bigint_from_decimal() {
    let precision_bits = 0;
    let d = Decimal(-25);
    let b = number_from_decimal(d, precision_bits);
    let b = bigint_from_number(&b, precision_bits);
    assert_eq!(b.to_i128(), Some(-25));

    let precision_bits = 2;
    let b = number_from_decimal(d, precision_bits);
    let b = bigint_from_number(&b, precision_bits);
    assert_eq!(b.to_i128(), Some(-25));
}

#[test]
fn fixed_point_rounds_to_nearest_with_halves_away_from_zero() {
    // -25.25 with two fractional bits is -101 / 4
    assert_eq!(bigint_from_number(&Number::from_i128(-101), 2).to_i128(), Some(-25));
    // -25.5 and 25.5 go away from zero
    assert_eq!(bigint_from_number(&Number::from_i128(-102), 2).to_i128(), Some(-26));
    assert_eq!(bigint_from_number(&Number::from_i128(102), 2).to_i128(), Some(26));
    // -25.75 and 25.25
    assert_eq!(bigint_from_number(&Number::from_i128(-103), 2).to_i128(), Some(-26));
    assert_eq!(bigint_from_number(&Number::from_i128(101), 2).to_i128(), Some(25));
    // a decimal comes back from fixed point unchanged
    for p in [0u16, 1, 2, 10, 64] {
        let d = Decimal(-25);
        assert_eq!(decimal_from_number(&number_from_decimal(d, p), p), Some(d));
    }
}
