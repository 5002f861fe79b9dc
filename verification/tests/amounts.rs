use merkle_distributor::amounts::{checked_ten_pow, ui_amount_to_token_amount};

#[test]
fn test_ui_amount_to_token_amount() {
    let amount = "3.1234";
    assert_eq!(ui_amount_to_token_amount(amount, 3).unwrap(), 3123);

    let amount = "0.1234";
    assert_eq!(ui_amount_to_token_amount(amount, 2).unwrap(), 12);

    let amount = "0.00001";
    assert_eq!(ui_amount_to_token_amount(amount, 2).unwrap(), 0);
}

#[test]
fn amounts_that_are_no_token_amounts_give_none() {
    assert_eq!(ui_amount_to_token_amount("1.5", 6), Some(1_500_000));
    assert_eq!(ui_amount_to_token_amount("7", 0), Some(7));
    assert_eq!(ui_amount_to_token_amount("2.999", 0), Some(2));
    assert_eq!(ui_amount_to_token_amount("18446744073709551615", 0), Some(u64::MAX));
    assert_eq!(ui_amount_to_token_amount("18446744073709551616", 0), None);
    assert_eq!(ui_amount_to_token_amount("-1", 2), None);
    assert_eq!(ui_amount_to_token_amount("-0.5", 0), None);
    assert_eq!(ui_amount_to_token_amount("abc", 2), None);
    assert_eq!(ui_amount_to_token_amount("", 2), None);
    assert_eq!(ui_amount_to_token_amount("1", 20), None);
    assert_eq!(ui_amount_to_token_amount("1", 19), Some(10_000_000_000_000_000_000));
    assert_eq!(ui_amount_to_token_amount("79228162514264337593543950335", 1), None);
}

#[test]
fn powers_of_ten_are_checked() {
    assert_eq!(checked_ten_pow(0), Some(1));
    assert_eq!(checked_ten_pow(1), Some(10));
    assert_eq!(checked_ten_pow(6), Some(1_000_000));
    assert_eq!(checked_ten_pow(19), Some(10_000_000_000_000_000_000));
    assert_eq!(checked_ten_pow(20), None);
    assert_eq!(checked_ten_pow(u32::MAX), None);
}
