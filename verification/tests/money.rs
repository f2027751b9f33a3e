use expense_ledger::money::Money;

fn amount(mantissa: i128, scale: u32) -> Money {
    Money::try_new(mantissa, scale).unwrap()
}

#[test]
fn adds_amounts_of_different_scales_exactly() {
    let a = amount(150, 2);
    let b = amount(25, 1);
    let sum = a.checked_add(&b).unwrap();
    assert!(sum.same_value(&amount(4, 0)));
    assert_eq!(sum.mantissa(), 400);
    assert_eq!(sum.scale(), 2);
}

#[test]
fn refuses_a_sum_that_would_be_rounded() {
    let big = amount(79_228_162_514_264_337_593_543_950_335, 0);
    let tiny = amount(1, 28);
    assert!(big.checked_add(&tiny).is_none());
}

#[test]
fn refuses_a_sum_that_overflows() {
    let big = amount(79_228_162_514_264_337_593_543_950_335, 0);
    assert!(big.checked_add(&amount(1, 0)).is_none());
}

#[test]
fn subtracts_exactly() {
    let a = amount(100, 0);
    let b = amount(4000, 2);
    let rest = a.checked_sub(&b).unwrap();
    assert!(rest.same_value(&amount(60, 0)));
    assert!(!rest.same_value(&a));
}

#[test]
fn sums_a_list_from_zero() {
    let list = vec![amount(40, 0), amount(60, 0)];
    let total = Money::sum(&list).unwrap();
    assert!(total.same_value(&amount(100, 0)));
    assert!(Money::sum(&Vec::new()).unwrap().same_value(&Money::zero()));
}

#[test]
fn compares_by_value_across_scales() {
    assert!(amount(1, 0).same_value(&amount(100, 2)));
    assert!(amount(-5, 1).less_than(&amount(0, 0)));
    assert!(amount(1, 28).is_positive());
    assert!(amount(-1, 28).is_negative());
    assert!(!Money::zero().is_positive());
    assert!(amount(79_228_162_514_264_337_593_543_950_335, 0)
        .less_than(&amount(79_228_162_514_264_337_593_543_950_335, 0))
        == false);
    assert!(amount(-79_228_162_514_264_337_593_543_950_335, 0)
        .less_than(&amount(79_228_162_514_264_337_593_543_950_335, 28)));
}

#[test]
fn keeps_mantissa_and_scale_in_range() {
    assert!(Money::try_new(79_228_162_514_264_337_593_543_950_336, 0).is_none());
    assert!(Money::try_new(1, 29).is_none());
    assert!(Money::try_new(-79_228_162_514_264_337_593_543_950_335, 28).is_some());
}
