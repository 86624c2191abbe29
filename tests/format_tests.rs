use std::collections::VecDeque;

use astro_float::{BigFloat, Consts, Radix, RoundingMode};
use calculator::format::{add1_to_vec, display_decimal, format_num, round_to_digit, Sign};
use calculator::number::PREC;

fn sign_of(s: astro_float::Sign) -> Sign {
    if s == astro_float::Sign::Neg {
        Sign::Neg
    } else {
        Sign::Pos
    }
}

#[test]
fn test_add1() {
    let digits = VecDeque::from([0, 0, 0, 0, 9]);
    let digits = add1_to_vec(digits).unwrap();
    assert_eq!(digits, vec![0, 0, 0, 1, 0]);

    let digits = VecDeque::from([0, 0, 0, 0, 5]);
    let digits = add1_to_vec(digits).unwrap();
    assert_eq!(digits, vec![0, 0, 0, 0, 6]);

    let digits = VecDeque::from([9, 9, 9]);
    let digits = add1_to_vec(digits).unwrap();
    assert_eq!(digits, vec![1, 0, 0, 0]);
}

#[test]
fn test_round() {
    let mut cc = Consts::new().unwrap();
    let (_s, m, e) = BigFloat::from_f64(0.1 + 0.2, PREC)
        .convert_to_radix(Radix::Dec, RoundingMode::ToEven, &mut cc)
        .unwrap();
    let (e, m) = round_to_digit(e, m, 15).unwrap();
    assert_eq!(e, 0);
    assert_eq!(m, vec![3, 0, 0, 0, 0, 0, 0, 0, 0, 0, 0, 0, 0, 0, 0]);

    let (_s, m, e) = BigFloat::from_f64(0.3, PREC)
        .convert_to_radix(Radix::Dec, RoundingMode::ToEven, &mut cc)
        .unwrap();
    let (e, m) = round_to_digit(e, m, 15).unwrap();
    assert_eq!(e, 0);
    assert_eq!(m, vec![3, 0, 0, 0, 0, 0, 0, 0, 0, 0, 0, 0, 0, 0, 0]);
}

#[test]
fn test_format() {
    let mut cc = Consts::new().unwrap();
    let (s, m, e) = BigFloat::from_f64(0.3, PREC)
        .convert_to_radix(Radix::Dec, RoundingMode::ToEven, &mut cc)
        .unwrap();
    let (e, m) = round_to_digit(e, m, 15).unwrap();
    let str_num = format_num(sign_of(s), &m, e);
    assert_eq!(str_num, "0.3");
}

#[test]
fn add1_of_empty_is_none() {
    assert!(add1_to_vec(VecDeque::new()).is_none());
}

#[test]
fn round_carry_adds_leading_digit() {
    assert_eq!(round_to_digit(2, vec![9, 9, 9, 7], 3), Some((3, vec![1, 0, 0, 0])));
    assert_eq!(round_to_digit(0, vec![0, 0, 0, 0, 9, 7], 1), Some((0, vec![0, 0, 0, 1, 0])));
}

#[test]
fn round_cases() {
    // fits already
    assert_eq!(round_to_digit(1, vec![1, 2, 3], 5), Some((1, vec![1, 2, 3])));
    // truncates below five
    assert_eq!(round_to_digit(1, vec![1, 2, 3, 4], 3), Some((1, vec![1, 2, 3])));
    // rounds up at five, leading zeros not counted
    assert_eq!(round_to_digit(-1, vec![0, 1, 2, 5], 2), Some((-1, vec![0, 1, 3])));
    // all zero
    assert_eq!(round_to_digit(1, vec![0, 0], 3), None);
    assert_eq!(round_to_digit(1, vec![], 3), None);
}

#[test]
fn format_plain_cases() {
    assert_eq!(format_num(Sign::Pos, &[3], 1), "3");
    assert_eq!(format_num(Sign::Pos, &[3], 3), "300");
    assert_eq!(format_num(Sign::Pos, &[3], 0), "0.3");
    assert_eq!(format_num(Sign::Pos, &[3], -2), "0.003");
    assert_eq!(format_num(Sign::Pos, &[1, 2, 5, 0, 0], 1), "1.25");
    assert_eq!(format_num(Sign::Neg, &[1, 2, 5], 2), "-12.5");
}

#[test]
fn format_scientific_cases() {
    assert_eq!(format_num(Sign::Pos, &[3], 5), "3.0e4");
    assert_eq!(format_num(Sign::Pos, &[1, 2, 3], 4), "1.23e3");
    assert_eq!(format_num(Sign::Neg, &[1, 2, 3], -4), "-1.23e-5");
    assert_eq!(format_num(Sign::Pos, &[7], 12), "7.0e11");
}

#[test]
fn display_rounds_and_handles_zero() {
    assert_eq!(display_decimal(Sign::Pos, vec![0, 0, 0], 0), "0");
    let mut m = vec![1; 20];
    m[15] = 7;
    assert_eq!(display_decimal(Sign::Pos, m, 1), "1.11111111111112");
}
