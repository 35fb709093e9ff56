use rationals::rational::Rational;

#[test]
fn should_create_rational_numbers_from_whole_numbers() {
    let five = Rational::from(5);
    assert_eq!(five.numerator(), 5);
    assert_eq!(five.denominator(), 1);
}

#[test]
fn should_negate_rational_numbers() {
    let one_half = Rational::new(1, 2);
    let minus_one_half = Rational::new(-1, 2);

    assert_eq!(one_half.neg(), minus_one_half);
    assert_eq!(minus_one_half.neg(), one_half);
}

#[test]
fn should_display_rational_numbers() {
    let one_half = Rational::new(1, 2);
    let one = Rational::from(1);
    assert_eq!(one_half.to_string(), "1/2");
    assert_eq!(one.to_string(), "1");
}

#[test]
fn should_display_negative_rational_numbers() {
    let r1 = Rational::new(-1, 2);
    let r2 = Rational::new(-1, -2);
    let r3 = Rational::new(1, -2);

    assert_eq!(r1.to_string(), "-1/2");
    assert_eq!(r2.to_string(), "1/2");
    assert_eq!(r3.to_string(), "-1/2");
}

#[test]
fn should_sum_two_rational_numbers() {
    let one_third = Rational::new(1, 3);
    let one_half = Rational::new(1, 2);

    let sum = one_half.add(one_third);
    assert_eq!(sum, Rational::new(5, 6));
}

#[test]
fn should_sum_and_assign_two_rational_numbers() {
    let one_half = Rational::new(1, 2);
    let mut r = one_half;

    r.add_assign(one_half);

    assert_eq!(r, Rational::from(1));
}

#[test]
fn should_substract_and_assign_two_rational_numbers() {
    let one_half = Rational::new(1, 2);
    let mut r = Rational::from(1);

    r.sub_assign(one_half);

    assert_eq!(r, one_half);
}

#[test]
fn should_create_new_rational_numbers_simplifing_its_values() {
    let r = Rational::new(4, 6);
    assert_eq!(r, Rational::new(2, 3));
}

#[test]
fn should_create_new_rational_numbers() {
    let r = Rational::new(2, 3);
    assert_eq!(r.to_string(), "2/3".to_string());
}

#[test]
fn should_create_rational_numbers_from_number() {
    let r = Rational::from(2);
    assert_eq!(r.to_string(), "2".to_string());
}

#[test]
fn should_check_whether_the_rational_number_is_positive() {
    let r = Rational::new(1, 3);
    assert!(r.is_negative() == false);
}

#[test]
fn should_check_whether_the_rational_number_is_negative() {
    let r1 = Rational::new(1, -3);
    let r2 = Rational::new(-1, 3);
    let r3 = Rational::new(-1, -3);
    assert!(r1.is_negative());
    assert!(r2.is_negative());
    assert!(!r3.is_negative());
}

#[test]
fn should_multiply_two_rational_numbers() {
    let a = Rational::new(2, 3);
    let b = Rational::new(3, 4);

    assert_eq!(a.mul(b), Rational::new(1, 2));
}

#[test]
fn should_divide_two_rational_numbers() {
    let a = Rational::new(1, 2);
    let b = Rational::new(3, 4);

    assert_eq!(a.div(b), Rational::new(2, 3));
}

#[test]
fn should_make_the_difference_between_two_rational_numbers() {
    let a = Rational::new(2, 3);
    let b = Rational::new(3, 4);

    assert_eq!(a.sub(b), Rational::new(-1, 12));
}

#[test]
fn should_compare_two_rational_numbers() {
    let one_third = Rational::new(1, 3);
    let one_half = Rational::new(1, 2);

    assert!(one_half == one_half);
    assert!(one_half > one_third);
    assert!(one_third < one_half);
}

#[test]
fn new_always_reduces_and_keeps_the_denominator_positive() {
    let cases: Vec<(i32, i32)> = vec![
        (4, 6),
        (-4, 6),
        (4, -6),
        (-4, -6),
        (0, 9),
        (0, -9),
        (7, 7),
        (100, 10),
        (1, 2147483647),
        (2147483647, 2),
    ];
    for (n, d) in cases {
        let r = Rational::new(n, d);
        assert!(r.denominator() > 0);
        let g = rationals::gcd::gcd(r.numerator().abs(), r.denominator());
        assert_eq!(g, 1);
    }
}

#[test]
fn zero_numerator_collapses_to_zero_over_one() {
    let r = Rational::new(0, -7);
    assert_eq!(r.numerator(), 0);
    assert_eq!(r.denominator(), 1);
    assert_eq!(r.to_string(), "0");
}

#[test]
fn integer_embedding_displays_without_a_denominator() {
    let five = Rational::from(5);
    assert_eq!(five.to_string(), "5");
    let lowest = Rational::from(-2147483648);
    assert_eq!(lowest.to_string(), "-2147483648");
    let highest = Rational::from(2147483647);
    assert_eq!(highest.to_string(), "2147483647");
}

#[test]
fn adding_zero_changes_nothing() {
    let a = Rational::new(-3, 7);
    assert_eq!(a.add(Rational::from(0)), a);
}

#[test]
fn adding_the_negation_gives_zero() {
    let a = Rational::new(5, 8);
    assert_eq!(a.add(a.neg()), Rational::from(0));
    let b = Rational::new(-5, 8);
    assert_eq!(b.add(b.neg()), Rational::from(0));
}

#[test]
fn ordering_is_transitive_and_asymmetric_on_a_sample() {
    let third = Rational::new(1, 3);
    let half = Rational::new(1, 2);
    let two_thirds = Rational::new(2, 3);

    assert!(third < half);
    assert!(half < two_thirds);
    assert!(third < two_thirds);
    assert!(!(half < third));
    assert!(!(two_thirds < half));
    assert!(!(two_thirds < third));
}

#[test]
fn equal_values_built_differently_are_equal() {
    assert_eq!(Rational::new(2, 4), Rational::new(-3, -6));
    assert_eq!(Rational::new(-2, 4), Rational::new(3, -6));
}

#[test]
fn negation_folds_signs_into_the_numerator() {
    let r = Rational::new(-6, 4);
    assert_eq!(r.to_string(), "-3/2");
    assert_eq!(r.neg().to_string(), "3/2");
}
