use rationals::functions::div;
use rationals::functions::fib;
use rationals::functions::max;
use rationals::functions::sum;
use rationals::functions::DivError;

#[test]
fn sum_should_add_two_i32_values() {
    assert_eq!(sum(40, 2), 42);
}

#[test]
fn max_should_find_max_between_two_i32_values() {
    let m = max(21, 42);
    assert_eq!(m, 42);
}

#[test]
fn max_should_find_max_between_two_f32_values() {
    let m = max(21.0f32, 42.45f32);
    assert_eq!(m, 42.45f32);
}

#[test]
fn div_should_return_an_ok_result_when_divisor_is_not_zero() {
    let res = div(84, 2);
    assert_eq!(res, Ok(42));
}

#[test]
fn div_should_return_an_err_result_when_divisor_is_zero() {
    let res = div(84, 0);
    assert_eq!(res, Err(DivError::DividedByZero));
}

#[test]
fn fib_should_compute_the_nth_fibonacci_number() {
    assert_eq!(fib(1), 1);
    assert_eq!(fib(2), 1);
    assert_eq!(fib(10), 55);
}

#[test]
fn fib_grows_through_the_first_values() {
    assert_eq!(fib(3), 2);
    assert_eq!(fib(4), 3);
    assert_eq!(fib(5), 5);
    assert_eq!(fib(6), 8);
}

#[test]
fn div_rounds_toward_zero_for_negative_operands() {
    assert_eq!(div(-7, 2), Ok(-3));
    assert_eq!(div(7, -2), Ok(-3));
    assert_eq!(div(-7, -2), Ok(3));
    assert_eq!(div(-8, 2), Ok(-4));
}

#[test]
fn max_of_equal_values_is_that_value() {
    assert_eq!(max(7, 7), 7);
}
