use rationals::expressions::Exp;

#[test]
fn should_create_new_constant_expressions() {
    let e = Exp::constant(42);
    assert_eq!(e.to_string(), "Val(42)");
}

#[test]
fn should_create_new_variable_with_a_bound_expression() {
    let e = Exp::constant(42);
    let variable_exp = Exp::variable("name", e);
    assert_eq!(variable_exp.to_string(), "name");
}

#[test]
fn should_create_a_sum_expression() {
    let lhs = Exp::constant(21);
    let rhs = Exp::constant(1);

    let sum_exp = Exp::sum(lhs, rhs);
    assert_eq!(sum_exp.to_string(), "(Val(21)) + (Val(1))");
}

#[test]
fn should_evaluate_expressions() {
    let e1 = Exp::sum(Exp::constant(19), Exp::constant(2));
    let e2 = Exp::sum(e1.clone(), e1);

    assert_eq!(Exp::eval(&e2), 42);
}

#[test]
fn negative_constants_render_with_their_sign() {
    let e = Exp::constant(-3);
    assert_eq!(e.to_string(), "Val(-3)");
    assert_eq!(Exp::eval(&e), -3);
}

#[test]
fn variables_evaluate_to_their_bound_expression() {
    let bound = Exp::sum(Exp::constant(40), Exp::constant(2));
    let v = Exp::variable("answer", bound);
    assert_eq!(Exp::eval(&v), 42);
    assert_eq!(v.to_string(), "answer");
}

#[test]
fn cloned_expressions_evaluate_and_render_alike() {
    let e = Exp::sum(Exp::variable("x", Exp::constant(-7)), Exp::constant(7));
    let c = e.clone();
    assert_eq!(Exp::eval(&c), Exp::eval(&e));
    assert_eq!(c.to_string(), e.to_string());
}
