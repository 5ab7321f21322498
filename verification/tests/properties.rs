use rusymbols::{
    needs_wrap, ArithmeticalError, Bindings, Brackets, Expr, Op, Priority, Scalar, Variable,
};

/// Performs one binary operation on two binary64 bit patterns.
fn apply_op(op: Op, a: u64, b: u64) -> u64 {
    let x = f64::from_bits(a);
    let y = f64::from_bits(b);
    let r = match op {
        Op::Add => x + y,
        Op::Sub => x - y,
        Op::Mul => x * y,
        Op::Div => x / y,
        Op::Pow => x.powf(y),
    };
    r.to_bits()
}

fn scalar_of(x: f64) -> Scalar {
    Scalar::new(x.to_bits(), format!("{}", x))
}

fn value_of(x: f64) -> Expr {
    Expr::value(scalar_of(x))
}

fn variable_of(name: &str) -> Expr {
    Expr::variable(Variable::new(name))
}

fn run(e: &Expr, vars: &Bindings) -> Result<f64, ArithmeticalError> {
    let (r, _) = e.eval_vars(vars, &apply_op);
    r.map(f64::from_bits)
}

#[test]
fn equal_rank_composite_operand_is_wrapped() {
    let product = variable_of("x").add(variable_of("y")).mul(variable_of("z"));
    assert_eq!(product.to_string(), "(x + y) * z");
    let chained = variable_of("x").add(variable_of("y")).add(variable_of("z"));
    assert_eq!(chained.to_string(), "(x + y) + z");
    let right_nested = variable_of("x").add(variable_of("y").add(variable_of("z")));
    assert_eq!(right_nested.to_string(), "x + (y + z)");
    let tighter_left = variable_of("x").mul(variable_of("y")).add(variable_of("z"));
    assert_eq!(tighter_left.to_string(), "x * y + z");
}

#[test]
fn needs_wrap_rule() {
    let loosest = Op::Add.priority();
    let tighter = Op::Mul.priority();
    let atom = value_of(1.0).priority();
    assert!(needs_wrap(loosest, loosest, false));
    assert!(needs_wrap(loosest, tighter, false));
    assert!(!needs_wrap(tighter, loosest, false));
    assert!(!needs_wrap(loosest, loosest, true));
    assert!(!needs_wrap(atom, tighter, true));
}

#[test]
fn bracketed_rank_is_tightest() {
    let leaf_rank = value_of(1.0).priority();
    let loose = variable_of("x").add(variable_of("y"));
    assert_eq!(loose.bracket(Brackets::Round).priority(), leaf_rank);
    let tight = variable_of("x").pow(variable_of("y"));
    assert_eq!(tight.bracket(Brackets::Square).priority(), leaf_rank);
    let wrapped = variable_of("x").braced().braced();
    assert_eq!(wrapped.priority(), leaf_rank);
}

#[test]
fn bracket_forms_render_their_pairs() {
    assert_eq!(Brackets::Round.get_symbols(), ("(", ")"));
    assert_eq!(Brackets::Figure.get_symbols(), ("{", "}"));
    assert_eq!(Brackets::Square.get_symbols(), ("[", "]"));
    let sum = variable_of("x").add(variable_of("y"));
    assert_eq!(sum.bracket(Brackets::Square).to_string(), "[x + y]");
    let sum_again = variable_of("x").add(variable_of("y"));
    assert_eq!(sum_again.bracket(Brackets::Figure).to_string(), "{x + y}");
    let leaf = variable_of("x");
    assert_eq!(leaf.braced().to_string(), "(x)");
}

#[test]
fn evaluation_follows_association_order() {
    let nested = value_of(1.0).add(value_of(2.0)).add(value_of(3.0));
    assert_eq!(run(&nested, &Bindings::new()).unwrap(), 6.0);
}

#[test]
fn division_by_exact_zero_fails() {
    let zero = value_of(2.0).div(value_of(0.0));
    assert_eq!(run(&zero, &Bindings::new()), Err(ArithmeticalError::ZeroDivision));
    let negative_zero = value_of(2.0).div(value_of(-0.0));
    assert_eq!(
        run(&negative_zero, &Bindings::new()),
        Err(ArithmeticalError::ZeroDivision)
    );
    let small = value_of(2.0).div(value_of(0.0001));
    assert_eq!(run(&small, &Bindings::new()).unwrap(), 20000.0);
}

#[test]
fn unknown_variable_is_reported_by_name() {
    let mut vars = Bindings::new();
    vars.insert(Variable::new("x"), scalar_of(10.0));
    let unbound = variable_of("y");
    assert_eq!(
        run(&unbound, &vars),
        Err(ArithmeticalError::UnknownVariable(Variable::new("y")))
    );
    let doubled = variable_of("x").add(variable_of("x"));
    assert_eq!(run(&doubled, &vars).unwrap(), 20.0);
}

#[test]
fn combined_scenario_renders_and_evaluates() {
    let expr = variable_of("x")
        .pow(variable_of("y"))
        .add(value_of(2.0))
        .mul(variable_of("z"))
        .sub(value_of(10.0));
    assert_eq!(expr.to_string(), "(x ^ y + 2) * z - 10");
    let mut vars = Bindings::new();
    vars.insert(Variable::new("x"), scalar_of(10.0));
    vars.insert(Variable::new("y"), scalar_of(3.0));
    vars.insert(Variable::new("z"), scalar_of(5.0));
    assert_eq!(run(&expr, &vars).unwrap(), 5000.0);
}

#[test]
fn operator_ranks_compare_as_usual() {
    assert_eq!(Op::Add.priority(), Op::Sub.priority());
    assert_eq!(Op::Mul.priority(), Op::Div.priority());
    assert!(Op::Mul.priority() > Op::Add.priority());
    assert!(Op::Pow.priority() > Op::Mul.priority());
}

#[test]
fn left_error_wins_over_right() {
    let left_unbound = variable_of("u").div(value_of(0.0));
    assert_eq!(
        run(&left_unbound, &Bindings::new()),
        Err(ArithmeticalError::UnknownVariable(Variable::new("u")))
    );
    let left_zero_division = value_of(1.0).div(value_of(0.0)).add(variable_of("u"));
    assert_eq!(
        run(&left_zero_division, &Bindings::new()),
        Err(ArithmeticalError::ZeroDivision)
    );
}

#[test]
fn inserting_a_name_again_replaces_its_value() {
    let mut vars = Bindings::new();
    vars.insert(Variable::new("x"), scalar_of(1.0));
    vars.insert(Variable::new("x"), scalar_of(2.0));
    assert_eq!(run(&variable_of("x"), &vars).unwrap(), 2.0);
}

#[test]
fn power_follows_ieee_semantics() {
    let nan = value_of(-2.0).pow(value_of(0.5));
    assert!(run(&nan, &Bindings::new()).unwrap().is_nan());
    let cube = value_of(10.0).pow(value_of(3.0));
    assert_eq!(run(&cube, &Bindings::new()).unwrap(), 1000.0);
}

#[test]
fn value_renders_its_decimal_text() {
    assert_eq!(value_of(0.0001).to_string(), "0.0001");
    assert_eq!(value_of(-3.5).to_string(), "-3.5");
    let scalar = scalar_of(42.0);
    assert_eq!(scalar.bits(), (42.0f64).to_bits());
    assert_eq!(scalar.text(), "42");
    assert!(scalar_of(-0.0).is_zero());
    assert!(scalar_of(0.0).is_zero());
    assert!(!scalar_of(5e-324).is_zero());
}

#[test]
fn brackets_are_transparent_to_evaluation() {
    let grouped = value_of(2.0).add(value_of(3.0)).bracket(Brackets::Square).mul(value_of(4.0));
    assert_eq!(grouped.to_string(), "[2 + 3] * 4");
    assert_eq!(run(&grouped, &Bindings::new()).unwrap(), 20.0);
}

#[test]
fn variable_accessors_follow_the_name() {
    let v = Variable::new("velocity");
    assert_eq!(v.literal(), "velocity");
    assert!(v.same_name(&Variable::new("velocity")));
    assert!(!v.same_name(&Variable::new("mass")));
}
