use rusymbols::{ArithmeticalError, Bindings, Expr, Op, Scalar, Variable};

/// Performs one binary operation on two binary64 bit patterns, the way a
/// host with floating-point hardware does it.
fn apply(op: Op, a: u64, b: u64) -> u64 {
    let x = f64::from_bits(a);
    let y = f64::from_bits(b);
    let r = match op {
        Op::Add => x + y,
        Op::Sub => x - y,
        Op::Mul => x * y,
        Op::Div => x / y,
        Op::Pow => x.powf(y),
    };
    r.to_bits()
}

fn num(x: f64) -> Scalar {
    Scalar::new(x.to_bits(), format!("{}", x))
}

fn val(x: f64) -> Expr {
    Expr::value(num(x))
}

fn var(name: &str) -> Expr {
    Expr::variable(Variable::new(name))
}

fn eval(e: &Expr) -> Result<f64, ArithmeticalError> {
    let (r, _) = e.eval(&apply);
    r.map(f64::from_bits)
}

fn eval_vars(e: &Expr, vars: &Bindings) -> Result<f64, ArithmeticalError> {
    let (r, _) = e.eval_vars(vars, &apply);
    r.map(f64::from_bits)
}

#[test]
fn test_to_string() {
    let add = var("x").add(var("y"));
    assert_eq!(add.to_string(), "x + y");
    let div = var("x").div(var("y"));
    assert_eq!(div.to_string(), "x / y");
    let sub = var("x").sub(var("y"));
    assert_eq!(sub.to_string(), "x - y");
    let pow = var("x").pow(var("y"));
    assert_eq!(pow.to_string(), "x ^ y");
    let mul = var("x").mul(var("y"));
    assert_eq!(mul.to_string(), "x * y");
}

#[test]
fn test_eval() {
    let value = val(1.0);
    assert_eq!(eval(&value).unwrap(), 1.0);
    let unbound = var("x");
    assert_eq!(
        eval(&unbound),
        Err(ArithmeticalError::UnknownVariable(Variable::new("x")))
    );
    let add = val(2.0).add(val(2.0));
    assert_eq!(eval(&add).unwrap(), 4.0);
    let mul = val(2.0).mul(val(2.0));
    assert_eq!(eval(&mul).unwrap(), 4.0);
    let sub = val(2.0).sub(val(2.0));
    assert_eq!(eval(&sub).unwrap(), 0.0);
    let div = val(2.0).div(val(2.0));
    assert_eq!(eval(&div).unwrap(), 1.0);
    let div_zero = val(2.0).div(val(0.0));
    assert_eq!(eval(&div_zero), Err(ArithmeticalError::ZeroDivision));
    let pow = val(2.0).pow(val(2.0));
    assert_eq!(eval(&pow).unwrap(), 4.0)
}

#[test]
fn test_eval_vars() {
    let vars = {
        let mut tmp = Bindings::new();
        tmp.insert(Variable::new("x"), num(10.0));
        tmp
    };
    let err_eval = var("y");
    assert_eq!(
        eval_vars(&err_eval, &vars),
        Err(ArithmeticalError::UnknownVariable(Variable::new("y")))
    );
    let bound = var("x");
    assert_eq!(eval_vars(&bound, &vars).unwrap(), 10.0);
    let add = var("x").add(var("x"));
    assert_eq!(eval_vars(&add, &vars).unwrap(), 20.0);
    let add_mul = var("x").add(var("x")).mul(var("x"));
    assert_eq!(eval_vars(&add_mul, &vars).unwrap(), 200.0);
    let mul_add = var("x").mul(var("x")).add(var("x"));
    assert_eq!(eval_vars(&mul_add, &vars).unwrap(), 110.0);
}
