use crem::{parse_string, MathError, Rational, Term, TryFromStrError};

fn to_f64(r: &Rational) -> f64 {
    let v = r.numerator as f64 / r.denominator as f64;
    if r.negative {
        -v
    } else {
        v
    }
}

#[test]
fn test_reduction_is_scale_invariant() {
    assert_eq!(Term::div(2, 6).unwrap(), Term::div(1, 3).unwrap());
    assert_eq!(Term::div(4, 10).unwrap(), Term::div(2, 5).unwrap());
    assert_eq!(Term::div(7, 3).unwrap(), Term::div(70, 30).unwrap());
    assert_eq!(Term::div(4, 2).unwrap(), Term::from(2));
    assert_eq!(Term::div(40, 20).unwrap(), Term::from(2));
}

#[test]
fn test_quotient_value() {
    let r = Term::div(1, 2).unwrap().calc().unwrap();
    assert_eq!(to_f64(&r), 0.5);
    let r = Term::div(2, 8).unwrap().calc().unwrap();
    assert!(!r.negative);
    assert_eq!(r.numerator * 8, 2 * r.denominator);
}

#[test]
fn test_exactness() {
    let inaccurate: f64 = 0.1 + 0.2;
    assert_ne!(inaccurate, 0.3);
    let sum = Term::div(1, 10).unwrap().add(Term::div(2, 10).unwrap()).unwrap();
    assert_eq!(to_f64(&sum.calc().unwrap()), to_f64(&Term::div(3, 10).unwrap().calc().unwrap()));
    assert_eq!(to_f64(&sum.calc().unwrap()), 0.3);
    let accurate = Term::process("0.1 + 0.2").unwrap();
    assert_eq!(to_f64(&accurate), 0.3);
}

#[test]
fn test_process_keeps_integers_exact() {
    let precise = Term::process("2 / 3 * 3").unwrap();
    assert_eq!(to_f64(&precise), 2.0);
}

#[test]
fn test_double_negation() {
    assert_eq!(Term::var("x").neg().neg(), Term::var("x"));
    assert_eq!(Term::from(7).neg().neg(), Term::from(7));
    assert_eq!(Term::from(0).neg(), Term::from(0));
    let deep = Term::from(3).add(Term::var("y")).unwrap();
    let copy = Term::from(3).add(Term::var("y")).unwrap();
    assert_eq!(deep.neg().neg(), copy);
}

#[test]
fn test_substitution_then_evaluation() {
    let e = Term::from(7).sub(Term::var("x")).unwrap();
    let v = Term::from(5);
    let one_step = e.use_var("x", &v).unwrap();
    let two_step = e.with_var("x", &v).unwrap().calc().unwrap();
    assert_eq!(one_step, two_step);
    assert_eq!(to_f64(&one_step), 2.0);
    assert_eq!(e.with_var("x", &v).unwrap(), Term::from(2));
}

#[test]
fn test_variables_fold() {
    assert_eq!(
        Term::var("a").add(Term::var("a")).unwrap(),
        Term::from(2).mul(Term::var("a")).unwrap()
    );
    assert_eq!(Term::var("a").sub(Term::var("a")).unwrap(), Term::from(0));
    assert_ne!(
        Term::var("a").add(Term::var("b")).unwrap(),
        Term::from(2).mul(Term::var("a")).unwrap()
    );
}

#[test]
fn test_parse_errors() {
    assert_eq!(parse_string("("), Err(TryFromStrError::UnexpectedEof));
    assert_eq!(parse_string("3 +"), Err(TryFromStrError::UnexpectedEof));
    assert_eq!(parse_string(""), Err(TryFromStrError::UnexpectedEof));
    assert_eq!(
        parse_string("3 & 4"),
        Err(TryFromStrError::UnexpectedCharacter('&'))
    );
    assert_eq!(
        parse_string("1/0"),
        Err(TryFromStrError::Arithmetic(MathError::DivisionByZero))
    );
    assert_eq!(
        parse_string("99999999999"),
        Err(TryFromStrError::Arithmetic(MathError::Overflow))
    );
}

#[test]
fn test_parse_scenarios() {
    assert_eq!(parse_string("3(8-8/2)").unwrap(), Term::from(12));
    assert_eq!(parse_string("1.3 + 3.7").unwrap(), Term::from(5));
    assert_eq!(parse_string("8 / 2").unwrap(), Term::from(4));
    assert_eq!(parse_string("7").unwrap(), Term::from(7));
    assert_eq!(parse_string("  2  *  3  ").unwrap(), Term::from(6));
    assert_eq!(parse_string("((2))").unwrap(), Term::from(2));
}

#[test]
fn test_arithmetic_errors() {
    assert_eq!(Term::div(1, 0), Err(MathError::DivisionByZero));
    assert_eq!(
        Term::from(1).div_by(Term::from(0)),
        Err(MathError::DivisionByZero)
    );
    assert_eq!(
        Term::from(u32::MAX).add(Term::from(1)),
        Err(MathError::Overflow)
    );
    assert_eq!(
        Term::from(u32::MAX).mul(Term::from(2)),
        Err(MathError::Overflow)
    );
    assert_eq!(Term::var("x").calc(), Err(MathError::UnboundVariable));
}

#[test]
fn test_zero_shortcuts() {
    assert_eq!(Term::from(0).mul(Term::var("x")).unwrap(), Term::from(0));
    assert_eq!(Term::from(0).div_by(Term::var("x")).unwrap(), Term::from(0));
    assert_eq!(Term::from(0).add(Term::var("x")).unwrap(), Term::var("x"));
    assert_eq!(Term::var("x").sub(Term::from(0)).unwrap(), Term::var("x"));
}

#[test]
fn test_constant_folding_placement() {
    // A constant folds into the summand that absorbs a number well instead
    // of scattering: 3 + x + 2 keeps a single constant summand.
    let t = Term::from(3)
        .add(Term::var("x"))
        .unwrap()
        .add(Term::from(2))
        .unwrap();
    let direct = Term::from(5).add(Term::var("x")).unwrap();
    let folded = t.with_var("x", &Term::from(1)).unwrap();
    let direct_folded = direct.with_var("x", &Term::from(1)).unwrap();
    assert_eq!(folded, direct_folded);
    assert_eq!(folded, Term::from(6));
}

#[test]
fn test_default_and_clone() {
    assert_eq!(Term::default(), Term::from(0));
    let t = Term::var("v").add(Term::from(4)).unwrap();
    let c = t.clone();
    assert_eq!(t, c);
}

#[test]
fn test_one_is_identity() {
    assert_eq!(Term::from(1).mul(Term::var("x")).unwrap(), Term::var("x"));
    assert_eq!(Term::var("x").mul(Term::from(1)).unwrap(), Term::var("x"));
    assert_eq!(Term::var("x").div_by(Term::from(1)).unwrap(), Term::var("x"));
    assert_eq!(
        Term::div(1, 2).unwrap().mul(Term::from(1)).unwrap(),
        Term::div(1, 2).unwrap()
    );
    // one as a dividend is not absorbing: 1 / x stays a quotient
    assert_ne!(Term::from(1).div_by(Term::var("x")).unwrap(), Term::var("x"));
}

#[test]
fn test_cancelled_products_reduce() {
    // (2x) / (4x): the shared factor cancels and the number pair that is
    // left reduces by the greatest common divisor
    let n = Term::from(2).mul(Term::var("x")).unwrap();
    let d = Term::from(4).mul(Term::var("x")).unwrap();
    assert_eq!(n.div_by(d).unwrap(), Term::div(1, 2).unwrap());
    // (2x) / (2x) collapses to one
    let n2 = Term::from(2).mul(Term::var("x")).unwrap();
    let d2 = Term::from(2).mul(Term::var("x")).unwrap();
    assert_eq!(n2.div_by(d2).unwrap(), Term::from(1));
}
