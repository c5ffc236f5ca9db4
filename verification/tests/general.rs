use crem::{parse_string, Rational, Term};

fn to_f64(r: &Rational) -> f64 {
    let v = r.numerator as f64 / r.denominator as f64;
    if r.negative {
        -v
    } else {
        v
    }
}

#[test]
fn test_integers() {
    assert_eq!(Term::from(3), Term::from(3));
    assert_ne!(Term::from(2), Term::from(4));
    assert_eq!(to_f64(&Term::from(3).calc().unwrap()), 3.0);
}

#[test]
fn test_negation() {
    assert_ne!(Term::from(3).neg(), Term::from(3));
    assert_eq!(to_f64(&Term::from(3).neg().calc().unwrap()), -3.0);
    assert_eq!(to_f64(&Term::from(3).neg().calc().unwrap()), -3.0);
}

#[test]
fn test_addition() {
    assert_eq!(Term::from(4).add(Term::from(3)).unwrap(), Term::from(7));
    assert_eq!(Term::from(0).add(Term::from(0)).unwrap(), Term::from(0));
    assert_eq!(
        Term::from(1)
            .add(Term::from(2))
            .unwrap()
            .add(Term::from(3))
            .unwrap()
            .add(Term::from(4))
            .unwrap(),
        Term::from(10)
    );
    assert_eq!(
        to_f64(&Term::from(1).add(Term::from(2)).unwrap().calc().unwrap()),
        3.0
    );
    assert_eq!(
        Term::from(5).add(Term::from(3).neg()).unwrap(),
        Term::from(2)
    );
}

#[test]
fn test_subtraction() {
    assert_eq!(Term::from(7).sub(Term::from(4)).unwrap(), Term::from(3));
    assert_eq!(Term::from(0).sub(Term::from(0)).unwrap(), Term::from(0));
    assert_eq!(
        Term::from(10)
            .sub(Term::from(2))
            .unwrap()
            .sub(Term::from(3))
            .unwrap()
            .sub(Term::from(4))
            .unwrap(),
        Term::from(1)
    );
    assert_eq!(
        Term::from(1)
            .sub(Term::from(2))
            .unwrap()
            .sub(Term::from(3))
            .unwrap()
            .sub(Term::from(4))
            .unwrap(),
        Term::from(8).neg()
    );
    assert_eq!(
        to_f64(&Term::from(5).sub(Term::from(3)).unwrap().calc().unwrap()),
        2.0
    );
    assert_eq!(
        to_f64(&Term::from(3).sub(Term::from(5)).unwrap().calc().unwrap()),
        -2.0
    );
}

#[test]
fn test_division() {
    assert_eq!(Term::div(3, 6).unwrap(), Term::div(1, 2).unwrap());
    assert_eq!(
        to_f64(&Term::div(3, 6).unwrap().calc().unwrap()),
        to_f64(&Term::div(1, 2).unwrap().calc().unwrap())
    );
    assert_eq!(to_f64(&Term::div(3, 10).unwrap().calc().unwrap()), 0.3);
}

#[test]
fn test_multiplication() {
    assert_eq!(Term::from(2).mul(Term::from(3)).unwrap(), Term::from(6));
    assert_eq!(Term::from(1).mul(Term::from(3)).unwrap(), Term::from(3));
    assert_eq!(Term::from(0).mul(Term::from(3)).unwrap(), Term::from(0));
}

#[test]
fn test_assign() {
    {
        let mut a = Term::from(3);
        a = a.add(Term::from(4)).unwrap();
        assert_eq!(a, Term::from(7));
    }
    {
        let mut a = Term::from(3);
        a = a.sub(Term::from(4)).unwrap();
        assert_eq!(a, Term::from(1).neg());
    }
    {
        let mut a = Term::from(3);
        a = a.mul(Term::from(4)).unwrap();
        assert_eq!(a, Term::from(12));
    }
    {
        let mut a = Term::from(8);
        a = a.div_by(Term::from(2)).unwrap();
        assert_eq!(a, Term::from(4));
    }
}

#[test]
fn test_adding_multiplications() {
    assert_eq!(
        (Term::from(3).mul(Term::from(6)).unwrap())
            .add(Term::from(2).mul(Term::from(5)).unwrap())
            .unwrap(),
        Term::from(28)
    );
    assert_eq!(
        (Term::from(5).mul(Term::div(1, 3).unwrap()).unwrap())
            .add(Term::from(5).mul(Term::div(2, 3).unwrap()).unwrap())
            .unwrap(),
        Term::from(5)
    );
    assert_eq!(
        (Term::from(5).mul(Term::div(1, 6).unwrap()).unwrap())
            .add(Term::from(5).mul(Term::div(2, 6).unwrap()).unwrap())
            .unwrap(),
        Term::div(5, 2).unwrap()
    );
}

#[test]
fn test_adding_divisions() {
    assert_eq!(
        Term::div(1, 10).unwrap().add(Term::div(2, 10).unwrap()).unwrap(),
        Term::div(3, 10).unwrap()
    );
    // assert_eq!(0.1 + 0.2, 0.3) would panic
    assert_eq!(
        to_f64(
            &Term::div(1, 10)
                .unwrap()
                .add(Term::div(2, 10).unwrap())
                .unwrap()
                .calc()
                .unwrap()
        ),
        to_f64(&Term::div(3, 10).unwrap().calc().unwrap())
    );
    assert_eq!(
        Term::div(2, 3).unwrap().add(Term::div(1, 6).unwrap()).unwrap(),
        Term::div(5, 6).unwrap()
    );
    assert_eq!(
        Term::div(1, 3).unwrap().add(Term::div(2, 3).unwrap()).unwrap(),
        Term::from(1)
    );
}

#[test]
fn test_multiplying_divisions() {
    assert_eq!(
        Term::div(1, 2).unwrap().mul(Term::div(1, 2).unwrap()).unwrap(),
        Term::div(1, 4).unwrap()
    );
    assert_eq!(
        Term::div(6, 7).unwrap().mul(Term::div(1, 2).unwrap()).unwrap(),
        Term::div(3, 7).unwrap()
    );
}

#[test]
fn test_add_div_num() {
    assert_eq!(
        Term::div(1, 2).unwrap().add(Term::from(3)).unwrap(),
        Term::div(7, 2).unwrap()
    );
    assert_eq!(
        Term::from(5).add(Term::div(1, 2).unwrap()).unwrap(),
        Term::div(11, 2).unwrap()
    );
}

#[test]
fn test_nested_divisions() {
    assert_eq!(
        Term::from(5)
            .div_by(Term::from(1).div_by(Term::from(2)).unwrap())
            .unwrap(),
        Term::from(10)
    );
    assert_eq!(
        Term::from(3)
            .div_by(Term::from(2))
            .unwrap()
            .div_by(Term::from(2))
            .unwrap(),
        Term::from(3).div_by(Term::from(4)).unwrap()
    );
    assert_eq!(
        Term::div(3, 2).unwrap().div_by(Term::div(1, 4).unwrap()).unwrap(),
        Term::from(6)
    );
}

#[test]
fn test_set_variable() {
    {
        let mut a = Term::var("a");
        a.set_var("a", &Term::from(5)).unwrap();
        assert_eq!(a, Term::from(5)); // check if simple variable setting works
    }
    {
        let mut a = Term::var("a");
        a.set_var("b", &Term::from(5)).unwrap();
        assert_ne!(a, Term::from(5)); // check if setting wrong name fails
    }
    {
        let mut term = Term::from(5)
            .add(
                Term::from(3)
                    .mul(
                        Term::from(4)
                            .div_by(Term::from(7).sub(Term::var("x")).unwrap())
                            .unwrap(),
                    )
                    .unwrap(),
            )
            .unwrap();
        term.set_var("x", &Term::from(5)).unwrap();
        assert_eq!(to_f64(&term.calc().unwrap()), 11.0); // check if deep variable setting works
        assert_eq!(term, Term::from(11)); // check if deep variable setting simplifies correctly
    }
}

#[test]
fn test_from_str() {
    assert_eq!(parse_string("5").unwrap(), Term::from(5));
    assert_eq!(parse_string("3 + 4").unwrap(), Term::from(7));
    assert_eq!(
        parse_string("0.1 + 0.2").unwrap(),
        parse_string("3 / 10").unwrap()
    );
    assert_eq!(parse_string("10 + 8 / 2").unwrap(), Term::from(14));
    assert_eq!(parse_string("5+3*3+5").unwrap(), Term::from(19));
    assert_eq!(parse_string("3(4+5)").unwrap(), Term::from(27));
    assert_eq!(parse_string("8*----2").unwrap(), Term::from(16));
    assert_eq!(parse_string("8*-----2").unwrap(), Term::from(16).neg());
}
