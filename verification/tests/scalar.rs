use computor_v2::scalar::{apply, ask, debug, display, parse, Answer, FloatOp, Query, Scalar};

fn scalar(x: f64) -> Scalar {
    Scalar::from_bits(x.to_bits())
}

fn float(x: Scalar) -> f64 {
    f64::from_bits(x.to_bits())
}

fn unit(q: Query) -> Answer {
    match q {
        Query::Apply(op, a, b) => {
            let x = float(a);
            let y = float(b);
            let r = match op {
                FloatOp::Add => x + y,
                FloatOp::Sub => x - y,
                FloatOp::Mul => x * y,
                FloatOp::Div => x / y,
                FloatOp::Rem => x.rem_euclid(y),
                FloatOp::Pow => x.powf(y),
                FloatOp::Sqrt => x.sqrt(),
                FloatOp::Exp => x.exp(),
                FloatOp::Sin => x.sin(),
                FloatOp::Cos => x.cos(),
                FloatOp::Tan => x.tan(),
            };
            Answer::Value(scalar(r))
        }
        Query::Parse(s) => match s.parse::<f64>() {
            Ok(v) => Answer::Value(scalar(v)),
            Err(_) => Answer::Nothing,
        },
        Query::Display(r) => Answer::Text(format!("{}", float(r))),
        Query::Debug(r) => Answer::Text(format!("{:?}", float(r))),
    }
}

fn samples() -> Vec<f64> {
    vec![
        0.0,
        -0.0,
        1.0,
        -1.0,
        2.0,
        4.0,
        0.5,
        -2.5,
        1e300,
        -1e300,
        5e-324,
        -5e-324,
        f64::MAX,
        f64::MIN,
        f64::MIN_POSITIVE,
        f64::INFINITY,
        f64::NEG_INFINITY,
        f64::NAN,
        -f64::NAN,
    ]
}

#[test]
fn scalar_constants_are_the_floats() {
    assert_eq!(float(Scalar::zero_value()).to_bits(), 0.0f64.to_bits());
    assert_eq!(float(Scalar::one()), 1.0);
    assert_eq!(float(Scalar::two()), 2.0);
    assert_eq!(float(Scalar::four()), 4.0);
    assert_eq!(Scalar::from_bits(7).to_bits(), 7);
}

#[test]
fn scalar_predicates_agree_with_floats() {
    for x in samples() {
        let s = scalar(x);
        assert_eq!(s.is_finite(), x.is_finite(), "{}", x);
        assert_eq!(s.is_nan(), x.is_nan(), "{}", x);
        assert_eq!(s.is_sign_negative(), x.is_sign_negative(), "{}", x);
        assert_eq!(s.is_sign_positive(), x.is_sign_positive(), "{}", x);
        assert_eq!(s.is_zero(), x == 0.0, "{}", x);
        assert_eq!(s.is_one(), x == 1.0, "{}", x);
        assert_eq!(s.is_minus_one(), x == -1.0, "{}", x);
        assert_eq!(s.neg().to_bits(), (-x).to_bits(), "{}", x);
        assert_eq!(s.abs().to_bits(), x.abs().to_bits(), "{}", x);
    }
}

#[test]
fn scalar_equality_is_float_equality() {
    for x in samples() {
        for y in samples() {
            assert_eq!(scalar(x) == scalar(y), x == y, "{} {}", x, y);
        }
    }
}

fn expected_count(v: f64) -> Option<u32> {
    let int_v = v as i64;
    let is_int = v - int_v as f64 == 0.0;
    if !is_int || (v.is_sign_negative() && v != 0.0) {
        None
    } else {
        Some(v as u32)
    }
}

#[test]
fn scalar_to_count_is_the_saturating_cast() {
    let mut values = samples();
    values.extend([
        3.0,
        7.0,
        1000.0,
        1.5,
        0.999,
        4294967295.0,
        4294967296.0,
        4294967294.5,
        2147483648.0,
        4503599627370496.0,
        4503599627370497.0,
        9007199254740993.0,
        9223372036854775808.0,
        9223372036854777856.0,
        1e19,
        1048576.0,
        1048576.5,
        -3.0,
    ]);
    for x in values {
        assert_eq!(scalar(x).to_count(), expected_count(x), "{}", x);
    }
    assert_eq!(scalar(3.0).to_count(), Some(3));
    assert_eq!(scalar(-0.0).to_count(), Some(0));
    assert_eq!(scalar(1e10).to_count(), Some(u32::MAX));
    assert_eq!(scalar(2.5).to_count(), None);
}

#[test]
fn unit_is_asked_through_the_helpers() {
    assert_eq!(apply(&unit, FloatOp::Add, scalar(0.1), scalar(0.2)), scalar(0.1 + 0.2));
    assert_eq!(apply(&unit, FloatOp::Rem, scalar(-7.0), scalar(3.0)), scalar(2.0));
    assert_eq!(apply(&unit, FloatOp::Sqrt, scalar(9.0), scalar(0.0)), scalar(3.0));
    assert_eq!(parse(&unit, "12.5"), Some(scalar(12.5)));
    assert_eq!(parse(&unit, "1.2.3"), None);
    assert_eq!(display(&unit, scalar(3.0)), "3");
    assert_eq!(debug(&unit, scalar(3.0)), "3.0");
    match ask(&unit, Query::Display(scalar(0.30000000000000004))) {
        Answer::Text(s) => assert_eq!(s, "0.30000000000000004"),
        _ => panic!(),
    }
}

#[test]
fn wrong_kind_of_answer_counts_as_nothing() {
    let silent = |_q: Query| Answer::Nothing;
    assert!(apply(&silent, FloatOp::Add, scalar(1.0), scalar(2.0)).is_nan());
    assert_eq!(parse(&silent, "1"), None);
    assert_eq!(display(&silent, scalar(1.0)), "");
    assert_eq!(debug(&silent, scalar(1.0)), "");
}
