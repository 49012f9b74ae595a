use computor_v2::data_base::DataBase;
use computor_v2::lexer::Lexer;
use computor_v2::num::Num;
use computor_v2::parser::Parser;
use computor_v2::scalar::{Answer, FloatOp, Query, Scalar};

fn scalar(x: f64) -> Scalar {
    Scalar::from_bits(x.to_bits())
}

fn float(x: Scalar) -> f64 {
    f64::from_bits(x.to_bits())
}

fn unit(q: Query) -> Answer {
    match q {
        Query::Apply(op, a, b) => {
            let x = float(a);
            let y = float(b);
            let r = match op {
                FloatOp::Add => x + y,
                FloatOp::Sub => x - y,
                FloatOp::Mul => x * y,
                FloatOp::Div => x / y,
                FloatOp::Rem => x.rem_euclid(y),
                FloatOp::Pow => x.powf(y),
                FloatOp::Sqrt => x.sqrt(),
                FloatOp::Exp => x.exp(),
                FloatOp::Sin => x.sin(),
                FloatOp::Cos => x.cos(),
                FloatOp::Tan => x.tan(),
            };
            Answer::Value(scalar(r))
        }
        Query::Parse(s) => match s.parse::<f64>() {
            Ok(v) => Answer::Value(scalar(v)),
            Err(_) => Answer::Nothing,
        },
        Query::Display(r) => Answer::Text(format!("{}", float(r))),
        Query::Debug(r) => Answer::Text(format!("{:?}", float(r))),
    }
}
use computor_v2::binary_tree::BinaryTree;
use computor_v2::equation::{Equation, Term};
use computor_v2::parser::Element;

fn term(c: f64, degree: i64) -> Term {
    Term { coefficient: scalar(c), degree }
}

fn equation(terms: &[(f64, i64)], variable: Option<&str>) -> Equation {
    let expr: Vec<Term> = terms.iter().map(|(c, d)| term(*c, *d)).collect();
    let degree = expr.last().unwrap().degree;
    Equation { expr, degree, variable: variable.map(|v| v.to_string()) }
}

fn tree_of(code: &str) -> BinaryTree<Element> {
    let data_base = DataBase::new();
    let code = code.to_string();
    let mut lexer = Lexer::new(&code);
    let mut parser = Parser::new(lexer.make_token_vec().unwrap());
    let mut tree = parser.make_tree(&data_base, &unit).unwrap();
    parser.calculation(&mut tree, &data_base, None, &unit).unwrap();
    tree
}

fn reduce(lhs: &str, rhs: &str) -> Result<String, String> {
    let mut equation = Equation::new();
    equation.make_equation(&tree_of(lhs), &tree_of(rhs), &unit)?;
    equation.to_string(&unit)
}

#[test]
fn terms_from_constructors() {
    assert_eq!(Term::from_degree(3), term(1.0, 3));
    assert_eq!(Term::from_coefficient(scalar(2.5)), term(2.5, 0));
    assert_eq!(Equation::new(), equation(&[(0.0, 0)], None));
}

#[test]
fn solution_by_degree() {
    assert_eq!(
        equation(&[(0.0, 0)], None).solution(&unit),
        Ok("The solution is an arbitrary real number.".to_string())
    );
    assert_eq!(equation(&[(3.0, 0)], None).solution(&unit), Ok("There is no solution.".to_string()));
    assert_eq!(
        equation(&[(-6.0, 0), (4.0, 1)], Some("x")).solution(&unit),
        Ok("Solution:\n1.5".to_string())
    );
    assert_eq!(
        equation(&[(3.0, 1)], Some("x")).solution(&unit),
        Ok("Solution:\n0".to_string())
    );
    assert_eq!(
        equation(&[(1.0, 0), (-2.0, 1), (1.0, 2)], Some("x")).solution(&unit),
        Ok("Only one solution on R:\n1".to_string())
    );
    assert_eq!(
        equation(&[(-3.0, 0), (2.0, 1), (1.0, 2)], Some("x")).solution(&unit),
        Ok("Two solutions on R:\n1\n-3".to_string())
    );
    assert_eq!(
        equation(&[(-9.0, 0), (1.0, 2)], Some("x")).solution(&unit),
        Ok("Two solutions on R:\n3\n-3".to_string())
    );
    assert_eq!(
        equation(&[(13.0, 0), (-4.0, 1), (1.0, 2)], Some("x")).solution(&unit),
        Ok("Two solutions on C:\n2 ± 3i".to_string())
    );
    assert_eq!(
        equation(&[(5.0, 0), (-4.0, 1), (1.0, 2)], Some("x")).solution(&unit),
        Ok("Two solutions on C:\n2 ± i".to_string())
    );
    assert_eq!(
        equation(&[(9.0, 0), (1.0, 2)], Some("x")).solution(&unit),
        Ok("Two solutions on C:\n± 3i".to_string())
    );
    assert_eq!(
        equation(&[(1.0, 0), (1.0, 2)], Some("x")).solution(&unit),
        Ok("Two solutions on C:\n± i".to_string())
    );
    assert_eq!(
        equation(&[(1.0, 3)], Some("x")).solution(&unit),
        Ok("The polynomial degree is strictly greater than 2, I can't solve.".to_string())
    );
    assert_eq!(
        equation(&[(1.0, -1), (1.0, 1)], Some("x")).solution(&unit),
        Ok("Negative integer powers are not supported.".to_string())
    );
}

#[test]
fn solution_reports_what_is_not_finite() {
    assert_eq!(
        equation(&[(1e308, 0), (1e-308, 1)], Some("x")).solution(&unit),
        Err("The calculation resulted in '-inf'.".to_string())
    );
    assert_eq!(
        equation(&[(1.0, 0), (1e200, 1), (1.0, 2)], Some("x")).solution(&unit),
        Err("The calculation resulted in 'inf'.".to_string())
    );
    assert_eq!(
        equation(&[(1.0, 0), (1.0, 1), (5e-324, 2)], Some("x")).solution(&unit),
        Err("The calculation resulted in '-inf'.".to_string())
    );
    assert_eq!(
        equation(&[(1.0, 0), (0.0, 1), (0.0, 2)], Some("x")).solution(&unit),
        Err("The calculation resulted in 'NaN'.".to_string())
    );
}

#[test]
fn terms_without_gaps() {
    let terms = vec![term(5.0, 0), term(7.0, 2)];
    assert_eq!(
        Equation::make_terms_no_gaps(&terms, 2),
        vec![term(5.0, 0), term(0.0, 1), term(7.0, 2)]
    );
    let terms = vec![term(7.0, 1)];
    assert_eq!(Equation::make_terms_no_gaps(&terms, 1), vec![term(0.0, 0), term(7.0, 1)]);
}

#[test]
fn like_terms_are_combined_in_order_of_degree() {
    let terms = vec![term(1.0, 2), term(2.0, 0), term(3.0, 2), term(-2.0, 0), term(4.0, 1)];
    assert_eq!(Equation::sort_expr(&terms, &unit), Ok(vec![term(4.0, 1), term(4.0, 2)]));
    assert_eq!(Equation::sort_expr(&Vec::new(), &unit), Ok(Vec::new()));
    let terms = vec![term(1e308, 1), term(1e308, 1)];
    assert_eq!(
        Equation::sort_expr(&terms, &unit),
        Err("The calculation resulted in 'inf'.".to_string())
    );
    assert!(Equation::is_int_value(scalar(3.0)));
    assert!(Equation::is_int_value(scalar(-3.0)));
    assert!(!Equation::is_int_value(scalar(0.5)));
    assert!(!Equation::is_int_value(scalar(f64::NAN)));
    assert!(!Equation::is_int_value(scalar(1e300)));
}

#[test]
fn equations_are_reduced() {
    assert_eq!(reduce("x^2 + 2*x + 1", "0"), Ok("1 + 2 * x^1 + x^2".to_string()));
    assert_eq!(reduce("x * x", "4"), Ok("-4 + x^2".to_string()));
    assert_eq!(reduce("(x + 1) * (x + 2)", "0"), Ok("2 + 3 * x^1 + x^2".to_string()));
    assert_eq!(reduce("(x + 1) ^ 3", "0"), Ok("1 + 3 * x^1 + 3 * x^2 + x^3".to_string()));
    assert_eq!(reduce("x ^ 0", "0"), Ok("1".to_string()));
    assert_eq!(reduce("x / 4", "x"), Ok("-0.75 * x^1".to_string()));
    assert_eq!(reduce("x", "x"), Ok("0".to_string()));
    assert_eq!(reduce("3 * y", "2"), Ok("-2 + 3 * y^1".to_string()));
    assert_eq!(reduce("0 * x", "2"), Ok("-2".to_string()));
}

#[test]
fn equations_that_cannot_be_reduced() {
    assert_eq!(reduce("x * y", "0"), Err("x, y: two variable error.".to_string()));
    assert_eq!(reduce("x", "y"), Err("x, y: two variable error.".to_string()));
    assert_eq!(reduce("1 / x", "0"), Err("error: cannot be divided by variable".to_string()));
    assert_eq!(reduce("1 % x", "0"), Err("error: cannot be divided by variable".to_string()));
    assert_eq!(
        reduce("x % 2", "0"),
        Err("error: variable remainders cannot be calculated".to_string())
    );
    let exponent =
        "error: only integers greater than or equal to 0 are allowed for exponents".to_string();
    assert_eq!(reduce("x ^ 0.5", "0"), Err(exponent.clone()));
    assert_eq!(reduce("x ^ x", "0"), Err(exponent.clone()));
    assert_eq!(reduce("x ^ (0 - 1)", "0"), Err(exponent));
    assert_eq!(reduce("(x + 1) ^ 1000", "0"), Err("too many terms error".to_string()));
    assert_eq!(reduce("x ** x", "0"), Err("Unsupported matrix product error.".to_string()));
    assert_eq!(reduce("x * i", "0"), Err("i: syntax error: Not a real number.".to_string()));
    assert_eq!(reduce("x * exp(x)", "0"), Err("syntax error".to_string()));
    assert_eq!(
        reduce("x ^ 1000 ^ 1000 ^ 1000 ^ 1000 ^ 1000 ^ 1000 ^ 10", "0"),
        Err("overflow error".to_string())
    );
    assert_eq!(reduce("x / 0", "0"), Err("The calculation resulted in 'inf'.".to_string()));
}

#[test]
fn equation_text_needs_the_variable() {
    assert_eq!(equation(&[(2.0, 0)], None).to_string(&unit), Ok("2".to_string()));
    assert_eq!(
        equation(&[(2.0, 1)], None).to_string(&unit),
        Err("error: get variable string".to_string())
    );
    assert_eq!(
        equation(&[(-1.0, 0), (-1.0, 1), (-2.5, 2)], Some("t")).to_string(&unit),
        Ok("-1 - t^1 - 2.5 * t^2".to_string())
    );
    assert_eq!(
        equation(&[(2.0, 1)], None).get_variable_string(),
        Err("error: get variable string".to_string())
    );
}
