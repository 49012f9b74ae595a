use computor_v2::data_base::DataBase;
use computor_v2::lexer::Lexer;
use computor_v2::num::Num;
use computor_v2::parser::Parser;
use computor_v2::scalar::{Answer, FloatOp, Query, Scalar};

fn scalar(x: f64) -> Scalar {
    Scalar::from_bits(x.to_bits())
}

fn float(x: Scalar) -> f64 {
    f64::from_bits(x.to_bits())
}

fn unit(q: Query) -> Answer {
    match q {
        Query::Apply(op, a, b) => {
            let x = float(a);
            let y = float(b);
            let r = match op {
                FloatOp::Add => x + y,
                FloatOp::Sub => x - y,
                FloatOp::Mul => x * y,
                FloatOp::Div => x / y,
                FloatOp::Rem => x.rem_euclid(y),
                FloatOp::Pow => x.powf(y),
                FloatOp::Sqrt => x.sqrt(),
                FloatOp::Exp => x.exp(),
                FloatOp::Sin => x.sin(),
                FloatOp::Cos => x.cos(),
                FloatOp::Tan => x.tan(),
            };
            Answer::Value(scalar(r))
        }
        Query::Parse(s) => match s.parse::<f64>() {
            Ok(v) => Answer::Value(scalar(v)),
            Err(_) => Answer::Nothing,
        },
        Query::Display(r) => Answer::Text(format!("{}", float(r))),
        Query::Debug(r) => Answer::Text(format!("{:?}", float(r))),
    }
}
use computor_v2::binary_tree::BinaryTree;
use computor_v2::equation::Equation;
use computor_v2::parser::Element;

fn prepare_tree(code: String, data_base: &DataBase) -> Result<BinaryTree<Element>, String> {
    let mut lexer = Lexer::new(&code);
    let vec = match lexer.make_token_vec() {
        Ok(v) => v,
        Err(e) => return Err(format!("error lexer: {}", e)),
    };
    let mut parser = Parser::new(vec);
    let mut tree = match parser.make_tree(&data_base, &unit) {
        Ok(v) => v,
        Err(e) => return Err(format!("error parser: {}", e)),
    };
    match parser.calculation(&mut tree, &data_base, None, &unit) {
        Ok(_) => {}
        Err(e) => return Err(format!("error calculation: {}", e)),
    }
    Ok(tree)
}

fn make_equation_test(code1: String, code2: String) -> Result<Equation, String> {
    let mut data_base = DataBase::new();
    let name = "a".to_string();
    data_base.register_num(&name, Num::Float(scalar(2.0)))?;
    let name = "b".to_string();
    data_base.register_num(&name, Num::Float(scalar(-2.0)))?;

    let tree1 = prepare_tree(code1, &data_base)?;
    let tree2 = prepare_tree(code2, &data_base)?;

    let mut equation = Equation::new();
    equation.make_equation(&tree1, &tree2, &unit)?;
    Ok(equation)
}

#[test]
fn make_equation_simple() -> Result<(), String> {
    let equation_result = make_equation_test(
        "1 + x + x^2".to_string(),
        "0".to_string(),
    );
    assert_eq!(match equation_result {
        Ok(equation) => match equation.to_string(&unit) {
            Ok(string) => string,
            Err(string) => string,
        },
        Err(string) => string,
    }, format!("1 + x^1 + x^2"));
    Ok(())
}

#[test]
fn make_equation_zero() -> Result<(), String> {
    let equation_result = make_equation_test(
        "0".to_string(),
        "0".to_string(),
    );
    assert_eq!(match equation_result {
        Ok(equation) => match equation.to_string(&unit) {
            Ok(string) => string,
            Err(string) => string,
        },
        Err(string) => string,
    }, format!("0"));
    Ok(())
}

#[test]
fn make_equation_const() -> Result<(), String> {
    let equation_result = make_equation_test(
        "2".to_string(),
        "0".to_string(),
    );
    assert_eq!(match equation_result {
        Ok(equation) => match equation.to_string(&unit) {
            Ok(string) => string,
            Err(string) => string,
        },
        Err(string) => string,
    }, format!("2"));
    Ok(())
}

#[test]
fn make_equation_const_move() -> Result<(), String> {
    let equation_result = make_equation_test(
        "2".to_string(),
        "3".to_string(),
    );
    assert_eq!(match equation_result {
        Ok(equation) => match equation.to_string(&unit) {
            Ok(string) => string,
            Err(string) => string,
        },
        Err(string) => string,
    }, format!("-1"));
    Ok(())
}

#[test]
fn make_equation_pow() -> Result<(), String> {
    let equation_result = make_equation_test(
        "x^2".to_string(),
        "0".to_string(),
    );
    assert_eq!(match equation_result {
        Ok(equation) => match equation.to_string(&unit) {
            Ok(string) => string,
            Err(string) => string,
        },
        Err(string) => string,
    }, format!("x^2"));
    Ok(())
}
