use computor_v2::data_base::DataBase;
use computor_v2::lexer::Lexer;
use computor_v2::num::Num;
use computor_v2::parser::Parser;
use computor_v2::scalar::{Answer, FloatOp, Query, Scalar};

fn scalar(x: f64) -> Scalar {
    Scalar::from_bits(x.to_bits())
}

fn float(x: Scalar) -> f64 {
    f64::from_bits(x.to_bits())
}

fn unit(q: Query) -> Answer {
    match q {
        Query::Apply(op, a, b) => {
            let x = float(a);
            let y = float(b);
            let r = match op {
                FloatOp::Add => x + y,
                FloatOp::Sub => x - y,
                FloatOp::Mul => x * y,
                FloatOp::Div => x / y,
                FloatOp::Rem => x.rem_euclid(y),
                FloatOp::Pow => x.powf(y),
                FloatOp::Sqrt => x.sqrt(),
                FloatOp::Exp => x.exp(),
                FloatOp::Sin => x.sin(),
                FloatOp::Cos => x.cos(),
                FloatOp::Tan => x.tan(),
            };
            Answer::Value(scalar(r))
        }
        Query::Parse(s) => match s.parse::<f64>() {
            Ok(v) => Answer::Value(scalar(v)),
            Err(_) => Answer::Nothing,
        },
        Query::Display(r) => Answer::Text(format!("{}", float(r))),
        Query::Debug(r) => Answer::Text(format!("{:?}", float(r))),
    }
}

fn grid(rows: Vec<Vec<f64>>) -> Vec<Vec<Scalar>> {
    rows.into_iter().map(|row| row.into_iter().map(scalar).collect()).collect()
}

fn from_floats(rows: Vec<Vec<f64>>) -> Result<Num, String> {
    Num::from_vec(grid(rows))
}

fn store() -> DataBase {
    let mut data_base = DataBase::new();
    let name = "x".to_string();
    data_base.register_num(&name, Num::Float(scalar(2.0))).unwrap();
    let name = "y".to_string();
    data_base.register_num(&name, Num::Float(scalar(-2.0))).unwrap();
    let name = "z".to_string();
    data_base
        .register_num(&name, Num::from_two_float_to_complex(scalar(-1.0), scalar(-3.0)))
        .unwrap();
    data_base
}

fn calculation_test(code: String) -> Result<Num, String> {
    let mut lexer = Lexer::new(&code);
    let vec = match lexer.make_token_vec() {
        Ok(v) => v,
        Err(e) => return Err(format!("error lexer: {}", e)),
    };
    let data_base = store();
    let mut parser = Parser::new(vec);
    let mut tree = match parser.make_tree(&data_base, &unit) {
        Ok(v) => v,
        Err(e) => return Err(format!("error parser: {}", e)),
    };
    match parser.calculation(&mut tree, &data_base, None, &unit) {
        Ok(v) => match v {
            Some(v) => Ok(v),
            None => Err(format!("error calculation")),
        },
        Err(e) => Err(format!("error calculation: {}", e)),
    }
}

fn parse_and_print_test(code: String) -> String {
    let mut lexer = Lexer::new(&code);
    let vec = match lexer.make_token_vec() {
        Ok(v) => v,
        Err(e) => return format!("error lexer: {}", e),
    };
    let data_base = DataBase::new();
    let mut parser = Parser::new(vec);
    match parser.make_tree(&data_base, &unit) {
        Ok(v) => {
            let tree = v;
            match Parser::print_tree(&tree, &unit) {
                Ok(s) => s,
                Err(e) => format!("error print_tree: {}", e),
            }
        }
        Err(e) => format!("error parser: {}", e),
    }
}

fn calculation_and_print_test(code: String) -> String {
    let mut lexer = Lexer::new(&code);
    let vec = match lexer.make_token_vec() {
        Ok(v) => v,
        Err(e) => return format!("error lexer: {}", e),
    };
    let data_base = store();
    let mut parser = Parser::new(vec);
    let mut tree = match parser.make_tree(&data_base, &unit) {
        Ok(v) => v,
        Err(e) => return format!("error parser: {}", e),
    };
    match parser.calculation(&mut tree, &data_base, None, &unit) {
        Ok(_) => match Parser::print_tree(&tree, &unit) {
            Ok(s) => s,
            Err(e) => format!("error print_tree: {}", e),
        },
        Err(e) => format!("error calculation: {}", e),
    }
}

fn check_variable_in_tree_test(code: String) -> String {
    let mut lexer = Lexer::new(&code);
    let vec = match lexer.make_token_vec() {
        Ok(v) => v,
        Err(e) => return format!("error lexer: {}", e),
    };
    let data_base = store();
    let mut parser = Parser::new(vec);
    let mut tree = match parser.make_tree(&data_base, &unit) {
        Ok(v) => v,
        Err(e) => return format!("error parser: {}", e),
    };
    match parser.calculation(&mut tree, &data_base, None, &unit) {
        Ok(_) => match Parser::check_variable_in_tree(&tree) {
            Ok(s) => match s {
                Some(v) => v,
                None => format!("None"),
            },
            Err(e) => format!("error check_variable: {}", e),
        },
        Err(e) => format!("error calculation: {}", e),
    }
}

fn define(
    function: String,
    function_name: String,
    variable: String,
) -> Result<DataBase, String> {
    let mut data_base = store();
    let mut lexer = Lexer::new(&function);
    let vec = lexer.make_token_vec()?;
    let mut parser = Parser::new(vec);
    let mut tree = parser.make_tree(&data_base, &unit)?;
    parser.calculation(&mut tree, &data_base, Some((&variable, None)), &unit)?;
    match Parser::check_variable_in_tree(&tree)? {
        Some(var) => {
            if var != *variable {
                return Err(format!("{}, {}: error two variable", var, variable));
            }
        }
        None => {}
    }
    data_base.register_func(&function_name, tree, variable.clone())?;
    Ok(data_base)
}

fn function_calculation_test(
    function: String,
    function_name: String,
    variable: String,
    code: String,
) -> Result<Num, String> {
    let mut lexer = Lexer::new(&code);
    let vec = match lexer.make_token_vec() {
        Ok(v) => v,
        Err(e) => return Err(format!("error lexer: {}", e)),
    };
    let data_base = define(function, function_name, variable)?;
    let mut parser = Parser::new(vec);
    let mut tree = match parser.make_tree(&data_base, &unit) {
        Ok(v) => v,
        Err(e) => return Err(format!("error parser: {}", e)),
    };
    match parser.calculation(&mut tree, &data_base, None, &unit) {
        Ok(v) => match v {
            Some(v) => Ok(v),
            None => Err(format!("error calculation")),
        },
        Err(e) => Err(format!("error calculation: {}", e)),
    }
}

fn function_calculation_tree_test(
    function: String,
    function_name: String,
    variable: String,
    code: String,
) -> Result<String, String> {
    let mut lexer = Lexer::new(&code);
    let vec = match lexer.make_token_vec() {
        Ok(v) => v,
        Err(e) => return Err(format!("error lexer: {}", e)),
    };
    let data_base = define(function, function_name, variable)?;
    let mut parser = Parser::new(vec);
    let mut tree = match parser.make_tree(&data_base, &unit) {
        Ok(v) => v,
        Err(e) => return Err(format!("error parser: {}", e)),
    };
    match parser.calculation(&mut tree, &data_base, None, &unit) {
        Ok(_) => {}
        Err(e) => return Err(format!("error calculation: {}", e)),
    }
    match Parser::print_tree(&tree, &unit) {
        Ok(s) => Ok(s),
        Err(e) => Err(format!("error print_tree: {}", e)),
    }
}

#[test]
fn calculation_simple_float_add() {
    let code = "1 + 2".to_string();
    assert_eq!(calculation_test(code), Ok(Num::Float(scalar(3.0))))
}

#[test]
fn calculation_simple_float_mul() {
    let code = "2 * 3".to_string();
    assert_eq!(calculation_test(code), Ok(Num::Float(scalar(6.0))))
}

#[test]
fn calculation_simple_float_sub() {
    let code = "2 - 3".to_string();
    assert_eq!(calculation_test(code), Ok(Num::Float(scalar(-1.0))))
}

#[test]
fn calculation_simple_float_div() {
    let code = "3 / 2".to_string();
    assert_eq!(calculation_test(code), Ok(Num::Float(scalar(1.5))))
}

#[test]
fn calculation_simple_float_rem() {
    let code = "4 % 3".to_string();
    assert_eq!(calculation_test(code), Ok(Num::Float(scalar(1.0))))
}

#[test]
fn calculation_simple_float_pow() {
    let code = "4^2".to_string();
    assert_eq!(calculation_test(code), Ok(Num::Float(scalar(16.0))))
}

#[test]
fn calculation_simple_float_add_sub() {
    let code = "1 + 2 - 4".to_string();
    assert_eq!(calculation_test(code), Ok(Num::Float(scalar(-1.0))))
}

#[test]
fn calculation_simple_float_add_mul() {
    let code = "1 + 2 * 4".to_string();
    assert_eq!(calculation_test(code), Ok(Num::Float(scalar(9.0))))
}

#[test]
fn calculation_simple_float_add_div() {
    let code = "1 + 2 / 4".to_string();
    assert_eq!(calculation_test(code), Ok(Num::Float(scalar(1.5))))
}

#[test]
fn calculation_simple_float_add_add() {
    let code = "1 + 2 + 4".to_string();
    assert_eq!(calculation_test(code), Ok(Num::Float(scalar(7.0))))
}

#[test]
fn calculation_simple_float_add_rem() {
    let code = "1 + 5 % 3".to_string();
    assert_eq!(calculation_test(code), Ok(Num::Float(scalar(3.0))))
}

#[test]
fn calculation_simple_float_add_pow() {
    let code = "1 + 2 ^ 4".to_string();
    assert_eq!(calculation_test(code), Ok(Num::Float(scalar(17.0))))
}

#[test]
fn calculation_simple_float_sub_add() {
    let code = "1 - 2 + 4".to_string();
    assert_eq!(calculation_test(code), Ok(Num::Float(scalar(3.0))))
}

#[test]
fn calculation_simple_float_sub_sub() {
    let code = "1 - 2 - 4".to_string();
    assert_eq!(calculation_test(code), Ok(Num::Float(scalar(-5.0))))
}

#[test]
fn calculation_simple_float_sub_mul() {
    let code = "1 - 2 * 4".to_string();
    assert_eq!(calculation_test(code), Ok(Num::Float(scalar(-7.0))))
}

#[test]
fn calculation_simple_float_sub_div() {
    let code = "1 - 2 / 4".to_string();
    assert_eq!(calculation_test(code), Ok(Num::Float(scalar(0.5))))
}

#[test]
fn calculation_simple_float_sub_rem() {
    let code = "1 - 5 % 3".to_string();
    assert_eq!(calculation_test(code), Ok(Num::Float(scalar(-1.0))))
}

#[test]
fn calculation_simple_float_sub_pow() {
    let code = "1 - 2 ^ 3".to_string();
    assert_eq!(calculation_test(code), Ok(Num::Float(scalar(-7.0))))
}

#[test]
fn calculation_simple_float_mul_add() {
    let code = "2 * 3 + 4".to_string();
    assert_eq!(calculation_test(code), Ok(Num::Float(scalar(10.0))))
}

#[test]
fn calculation_simple_float_mul_sub() {
    let code = "2 * 3 - 4".to_string();
    assert_eq!(calculation_test(code), Ok(Num::Float(scalar(2.0))))
}

#[test]
fn calculation_simple_float_mul_mul() {
    let code = "2 * 3 * 4".to_string();
    assert_eq!(calculation_test(code), Ok(Num::Float(scalar(24.0))))
}

#[test]
fn calculation_simple_float_mul_div() {
    let code = "2 * 3 / 4".to_string();
    assert_eq!(calculation_test(code), Ok(Num::Float(scalar(1.5))))
}

#[test]
fn calculation_simple_float_mul_rem() {
    let code = "2 * 5 % 3".to_string();
    assert_eq!(calculation_test(code), Ok(Num::Float(scalar(1.0))))
}

#[test]
fn calculation_simple_float_mul_pow() {
    let code = "3 * 2 ^ 3".to_string();
    assert_eq!(calculation_test(code), Ok(Num::Float(scalar(24.0))))
}

#[test]
fn calculation_simple_float_div_add() {
    let code = "4 / 2 + 3".to_string();
    assert_eq!(calculation_test(code), Ok(Num::Float(scalar(5.0))))
}

#[test]
fn calculation_simple_float_div_sub() {
    let code = "4 / 2 - 3".to_string();
    assert_eq!(calculation_test(code), Ok(Num::Float(scalar(-1.0))))
}

#[test]
fn calculation_simple_float_div_mul() {
    let code = "4 / 2 * 3".to_string();
    assert_eq!(calculation_test(code), Ok(Num::Float(scalar(6.0))))
}

#[test]
fn calculation_simple_float_div_div() {
    let code = "4 / 2 / 4".to_string();
    assert_eq!(calculation_test(code), Ok(Num::Float(scalar(0.5))))
}

#[test]
fn calculation_simple_float_div_rem() {
    let code = "8 / 2 % 3".to_string();
    assert_eq!(calculation_test(code), Ok(Num::Float(scalar(1.0))))
}

#[test]
fn calculation_simple_float_div_pow() {
    let code = "8 / 2 ^ 3".to_string();
    assert_eq!(calculation_test(code), Ok(Num::Float(scalar(1.0))))
}

#[test]
fn calculation_simple_float_rem_add() {
    let code = "5 % 3 + 3".to_string();
    assert_eq!(calculation_test(code), Ok(Num::Float(scalar(5.0))))
}

#[test]
fn calculation_simple_float_rem_sub() {
    let code = "5 % 3 - 3".to_string();
    assert_eq!(calculation_test(code), Ok(Num::Float(scalar(-1.0))))
}

#[test]
fn calculation_simple_float_rem_mul() {
    let code = "5 % 3 * 3".to_string();
    assert_eq!(calculation_test(code), Ok(Num::Float(scalar(6.0))))
}

#[test]
fn calculation_simple_float_rem_div() {
    let code = "5 % 3 / 4".to_string();
    assert_eq!(calculation_test(code), Ok(Num::Float(scalar(0.5))))
}

#[test]
fn calculation_simple_float_rem_rem() {
    let code = "5 % 3 % 2".to_string();
    assert_eq!(calculation_test(code), Ok(Num::Float(scalar(0.0))))
}

#[test]
fn calculation_simple_float_rem_pow() {
    let code = "10 % 3 ^ 2".to_string();
    assert_eq!(calculation_test(code), Ok(Num::Float(scalar(1.0))))
}

#[test]
fn calculation_simple_float_pow_add() {
    let code = "2 ^ 3 + 3".to_string();
    assert_eq!(calculation_test(code), Ok(Num::Float(scalar(11.0))))
}

#[test]
fn calculation_simple_float_pow_sub() {
    let code = "2 ^ 3 - 3".to_string();
    assert_eq!(calculation_test(code), Ok(Num::Float(scalar(5.0))))
}

#[test]
fn calculation_simple_float_pow_mul() {
    let code = "2 ^ 3 * 3".to_string();
    assert_eq!(calculation_test(code), Ok(Num::Float(scalar(24.0))))
}

#[test]
fn calculation_simple_float_pow_div() {
    let code = "2 ^ 3 / 2".to_string();
    assert_eq!(calculation_test(code), Ok(Num::Float(scalar(4.0))))
}

#[test]
fn calculation_simple_float_pow_rem() {
    let code = "2 ^ 3 % 3".to_string();
    assert_eq!(calculation_test(code), Ok(Num::Float(scalar(2.0))))
}

#[test]
fn calculation_simple_float_pow_pow() {
    let code = "2 ^ 3 ^ 3".to_string();
    assert_eq!(calculation_test(code), Ok(Num::Float(scalar(512.0))))
}

#[test]
fn calculation_multi_priority() {
    let code = "1 + 2^3 * 2".to_string();
    assert_eq!(calculation_test(code), Ok(Num::Float(scalar(17.0))))
}

#[test]
fn calculation_double_priority() {
    let code = "1 - 2 * 2 * 2 + 5".to_string();
    assert_eq!(calculation_test(code), Ok(Num::Float(scalar(-2.0))))
}

#[test]
fn calculation_long() {
    let code = "1 + 2 * 3 - 8 / 2 % 3 + 2 ^ 3 * 2".to_string();
    assert_eq!(calculation_test(code), Ok(Num::Float(scalar(22.0))))
}

#[test]
fn calculation_complex_long() {
    let code = "i + 2 * 3 - 8 / 2i % 3 + 2 ^ 3 * i * 2".to_string();
    assert_eq!(calculation_test(code), Ok(Num::from_two_float(scalar(6.0), scalar(16.0))))
}

#[test]
fn calculation_matrix_long() -> Result<(), String> {
    let code = "[[1,2]] [[2,1]] ** [[3, 3, 3];[3, 3, 3]]".to_string();
    let num = from_floats(vec![vec![12.0; 3]])?;
    assert_eq!(calculation_test(code), Ok(num));
    Ok(())
}

#[test]
fn calculation_error_matrix_plus() -> Result<(), String> {
    let code = "2 + [[3, 3, 3];[3, 3, 3]]".to_string();
    assert_eq!(calculation_test(code), Err(format!("error calculation: Unsupported operator 2 + [[3,3,3];[3,3,3]]")));
    Ok(())
}

#[test]
fn calculation_error_matrix_size() -> Result<(), String> {
    let code = "[[3, 3];[3, 3]] + [[3, 3, 3];[3, 3, 3]]".to_string();
    assert_eq!(calculation_test(code), Err(format!("error calculation: Unsupported different sizes operator [[3,3];[3,3]] + [[3,3,3];[3,3,3]]")));
    Ok(())
}

#[test]
fn calculation_error_complex_rem() {
    let code = "3 % i".to_string();
    assert_eq!(calculation_test(code), Err("error calculation: Unsupported operator (3) % (i)".to_string()))
}

#[test]
fn calculation_error_double_op() {
    let code = "1 + + 2".to_string();
    assert_eq!(calculation_test(code), Err("error parser: syntax error".to_string()))
}

#[test]
fn calculation_error_double_num() {
    let code = "2 3".to_string();
    assert_eq!(calculation_test(code), Ok(Num::Float(scalar(6.0))))
}

#[test]
fn calculation_error_double_op_double_num() {
    let code = "1 + + 2 3".to_string();
    assert_eq!(calculation_test(code), Err("error parser: syntax error".to_string()))
}

#[test]
fn calculation_paren_single() {
    let code = "(1+1)".to_string();
    assert_eq!(calculation_test(code), Ok(Num::Float(scalar(2.0))))
}

#[test]
fn calculation_paren_solo() {
    let code = "(1)".to_string();
    assert_eq!(calculation_test(code), Ok(Num::Float(scalar(1.0))))
}

#[test]
fn calculation_paren_priority_plus() {
    let code = "1 - (2 + 1)".to_string();
    assert_eq!(calculation_test(code), Ok(Num::Float(scalar(-2.0))))
}

#[test]
fn calculation_paren_priority_mul() {
    let code = "1 - 2 * (2 + 1)".to_string();
    assert_eq!(calculation_test(code), Ok(Num::Float(scalar(-5.0))))
}

#[test]
fn calculation_paren_priority_pow() {
    let code = "1 - 2 ^ (2 + 1) * 3".to_string();
    assert_eq!(calculation_test(code), Ok(Num::Float(scalar(-23.0))))
}

#[test]
fn calculation_paren_first() {
    let code = "(1 + 1) * 3".to_string();
    assert_eq!(calculation_test(code), Ok(Num::Float(scalar(6.0))))
}

#[test]
fn calculation_paren_repeat() {
    let code = "(1 - (2 * 3)) * 3".to_string();
    assert_eq!(calculation_test(code), Ok(Num::Float(scalar(-15.0))))
}

#[test]
fn calculation_paren_left_no_mul() {
    let code = "2 + 3 (3 - 1) + 5".to_string();
    assert_eq!(calculation_test(code), Ok(Num::Float(scalar(13.0))))
}

#[test]
fn calculation_paren_left_no_mul_pow() {
    let code = "2 + 2 ^ 3 (3 - 1) + 5".to_string();
    assert_eq!(calculation_test(code), Ok(Num::Float(scalar(23.0))))
}

#[test]
fn calculation_paren_left_no_mul_after_pow() {
    let code = "2 + 3 (3 - 1) ^ 2 + 5".to_string();
    assert_eq!(calculation_test(code), Ok(Num::Float(scalar(19.0))))
}

#[test]
fn calculation_paren_right_no_mul() {
    let code = "2 + (3 - 1)3 + 5".to_string();
    assert_eq!(calculation_test(code), Ok(Num::Float(scalar(13.0))))
}

#[test]
fn calculation_paren_right_no_mul_pow() {
    let code = "2 + (3 - 1) 2 ^ 3 + 5".to_string();
    assert_eq!(calculation_test(code), Ok(Num::Float(scalar(23.0))))
}


#[test]
fn calculation_paren_priority_long() {
    let code = "1 - 2 ^ (2 + 1) * 3 + 2 * 3".to_string();
    assert_eq!(calculation_test(code), Ok(Num::Float(scalar(-17.0))))
}

#[test]
fn calculation_paren_complex_long() {
    let code = "1 - 2 ^ (2 + 1) * i + i * 3".to_string();
    assert_eq!(calculation_test(code), Ok(Num::from_two_float(scalar(1.0), scalar(-5.0))))
}

#[test]
fn calculation_error_paren_only() {
    let code = "1 + ()".to_string();
    assert_eq!(calculation_test(code), Err("error parser: (): syntax error".to_string()))
}

#[test]
fn calculation_error_l_paren_only() {
    let code = "1 + ( 3 + 4".to_string();
    assert_eq!(calculation_test(code), Err("error parser: (: syntax error".to_string()))
}

#[test]
fn calculation_error_r_paren_only() {
    let code = "1 + ) 3 + 4".to_string();
    assert_eq!(calculation_test(code), Err("error parser: syntax error".to_string()))
}

#[test]
fn calculation_float_unary_plus() {
    let code = "+ 2 * 3 + 4".to_string();
    assert_eq!(calculation_test(code), Ok(Num::Float(scalar(10.0))))
}

#[test]
fn calculation_float_unary_minus() {
    let code = "- 2 * 3 + 4".to_string();
    assert_eq!(calculation_test(code), Ok(Num::Float(scalar(-2.0))))
}

#[test]
fn calculation_float_unary_paren() {
    let code = "+ 2 * 3 * ( -2 + 1 ) + 1".to_string();
    assert_eq!(calculation_test(code), Ok(Num::Float(scalar(-5.0))))
}

#[test]
fn calculation_error_float_unary_mul() {
    let code = "* 2 * 3 * ( -2 + 1 ) + 1".to_string();
    assert_eq!(calculation_test(code), Err("error parser: Unsupported unary operators: syntax error".to_string()))
}

#[test]
fn calculation_variable_normal() {
    let code = "x + 1".to_string();
    assert_eq!(calculation_test(code), Ok(Num::Float(scalar(3.0))))
}

#[test]
fn calculation_variable_upper() {
    let code = "X + 1".to_string();
    assert_eq!(calculation_test(code), Ok(Num::Float(scalar(3.0))))
}

#[test]
fn calculation_double_variable() {
    let code = "x + y + 1".to_string();
    assert_eq!(calculation_test(code), Ok(Num::Float(scalar(1.0))))
}

#[test]
fn calculation_variable_chain() {
    let code = "2x y 3 + 1".to_string();
    assert_eq!(calculation_test(code), Ok(Num::Float(scalar(-23.0))))
}

#[test]
fn calculation_variable_paren() {
    let code = "2 x y (1 - 2) + 1".to_string();
    assert_eq!(calculation_test(code), Ok(Num::Float(scalar(9.0))))
}

#[test]
fn calculation_variable_in_paren() {
    let code = "2 (x)".to_string();
    assert_eq!(calculation_test(code), Ok(Num::Float(scalar(4.0))))
}

#[test]
fn calculation_variable_last() {
    let code = "2 + x".to_string();
    assert_eq!(calculation_test(code), Ok(Num::Float(scalar(4.0))))
}

#[test]
fn calculation_error_variable_not_found() {
    let code = "2a + 1".to_string();
    assert_eq!(calculation_test(code), Err("error calculation".to_string()))
}

#[test]
fn print_tree_normal() {
    let code = "2x + 1".to_string();
    assert_eq!(parse_and_print_test(code), format!("2 * x + 1"))
}

#[test]
fn print_tree_long() {
    let code = "- 1 + 2 (x + y) ^ 2 * 3 - 2x".to_string();
    assert_eq!(parse_and_print_test(code), format!("- 1 + 2 * ( x + y ) ^ 2 * 3 - 2 * x"))
}

#[test]
fn print_tree_complex_long() {
    let code = "- 1 + 2i (x + y) ^ 2 * 3 - 2i x + 3x".to_string();
    assert_eq!(parse_and_print_test(code), format!("- 1 + 2 * i * ( x + y ) ^ 2 * 3 - 2 * i * x + 3 * x"))
}

#[test]
fn calculation_and_print_num() {
    let code = "- 1 + 2 (x + y) ^ 2 * 3 - 2x".to_string();
    assert_eq!(calculation_and_print_test(code), format!("-5"))
}

#[test]
fn calculation_and_print_ab() {
    let code = "- 1 + 2 (a + b) ^ 2 * 3 - 2a".to_string();
    assert_eq!(calculation_and_print_test(code), format!("-1 + 2 * ( a + b ) ^ 2 * 3 - 2 * a"))
}

#[test]
fn calculation_and_print_minus_minus() {
    let code = "a - y".to_string();
    assert_eq!(calculation_and_print_test(code), format!("a + 2"))
}

#[test]
fn calculation_and_print_minus_complex() {
    let code = "a - z".to_string();
    assert_eq!(calculation_and_print_test(code), format!("a + 1 + 3i"))
}

#[test]
fn calculation_and_print_plus_minus() {
    let code = "a + y".to_string();
    assert_eq!(calculation_and_print_test(code), format!("a - 2"))
}

#[test]
fn calculation_and_print_plus_complex() {
    let code = "a + z".to_string();
    assert_eq!(calculation_and_print_test(code), format!("a - ( 1 + 3i )"))
}

#[test]
fn calculation_and_print_mul_minus() {
    let code = "a * y".to_string();
    assert_eq!(calculation_and_print_test(code), format!("a * ( -2 )"))
}

#[test]
fn calculation_and_print_mul_complex() {
    let code = "a * z".to_string();
    assert_eq!(calculation_and_print_test(code), format!("a * ( -1 - 3i )"))
}

#[test]
fn calculation_and_print_minus_mul() {
    let code = "y ^ a".to_string();
    assert_eq!(calculation_and_print_test(code), format!("( -2 ) ^ a"))
}

#[test]
fn calculation_and_print_pow_complex() {
    let code = "z ^ a".to_string();
    assert_eq!(calculation_and_print_test(code), format!("( -1 - 3i ) ^ a"))
}

#[test]
fn calculation_and_print_axy() {
    let code = "- 1 + 2 (x + a) ^ 2 * 3 - 2y".to_string();
    assert_eq!(calculation_and_print_test(code), format!("-1 + 2 * ( 2 + a ) ^ 2 * 3 + 4"))
}

#[test]
fn check_variable_in_tree_normal() {
    let code = "- 1 + 2 (x + a) ^ 2 * 3 - 2y".to_string();
    assert_eq!(check_variable_in_tree_test(code), format!("a"))
}

#[test]
fn check_variable_in_tree_complex() {
    let code = "- 1 + 2 (x + a) ^ 2 * 3i - 2y".to_string();
    assert_eq!(check_variable_in_tree_test(code), format!("a"))
}

#[test]
fn check_variable_in_tree_small() {
    let code = "a".to_string();
    assert_eq!(check_variable_in_tree_test(code), format!("a"))
}

#[test]
fn calculation_function_normal() {
    let function = "a + 1".to_string();
    let function_name = "func".to_string();
    let variable = "a".to_string();
    let code = "func(1)".to_string();
    assert_eq!(function_calculation_test(function, function_name, variable, code), Ok(Num::Float(scalar(2.0))))
}

#[test]
fn calculation_function_complex() {
    let function = "a + i".to_string();
    let function_name = "func".to_string();
    let variable = "a".to_string();
    let code = "func(2 + i)".to_string();
    assert_eq!(function_calculation_test(function, function_name, variable, code), Ok(Num::from_two_float(scalar(2.0), scalar(2.0))))
}

#[test]
fn calculation_function_matrix() {
    let function = "a ** [[1,1]]".to_string();
    let function_name = "func".to_string();
    let variable = "a".to_string();
    let code = "func([[1];[1];[1]])".to_string();
    assert_eq!(function_calculation_test(function, function_name, variable, code), Ok(from_floats(vec![vec![1.0;2];3]).unwrap()))
}

#[test]
fn calculation_function_registered_variable() {
    let function = "x + 1".to_string();
    let function_name = "func".to_string();
    let variable = "x".to_string();
    let code = "func(1)".to_string();
    assert_eq!(function_calculation_test(function, function_name, variable, code), Ok(Num::Float(scalar(2.0))))
}

#[test]
fn calculation_function_constant() {
    let function = "-1".to_string();
    let function_name = "func".to_string();
    let variable = "a".to_string();
    let code = "func(1)".to_string();
    assert_eq!(function_calculation_test(function, function_name, variable, code), Ok(Num::Float(scalar(-1.0))))
}

#[test]
fn calculation_function_long_function() {
    let function = "(x + 2)^2 - 2 * x - 2 + (-2)^x".to_string();
    let function_name = "func".to_string();
    let variable = "x".to_string();
    let code = "func(2)".to_string();
    assert_eq!(function_calculation_test(function, function_name, variable, code), Ok(Num::Float(scalar(14.0))))
}

#[test]
fn calculation_function_in_same_variable() {
    let function = "(x + 2)^2 - 2 * x - 2 + (-2)^x".to_string();
    let function_name = "func".to_string();
    let variable = "x".to_string();
    let code = "func(x * 2 - 2)".to_string();
    assert_eq!(function_calculation_test(function, function_name, variable, code), Ok(Num::Float(scalar(14.0))))
}

#[test]
fn calculation_function_in_long() {
    let function = "(x + 2)^2 - 2 * x - 2 + (-2)^x".to_string();
    let function_name = "func".to_string();
    let variable = "x".to_string();
    let code = "func((x + 2)^2 - 2 * x - 2 + (-2)^x - 12)".to_string();
    assert_eq!(function_calculation_test(function, function_name, variable, code), Ok(Num::Float(scalar(14.0))))
}

#[test]
fn calculation_function_and_long() {
    let function = "x + 1".to_string();
    let function_name = "func".to_string();
    let variable = "x".to_string();
    let code = "3 func(x) x - 2func(y)^3".to_string();
    assert_eq!(function_calculation_test(function, function_name, variable, code), Ok(Num::Float(scalar(20.0))))
}

#[test]
fn calculation_function_overwrite_variable() {
    let function = "x + 1".to_string();
    let function_name = "x".to_string();
    let variable = "x".to_string();
    let code = "x(-2)".to_string();
    assert_eq!(function_calculation_test(function, function_name, variable, code), Ok(Num::Float(scalar(-1.0))))
}

#[test]
fn calculation_error_function_not_func() {
    let function = "1 - x".to_string();
    let function_name = "f".to_string();
    let variable = "x".to_string();
    let code = "func(1)".to_string();
    assert_eq!(function_calculation_test(function, function_name, variable, code), Err("error calculation".to_string()))
}

#[test]
fn calculation_error_function_not_paren() {
    let function = "1 - x".to_string();
    let function_name = "func".to_string();
    let variable = "x".to_string();
    let code = "func".to_string();
    assert_eq!(function_calculation_test(function, function_name, variable, code), Err("error parser: error: func is defined as a function, so it needs parentheses".to_string()))
}

#[test]
fn calculation_error_function_unsupported_op_complex() {
    let function = "1 - i ^ x".to_string();
    let function_name = "func".to_string();
    let variable = "x".to_string();
    let code = "func(2)".to_string();
    assert_eq!(function_calculation_test(function, function_name, variable, code), Err("error calculation: Unsupported operator (i) ^ (2)".to_string()))
}

#[test]
fn calculation_function_tree_variable() {
    let function = "(x + 2)^2 - 2 * x - 2 + (-2)^x".to_string();
    let function_name = "func".to_string();
    let variable = "x".to_string();
    let code = "func(a)".to_string();
    let ans = "( ( ( a ) + 2 ) ^ 2 - 2 * ( a ) - 2 + ( -2 ) ^ ( a ) )".to_string();
    assert_eq!(function_calculation_tree_test(function, function_name, variable, code), Ok(ans))
}
