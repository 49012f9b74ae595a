use computor_v2::data_base::DataBase;
use computor_v2::lexer::Lexer;
use computor_v2::num::Num;
use computor_v2::parser::Parser;
use computor_v2::scalar::{Answer, FloatOp, Query, Scalar};

fn scalar(x: f64) -> Scalar {
    Scalar::from_bits(x.to_bits())
}

fn float(x: Scalar) -> f64 {
    f64::from_bits(x.to_bits())
}

fn unit(q: Query) -> Answer {
    match q {
        Query::Apply(op, a, b) => {
            let x = float(a);
            let y = float(b);
            let r = match op {
                FloatOp::Add => x + y,
                FloatOp::Sub => x - y,
                FloatOp::Mul => x * y,
                FloatOp::Div => x / y,
                FloatOp::Rem => x.rem_euclid(y),
                FloatOp::Pow => x.powf(y),
                FloatOp::Sqrt => x.sqrt(),
                FloatOp::Exp => x.exp(),
                FloatOp::Sin => x.sin(),
                FloatOp::Cos => x.cos(),
                FloatOp::Tan => x.tan(),
            };
            Answer::Value(scalar(r))
        }
        Query::Parse(s) => match s.parse::<f64>() {
            Ok(v) => Answer::Value(scalar(v)),
            Err(_) => Answer::Nothing,
        },
        Query::Display(r) => Answer::Text(format!("{}", float(r))),
        Query::Debug(r) => Answer::Text(format!("{:?}", float(r))),
    }
}
use computor_v2::binary_tree::BinaryTree;
use computor_v2::lexer::Token;
use computor_v2::operator::Operator;
use computor_v2::parser::Element;

fn store() -> DataBase {
    let mut data_base = DataBase::new();
    data_base.register_num(&"x".to_string(), Num::Float(scalar(2.0))).unwrap();
    data_base
}

fn tokens(code: &str) -> Vec<Token> {
    let code = code.to_string();
    Lexer::new(&code).make_token_vec().unwrap()
}

fn tree(code: &str) -> Result<BinaryTree<Element>, String> {
    Parser::new(tokens(code)).make_tree(&store(), &unit)
}

#[test]
fn implicit_multiplication_is_multiplication() {
    let primaries =
        ["2", "0.5", "i", "a", "x", "(1 + a)", "[[1,2];[3,4]]", "exp(a)", "((b))", "sin(2 a)"];
    for a in primaries {
        for b in primaries {
            let adjacent = tree(&format!("{} {}", a, b));
            let spaced = tree(&format!("{} * {}", a, b));
            let tight = tree(&format!("{}*{}", a, b));
            assert!(spaced.is_ok(), "{} * {}", a, b);
            assert_eq!(spaced, tight, "{} * {}", a, b);
            assert_eq!(adjacent, spaced, "{} {}", a, b);
        }
    }
    assert_eq!(tree("2 a + 3 (b - 1) c"), tree("2 * a + 3 * (b - 1) * c"));
    assert_eq!(tree("2 ^ a b"), tree("2 ^ a * b"));
    assert_eq!(tree("1 + 2 3 4"), tree("1 + 2 * 3 * 4"));
    assert_eq!(tree("- 2"), tree("-2"));
    assert_eq!(tree("- 2 3"), tree("- 2 * 3"));
}

#[test]
fn implicit_multiplication_puts_the_token_in() {
    let mut parser = Parser::new(tokens("2 a"));
    assert!(parser.make_tree(&store(), &unit).is_ok());
    assert_eq!(parser.tokens, tokens("2 * a"));
    assert_eq!(parser.index, 3);
}

#[test]
fn evaluation_folds_once_and_for_all() {
    let data_base = store();
    let parser = Parser::new(Vec::new());
    for code in
        ["1 + 2 * 3", "x ^ 2 - (x + 1)", "2 i * i", "[[1,2]] ** [[3];[4]]", "sqrt(16)", "abs(1)", "x"]
    {
        let mut t = tree(code).unwrap();
        let first = parser.calculation(&mut t, &data_base, None, &unit).unwrap();
        let value = first.clone().expect(code);
        assert_eq!(t, BinaryTree::from_element(Element::Num(value)), "{}", code);
        let second = parser.calculation(&mut t, &data_base, None, &unit).unwrap();
        assert_eq!(first, second, "{}", code);
        assert_eq!(t, BinaryTree::from_element(Element::Num(second.unwrap())), "{}", code);
    }
    let mut t = BinaryTree::from_element(Element::Num(Num::Float(scalar(7.0))));
    assert_eq!(
        parser.calculation(&mut t, &data_base, None, &unit),
        Ok(Some(Num::Float(scalar(7.0))))
    );
    assert_eq!(t, BinaryTree::from_element(Element::Num(Num::Float(scalar(7.0)))));
}

#[test]
fn evaluation_of_open_and_empty_trees_fails() {
    let data_base = store();
    let parser = Parser::new(Vec::new());
    let mut empty = BinaryTree::new();
    assert_eq!(
        parser.calculation(&mut empty, &data_base, None, &unit),
        Err("syntax error".to_string())
    );
    let mut open = tree("1 +").unwrap();
    assert_eq!(
        parser.calculation(&mut open, &data_base, None, &unit),
        Err("syntax error".to_string())
    );
    assert_eq!(Parser::print_tree(&tree("1 +").unwrap(), &unit), Err("syntax error".to_string()));
    assert_eq!(Parser::print_tree(&BinaryTree::new(), &unit), Err("syntax error".to_string()));
}

#[test]
fn results_that_are_not_finite_fail() {
    let data_base = store();
    let parser = Parser::new(Vec::new());
    for (code, shown) in [
        ("10 ^ 400", "inf"),
        ("(0 - 10 ^ 308) * 10", "-inf"),
        ("0 / 0", "NaN"),
        ("1 / 0", "inf"),
        ("(10 ^ 308 * 10) i", "inf"),
        ("[[1,2]] / 0", "inf"),
        ("exp(1000)", "inf"),
    ] {
        let mut t = tree(code).unwrap();
        assert_eq!(
            parser.calculation(&mut t, &data_base, None, &unit),
            Err(format!("The calculation resulted in '{}'.", shown)),
            "{}",
            code
        );
    }
    assert_eq!(data_base, store());
}

#[test]
fn complex_numbers_without_imaginary_part_are_reals() {
    for r in [0.0, -0.0, 1.5, -2.0] {
        assert_eq!(Num::from_two_float(scalar(r), scalar(0.0)), Num::Float(scalar(r)));
        assert_eq!(Num::from_two_float(scalar(r), scalar(-0.0)), Num::Float(scalar(r)));
    }
    let zero = Num::from_two_float_to_complex(scalar(0.0), scalar(0.0));
    assert_eq!(zero.reverse_sign(), Num::Float(scalar(0.0)));
    assert_eq!(
        Num::from_two_float_to_complex(scalar(1.0), scalar(-2.0)).reverse_sign(),
        Num::from_two_float_to_complex(scalar(-1.0), scalar(2.0))
    );
    assert_eq!(Num::Float(scalar(3.0)).reverse_sign(), Num::Float(scalar(-3.0)));
    assert_eq!(
        Num::from_vec(vec![vec![scalar(1.0), scalar(-2.0)]]).unwrap().reverse_sign(),
        Num::from_vec(vec![vec![scalar(-1.0), scalar(2.0)]]).unwrap()
    );
}

#[test]
fn sign_and_parentheses_predicates() {
    let cases = [
        (Num::Float(scalar(1.0)), false, false),
        (Num::Float(scalar(-1.0)), true, true),
        (Num::Float(scalar(-0.0)), true, true),
        (Num::from_two_float(scalar(0.0), scalar(1.0)), false, false),
        (Num::from_two_float(scalar(0.0), scalar(-1.0)), true, true),
        (Num::from_two_float(scalar(1.0), scalar(-1.0)), false, true),
        (Num::from_two_float(scalar(-1.0), scalar(1.0)), true, true),
        (Num::from_two_float(scalar(1.0), scalar(1.0)), false, true),
        (Num::from_vec(vec![vec![scalar(-1.0)]]).unwrap(), false, false),
    ];
    for (n, reverse, paren) in cases {
        assert_eq!(n.is_need_sign_reverse(), reverse, "{:?}", n);
        assert_eq!(n.is_need_paren_to_display(), paren, "{:?}", n);
    }
}

#[test]
fn parser_steps() {
    assert_eq!(Parser::token_to_operator(&Token::Plus), Ok(Operator::Plus));
    assert_eq!(Parser::token_to_operator(&Token::Minus), Ok(Operator::Minus));
    assert_eq!(Parser::token_to_operator(&Token::Asterisk), Ok(Operator::Mul));
    assert_eq!(Parser::token_to_operator(&Token::Slash), Ok(Operator::Div));
    assert_eq!(Parser::token_to_operator(&Token::Percent), Ok(Operator::Rem));
    assert_eq!(Parser::token_to_operator(&Token::Caret), Ok(Operator::Pow));
    assert_eq!(Parser::token_to_operator(&Token::TwoAsterisk), Ok(Operator::MatrixMul));
    assert_eq!(Parser::token_to_operator(&Token::LParen), Err("syntax error".to_string()));

    let mut sum = tree("1 + 2").unwrap();
    assert_eq!(Parser::get_tree_element_operator(&sum), Ok(&Operator::Plus));
    assert_eq!(
        Parser::get_tree_element_operator(&tree("1").unwrap()),
        Err("syntax error".to_string())
    );
    assert_eq!(
        Parser::get_tree_element_operator(&BinaryTree::new()),
        Err("syntax error".to_string())
    );
    Parser::replace_and_add_left(&mut sum, Operator::Mul);
    assert_eq!(Parser::get_tree_element_operator(&sum), Ok(&Operator::Mul));
    assert_eq!(sum.left(), Some(&tree("1 + 2").unwrap()));
    assert_eq!(sum.right(), Some(&BinaryTree::new()));

    let mut parser = Parser::new(tokens("a ( 12"));
    assert_eq!(parser.get_next_token(), Ok(&Token::String(Box::new("a".to_string()))));
    assert!(parser.is_string_token());
    assert!(parser.is_next_token(Token::String(Box::new("a".to_string()))));
    assert!(!parser.is_next_token(Token::String(Box::new("b".to_string()))));
    parser.index_plus();
    assert!(parser.is_l_paren());
    assert!(!parser.is_r_paren());
    assert!(parser.is_next_token(Token::LParen));
    parser.insert_mul();
    assert!(parser.is_next_token(Token::Asterisk));
    parser.index_plus();
    parser.index_plus();
    assert!(parser.is_num());
    assert!(parser.is_next_token(Token::NumString(Box::new("12".to_string()))));
    assert!(!parser.is_next_token(Token::NumString(Box::new("1".to_string()))));
    parser.index_plus();
    assert_eq!(parser.get_next_token(), Err("syntax error".to_string()));
    assert!(!parser.is_num() && !parser.is_string_token() && !parser.is_next_token(Token::I));
    assert!(Parser::is_function(&"EXP".to_string(), &store()));
    assert!(!Parser::is_function(&"x".to_string(), &store()));
}

#[test]
fn token_shapes_of_a_line() {
    assert!(Parser::is_show_variable(&vec![Token::String(Box::new("variables".to_string()))]));
    assert!(Parser::is_show_functions(&vec![Token::String(Box::new("functions".to_string()))]));
    assert!(Parser::is_show_commands(&vec![Token::String(Box::new("history".to_string()))]));
    assert!(!Parser::is_show_variable(&tokens("a")));
    assert!(!Parser::is_show_commands(&Vec::new()));
    assert_eq!(Parser::separate_equal(tokens("a = 1 + 2")), Ok((tokens("a"), tokens("1 + 2"))));
    assert_eq!(Parser::separate_equal(tokens("= ?")), Ok((Vec::new(), tokens("?"))));
    assert_eq!(
        Parser::separate_equal(tokens("a 1")),
        Err("= never appeared: syntax error".to_string())
    );
    assert_eq!(
        Parser::separate_equal(tokens("a = 1 = 2")),
        Err("= appeared twice: syntax error".to_string())
    );
    assert!(Parser::is_question_tokens(&tokens("?")));
    assert!(!Parser::is_question_tokens(&tokens("1 ?")));
    assert!(Parser::is_solution_equation(&tokens("1 ?")));
    assert!(!Parser::is_solution_equation(&tokens("? 1")));
    assert!(!Parser::is_solution_equation(&tokens("?")));
    assert!(!Parser::is_solution_equation(&Vec::new()));
    assert!(Parser::is_variable_register(&tokens("abc")));
    assert!(!Parser::is_variable_register(&tokens("2")));
    assert!(Parser::is_func_register(&tokens("f(x)")));
    assert!(!Parser::is_func_register(&tokens("f(2)")));
    assert!(!Parser::is_func_register(&tokens("f(x) y")));
    assert_eq!(Parser::get_string_token_string(&tokens("ab")[0]), Ok(&"ab".to_string()));
    assert_eq!(Parser::get_string_token_string(&Token::I), Err("syntax error".to_string()));
    assert_eq!(Parser::get_num_token_float(&tokens("2.5")[0], &unit), Ok(scalar(2.5)));
    assert_eq!(
        Parser::get_num_token_float(&Token::I, &unit),
        Err("syntax error".to_string())
    );
    assert_eq!(
        Parser::get_num_token_float(&Token::NumString(Box::new("1e400".to_string())), &unit),
        Err("The calculation resulted in 'inf'.".to_string())
    );
    assert_eq!(
        Parser::get_num_token_float(&Token::NumString(Box::new("one".to_string())), &unit),
        Err("Conversion Failure".to_string())
    );
}
