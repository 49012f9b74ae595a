use computor_v2::data_base::DataBase;
use computor_v2::lexer::Lexer;
use computor_v2::num::Num;
use computor_v2::parser::Parser;
use computor_v2::scalar::{Answer, FloatOp, Query, Scalar};

fn scalar(x: f64) -> Scalar {
    Scalar::from_bits(x.to_bits())
}

fn float(x: Scalar) -> f64 {
    f64::from_bits(x.to_bits())
}

fn unit(q: Query) -> Answer {
    match q {
        Query::Apply(op, a, b) => {
            let x = float(a);
            let y = float(b);
            let r = match op {
                FloatOp::Add => x + y,
                FloatOp::Sub => x - y,
                FloatOp::Mul => x * y,
                FloatOp::Div => x / y,
                FloatOp::Rem => x.rem_euclid(y),
                FloatOp::Pow => x.powf(y),
                FloatOp::Sqrt => x.sqrt(),
                FloatOp::Exp => x.exp(),
                FloatOp::Sin => x.sin(),
                FloatOp::Cos => x.cos(),
                FloatOp::Tan => x.tan(),
            };
            Answer::Value(scalar(r))
        }
        Query::Parse(s) => match s.parse::<f64>() {
            Ok(v) => Answer::Value(scalar(v)),
            Err(_) => Answer::Nothing,
        },
        Query::Display(r) => Answer::Text(format!("{}", float(r))),
        Query::Debug(r) => Answer::Text(format!("{:?}", float(r))),
    }
}
use computor_v2::binary_tree::BinaryTree;
use computor_v2::data_base::Data;
use computor_v2::functions::{builtin_func, make_builtin_func_box};
use computor_v2::operator::Operator;
use computor_v2::operator::Operator::{Div, MatrixMul, Minus, Mul, Paren, Plus, Pow, RParen, Rem};
use computor_v2::parser::Element;
use computor_v2::text::{chars_of, int_to_string, string_from_chars};

fn name(s: &str) -> String {
    s.to_string()
}

fn tree_of(code: &str, data_base: &DataBase) -> BinaryTree<Element> {
    let code = code.to_string();
    let mut lexer = Lexer::new(&code);
    let mut parser = Parser::new(lexer.make_token_vec().unwrap());
    parser.make_tree(data_base, &unit).unwrap()
}

#[test]
fn store_builtins_are_there_from_the_start() {
    let data_base = DataBase::new();
    for f in ["exp", "sqrt", "abs", "sin", "cos", "tan"] {
        assert!(data_base.get_func(&name(f)).is_some(), "{}", f);
        assert!(data_base.get_builtin_func(&name(f)).is_some(), "{}", f);
        assert_eq!(
            data_base.get_builtin_func(&name(f)),
            Some(&make_builtin_func_box(name(f)))
        );
        assert!(data_base.get_num(&name(f)).is_none());
    }
    assert!(data_base.get(&name("log")).is_none());
    assert!(data_base.get_builtin_func(&name("EXP")).is_none());
    assert!(data_base.get_func(&name("EXP")).is_some());
}

#[test]
fn store_builtin_names_cannot_be_bound() {
    let mut data_base = DataBase::new();
    for f in ["exp", "sqrt", "abs", "sin", "cos", "tan", "Exp", "SQRT"] {
        assert_eq!(
            data_base.register_num(&name(f), Num::Float(scalar(1.0))),
            Err("The variable cannot be registered".to_string())
        );
        assert_eq!(
            data_base.register_func(&name(f), BinaryTree::from_element(Element::Dummy), name("x")),
            Err("The function cannot be registered".to_string())
        );
        assert_eq!(data_base, DataBase::new());
    }
}

#[test]
fn store_names_fold_case_and_rebind_in_place() {
    let mut data_base = DataBase::new();
    assert_eq!(data_base.register_num(&name("Abc"), Num::Float(scalar(1.0))), Ok(()));
    assert_eq!(data_base.register_num(&name("d"), Num::Float(scalar(2.0))), Ok(()));
    assert_eq!(data_base.get_num(&name("ABC")), Some(&Num::Float(scalar(1.0))));
    assert_eq!(data_base.get_num(&name("abc")), Some(&Num::Float(scalar(1.0))));
    assert_eq!(data_base.show_variable(&unit), "abc: 1\nd: 2\n");
    assert_eq!(data_base.register_num(&name("aBC"), Num::Float(scalar(3.0))), Ok(()));
    assert_eq!(data_base.show_variable(&unit), "abc: 3\nd: 2\n");
    assert_eq!(data_base.get(&name("d")), Some(&Data::Num(Num::Float(scalar(2.0)))));
    assert!(data_base.get_func(&name("d")).is_none());
}

#[test]
fn store_lists_functions() {
    let mut data_base = DataBase::new();
    assert_eq!(data_base.show_function(&unit), Ok("No functions defined yet\n".to_string()));
    assert_eq!(data_base.show_variable(&unit), "No variables defined yet\n");
    let body = tree_of("2 t + 1", &data_base);
    assert_eq!(data_base.register_func(&name("F"), body, name("t")), Ok(()));
    assert_eq!(data_base.register_num(&name("v"), Num::Float(scalar(0.5))), Ok(()));
    assert_eq!(data_base.show_function(&unit), Ok("f(t): 2 * t + 1\n".to_string()));
    assert_eq!(data_base.show_variable(&unit), "v: 0.5\n");
    assert!(data_base.get_func(&name("f")).is_some());
    assert!(data_base.get_num(&name("f")).is_none());
    // A name is a number or a function, never both.
    assert_eq!(data_base.register_num(&name("f"), Num::Float(scalar(1.0))), Ok(()));
    assert_eq!(data_base.show_function(&unit), Ok("No functions defined yet\n".to_string()));
    assert_eq!(data_base.show_variable(&unit), "f: 1\nv: 0.5\n");
}

#[test]
fn store_refuses_a_body_that_calls_a_defined_function() {
    let mut data_base = DataBase::new();
    let body = tree_of("2 t", &data_base);
    assert_eq!(data_base.register_func(&name("f"), body, name("t")), Ok(()));
    let with_builtin = tree_of("exp(t) + 1", &data_base);
    assert_eq!(data_base.register_func(&name("g"), with_builtin, name("t")), Ok(()));
    let before = format!("{:?}", data_base);
    let with_call = tree_of("f(t) + 1", &data_base);
    assert_eq!(
        data_base.register_func(&name("h"), with_call, name("t")),
        Err("The function cannot be registered".to_string())
    );
    assert_eq!(format!("{:?}", data_base), before);
    assert!(data_base.get_func(&name("h")).is_none());
}

#[test]
fn builtin_functions_on_numbers() {
    let four = Num::Float(scalar(4.0));
    assert_eq!(builtin_func(name("sqrt"), &four, &unit), Ok(Num::Float(scalar(2.0))));
    assert_eq!(
        builtin_func(name("sqrt"), &Num::Float(scalar(-4.0)), &unit),
        Ok(Num::from_two_float_to_complex(scalar(0.0), scalar(2.0)))
    );
    assert_eq!(
        builtin_func(name("sqrt"), &Num::Float(scalar(-0.0)), &unit),
        Ok(Num::Float(scalar(0.0)))
    );
    assert_eq!(builtin_func(name("exp"), &Num::Float(scalar(0.0)), &unit), Ok(Num::Float(scalar(1.0))));
    assert_eq!(builtin_func(name("abs"), &Num::Float(scalar(-3.5)), &unit), Ok(Num::Float(scalar(3.5))));
    assert_eq!(builtin_func(name("sin"), &Num::Float(scalar(0.0)), &unit), Ok(Num::Float(scalar(0.0))));
    assert_eq!(builtin_func(name("cos"), &Num::Float(scalar(0.0)), &unit), Ok(Num::Float(scalar(1.0))));
    assert_eq!(builtin_func(name("tan"), &Num::Float(scalar(0.0)), &unit), Ok(Num::Float(scalar(0.0))));
    assert_eq!(
        builtin_func(name("exp"), &Num::Float(scalar(1000.0)), &unit),
        Err("The calculation resulted in 'inf'.".to_string())
    );
    assert_eq!(
        builtin_func(name("log"), &four, &unit),
        Err("error: unsupported log".to_string())
    );
    let i = Num::new_complex();
    for f in ["exp", "sqrt", "abs", "sin", "cos", "tan"] {
        assert_eq!(
            builtin_func(name(f), &i, &unit),
            Err(format!("error: unsupported non float {}", f))
        );
    }
}

#[test]
fn builtin_template_is_a_call_of_x() {
    let b = make_builtin_func_box(name("exp"));
    assert_eq!(b.1, "x");
    assert_eq!(Parser::print_tree(&b.0, &unit), Ok("exp ( x )".to_string()));
    let expected = BinaryTree::from_element_and_tree(
        Element::Func(Box::new(name("exp"))),
        BinaryTree::from_element_and_tree(
            Element::Operator(Paren),
            BinaryTree::from_element(Element::Variable(Box::new(name("x")))),
            BinaryTree::from_element(Element::Operator(RParen)),
        ),
        BinaryTree::from_element(Element::Operator(RParen)),
    );
    assert_eq!(b.0, expected);
}

#[test]
fn builtin_calls_in_expressions() {
    let data_base = DataBase::new();
    let parser = Parser::new(Vec::new());
    let mut tree = tree_of("2 sqrt(16) + abs(0 - 3)", &data_base);
    assert_eq!(
        parser.calculation(&mut tree, &data_base, None, &unit),
        Ok(Some(Num::Float(scalar(11.0))))
    );
    let mut tree = tree_of("abs(1)", &data_base);
    assert_eq!(
        parser.calculation(&mut tree, &data_base, None, &unit),
        Ok(Some(Num::Float(scalar(1.0))))
    );
    assert_eq!(tree, BinaryTree::from_element(Element::Num(Num::Float(scalar(1.0)))));
    let mut tree = tree_of("sin(0) + a", &data_base);
    assert_eq!(parser.calculation(&mut tree, &data_base, None, &unit), Ok(None));
    assert_eq!(Parser::print_tree(&tree, &unit), Ok("0 + a".to_string()));
    let mut tree = tree_of("exp(a) + 1", &data_base);
    assert_eq!(parser.calculation(&mut tree, &data_base, None, &unit), Ok(None));
    assert_eq!(Parser::print_tree(&tree, &unit), Ok("exp ( ( a ) ) + 1".to_string()));
    let mut tree = tree_of("sqrt(0 - 4)", &data_base);
    assert_eq!(
        parser.calculation(&mut tree, &data_base, None, &unit),
        Ok(Some(Num::from_two_float(scalar(0.0), scalar(2.0))))
    );
}

#[test]
fn text_helpers() {
    assert_eq!(chars_of("a+b"), vec!['a', '+', 'b']);
    assert_eq!(chars_of(""), Vec::<char>::new());
    assert_eq!(string_from_chars(&vec!['a', 'b', 'c', 'd'], 1, 3), "bc");
    assert_eq!(string_from_chars(&vec!['a', 'b'], 2, 2), "");
    assert_eq!(int_to_string(0), "0");
    assert_eq!(int_to_string(7), "7");
    assert_eq!(int_to_string(-12), "-12");
    assert_eq!(int_to_string(1234567890), "1234567890");
    assert_eq!(int_to_string(i64::MAX), "9223372036854775807");
    assert_eq!(int_to_string(i64::MIN), "-9223372036854775808");
}

#[test]
fn operator_priority_and_text() {
    let all = [Plus, Minus, Mul, Div, Rem, MatrixMul, Pow, Paren, RParen];
    let level = |op: &Operator| match op {
        Plus | Minus => 1,
        Mul | Div | Rem | MatrixMul => 2,
        Pow => 3,
        _ => 0,
    };
    for a in &all {
        for b in &all {
            let expected = match (a, b) {
                (Pow, Paren) => true,
                (Paren, _) | (RParen, _) | (_, Paren) | (_, RParen) => false,
                _ => level(a) < level(b),
            };
            assert_eq!(a.priority(b), expected, "{:?} {:?}", a, b);
        }
        assert!(!a.priority(a));
    }
    let texts: Vec<String> = all.iter().map(|op| op.to_string()).collect();
    assert_eq!(texts, vec!["+", "-", "*", "/", "%", "**", "^", "(", ")"]);
}
