use computor_v2::data_base::DataBase;

use computor_v2::num::Num;

use computor_v2::scalar::{Answer, FloatOp, Query, Scalar};

fn scalar(x: f64) -> Scalar {
    Scalar::from_bits(x.to_bits())
}

fn float(x: Scalar) -> f64 {
    f64::from_bits(x.to_bits())
}

fn unit(q: Query) -> Answer {
    match q {
        Query::Apply(op, a, b) => {
            let x = float(a);
            let y = float(b);
            let r = match op {
                FloatOp::Add => x + y,
                FloatOp::Sub => x - y,
                FloatOp::Mul => x * y,
                FloatOp::Div => x / y,
                FloatOp::Rem => x.rem_euclid(y),
                FloatOp::Pow => x.powf(y),
                FloatOp::Sqrt => x.sqrt(),
                FloatOp::Exp => x.exp(),
                FloatOp::Sin => x.sin(),
                FloatOp::Cos => x.cos(),
                FloatOp::Tan => x.tan(),
            };
            Answer::Value(scalar(r))
        }
        Query::Parse(s) => match s.parse::<f64>() {
            Ok(v) => Answer::Value(scalar(v)),
            Err(_) => Answer::Nothing,
        },
        Query::Display(r) => Answer::Text(format!("{}", float(r))),
        Query::Debug(r) => Answer::Text(format!("{:?}", float(r))),
    }
}
use computor_v2::command::Commands;
use computor_v2::compute::{compute, show_commands, show_function, show_variable};

fn run(lines: &[&str]) -> Vec<String> {
    let mut data_base = DataBase::new();
    let commands = Commands::new();
    let mut shown = Vec::new();
    for line in lines {
        let code = line.to_string();
        shown.push(match compute(&code, &mut data_base, &commands, &unit) {
            Ok((_, output)) => output,
            Err(e) => format!("  {}\n", e),
        });
    }
    shown
}

fn last(lines: &[&str]) -> String {
    run(lines).pop().unwrap()
}

#[test]
fn scenario_precedence() {
    assert_eq!(last(&["2 + 3 * 4 = ?"]), "  14\n");
}

#[test]
fn scenario_variable() {
    assert_eq!(last(&["x = 5", "x^2 + 1 = ?"]), "  26\n");
}

#[test]
fn scenario_function() {
    assert_eq!(last(&["f(y) = 2 * y + 1", "f(3) = ?"]), "  7\n");
}

#[test]
fn scenario_double_root() {
    assert_eq!(
        last(&["x^2 + 2*x + 1 = 0 ?"]),
        "  1 + 2 * x^1 + x^2 = 0\nOnly one solution on R:\n-1\n"
    );
}

#[test]
fn scenario_complex_roots() {
    assert_eq!(last(&["x^2 + 1 = 0 ?"]), "  1 + x^2 = 0\nTwo solutions on C:\n± i\n");
}

#[test]
fn scenario_matrix_product() {
    assert_eq!(last(&["[[1,2];[3,4]] ** [[1];[1]] = ?"]), "  [ 3 ]\n  [ 7 ]\n");
}

#[test]
fn scenario_unsupported_operator() {
    assert_eq!(last(&["3 % i = ?"]), "  Unsupported operator (3) % (i)\n");
}

#[test]
fn scenario_power_associates_left() {
    assert_eq!(last(&["2 ^ 3 ^ 3 = ?"]), "  512\n");
}

#[test]
fn compute_replies() {
    let mut data_base = DataBase::new();
    let mut commands = Commands::new();
    let code = "a = 2 + 1".to_string();
    assert_eq!(
        compute(&code, &mut data_base, &commands, &unit),
        Ok(("3".to_string(), "  3\n".to_string()))
    );
    commands.push(code, "3".to_string());
    let code = "A * b = ?".to_string();
    assert_eq!(
        compute(&code, &mut data_base, &commands, &unit),
        Ok(("3 * b".to_string(), "  3 * b\n".to_string()))
    );
    assert_eq!(show_commands(&commands), ("".to_string(), "  a = 2 + 1: 3\n".to_string()));
    assert_eq!(show_variable(&data_base, &unit), Ok(("".to_string(), "a: 3\n".to_string())));
    assert_eq!(
        show_function(&data_base, &unit),
        Ok(("".to_string(), "No functions defined yet\n".to_string()))
    );
    let code = "g(t) = t^2 - a".to_string();
    assert_eq!(
        compute(&code, &mut data_base, &commands, &unit),
        Ok(("t ^ 2 - 3".to_string(), "  t ^ 2 - 3\n".to_string()))
    );
    assert_eq!(
        show_function(&data_base, &unit),
        Ok(("".to_string(), "g(t): t ^ 2 - 3\n".to_string()))
    );
    let code = "m = [[1,2];[3,4]]".to_string();
    assert_eq!(
        compute(&code, &mut data_base, &commands, &unit),
        Ok(("[[1,2];[3,4]]".to_string(), "  [ 1 , 2 ]\n  [ 3 , 4 ]\n".to_string()))
    );
}

#[test]
fn compute_errors_leave_the_store() {
    let mut data_base = DataBase::new();
    let commands = Commands::new();
    let mut check = |line: &str, message: &str| {
        let code = line.to_string();
        assert_eq!(compute(&code, &mut data_base, &commands, &unit), Err(message.to_string()));
        assert_eq!(data_base, DataBase::new());
    };
    check("1 + 1", "= never appeared: syntax error");
    check("1 = 1 = ?", "= appeared twice: syntax error");
    check("1 } 2 = ?", "Unsupported character: }");
    check("a = b", "Undefined Variables");
    check("exp = 2", "The variable cannot be registered");
    check("EXP = 2", "The variable cannot be registered");
    check("cos(x) = 2 * x", "The function cannot be registered");
    check("f(x) = x + y", "x, y: error two variable");
    check("f(x) = y", "y, x: error two variable");
    check("a = 1 / 0", "The calculation resulted in 'inf'.");
    check("a = 0 / 0", "The calculation resulted in 'NaN'.");
    check("a = 2 ^ 1024", "The calculation resulted in 'inf'.");
    check("f(x) = exp(x)", "exp: error function");
    check("x + y = 0 ?", "x, y: two variable error.");
    check("x * i = 0 ?", "i: syntax error: Not a real number.");
}

#[test]
fn compute_unsupported_format() {
    let mut data_base = DataBase::new();
    let commands = Commands::new();
    let code = "1 + 1 = 2".to_string();
    assert_eq!(
        compute(&code, &mut data_base, &commands, &unit),
        Ok(("Unsupported format".to_string(), "  Unsupported format\n".to_string()))
    );
}

#[test]
fn compute_solves() {
    assert_eq!(last(&["0 = 0 ?"]), "  0 = 0\nThe solution is an arbitrary real number.\n");
    assert_eq!(last(&["1 = 0 ?"]), "  1 = 0\nThere is no solution.\n");
    assert_eq!(last(&["2 * x + 4 = 0 ?"]), "  4 + 2 * x^1 = 0\nSolution:\n-2\n");
    assert_eq!(last(&["2 * x = 0 ?"]), "  2 * x^1 = 0\nSolution:\n0\n");
    assert_eq!(
        last(&["x^2 = 4 ?"]),
        "  -4 + x^2 = 0\nTwo solutions on R:\n2\n-2\n"
    );
    assert_eq!(
        last(&["x^2 + 2 * x + 5 = 0 ?"]),
        "  5 + 2 * x^1 + x^2 = 0\nTwo solutions on C:\n-1 ± 2i\n"
    );
    assert_eq!(
        last(&["x^2 + 4 = 0 ?"]),
        "  4 + x^2 = 0\nTwo solutions on C:\n± 2i\n"
    );
    assert_eq!(
        last(&["x^2 + 2 * x + 2 = 0 ?"]),
        "  2 + 2 * x^1 + x^2 = 0\nTwo solutions on C:\n-1 ± i\n"
    );
    assert_eq!(
        last(&["x^3 = 0 ?"]),
        "  x^3 = 0\nThe polynomial degree is strictly greater than 2, I can't solve.\n"
    );
    assert_eq!(
        last(&["(x + 1) ^ 2 = 0 ?"]),
        "  1 + 2 * x^1 + x^2 = 0\nOnly one solution on R:\n-1\n"
    );
}

#[test]
fn compute_lists_what_the_session_holds() {
    let mut data_base = DataBase::new();
    let mut commands = Commands::new();
    let mut ask = |line: &str, commands: &Commands| {
        let code = line.to_string();
        compute(&code, &mut data_base, commands, &unit)
    };
    assert_eq!(
        ask("variables", &commands),
        Ok(("".to_string(), "No variables defined yet\n".to_string()))
    );
    assert_eq!(
        ask("functions", &commands),
        Ok(("".to_string(), "No functions defined yet\n".to_string()))
    );
    assert_eq!(ask("history", &commands), Ok(("".to_string(), "".to_string())));
    assert_eq!(ask("width = 3", &commands), Ok(("3".to_string(), "  3\n".to_string())));
    commands.push("width = 3".to_string(), "3".to_string());
    assert_eq!(
        ask("twice(v) = 2 v", &commands),
        Ok(("2 * v".to_string(), "  2 * v\n".to_string()))
    );
    commands.push("twice(v) = 2 v".to_string(), "2 * v".to_string());
    assert_eq!(ask("variables", &commands), Ok(("".to_string(), "width: 3\n".to_string())));
    assert_eq!(ask("Functions", &commands), Err("= never appeared: syntax error".to_string()));
    assert_eq!(ask("functions", &commands), Ok(("".to_string(), "twice(v): 2 * v\n".to_string())));
    assert_eq!(
        ask("history", &commands),
        Ok(("".to_string(), "  width = 3: 3\n  twice(v) = 2 v: 2 * v\n".to_string()))
    );
    assert_eq!(ask("sin(0) + cos(0) = ?", &commands), Ok(("1".to_string(), "  1\n".to_string())));
    assert_eq!(ask("twice(width) = ?", &commands), Ok(("6".to_string(), "  6\n".to_string())));
}

#[test]
fn compute_subtracts_in_equations() {
    assert_eq!(last(&["x - 1 = 0 ?"]), "  -1 + x^1 = 0\nSolution:\n1\n");
    assert_eq!(last(&["x = 1 ?"]), "  -1 + x^1 = 0\nSolution:\n1\n");
    assert_eq!(last(&["0 = x - 1 ?"]), "  1 - x^1 = 0\nSolution:\n1\n");
    assert_eq!(last(&["y = 0 - 1", "x + y = 0 ?"]), "  -1 + x^1 = 0\nSolution:\n1\n");
    assert_eq!(last(&["x - (1 - x) = 0 ?"]), "  -1 + 2 * x^1 = 0\nSolution:\n0.5\n");
    assert_eq!(
        last(&["x^2 - 3 * x + 2 = 0 ?"]),
        "  2 - 3 * x^1 + x^2 = 0\nTwo solutions on R:\n2\n1\n"
    );
    assert_eq!(
        last(&["y = 0 - 1", "x + y x = 0 ?"]),
        "  0 = 0\nThe solution is an arbitrary real number.\n"
    );
}

