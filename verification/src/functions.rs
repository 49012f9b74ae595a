use vstd::prelude::*;
use crate::binary_tree::BinaryTree;
use crate::matrix::not_finite_message;
use crate::num::{checked, collapse, Num, Value};
use crate::operator::Operator;
use crate::parser::{join, leaf, plain, tree_wf, Element, Expr, Node};
use crate::scalar::{apply, floats_of, lawful, Answer, FloatOp, Floats, Query, Scalar};

verus! {

/// The tree `name ( x )`: what a call of a built-in function looks like
/// before its argument is known.
pub open spec fn builtin_template(name: Seq<char>) -> Expr {
    Expr::node(
        Node::Func(name),
        Expr::node(
            Node::Operator(Operator::Paren),
            Expr::leaf(Node::Variable("x"@)),
            Expr::leaf(Node::Operator(Operator::RParen)),
        ),
        Expr::leaf(Node::Operator(Operator::RParen)),
    )
}

/// A call template calls the function it is for, and nothing else.
pub proof fn lemma_template_plain(name: Seq<char>)
    ensures
        plain(builtin_template(name)) == is_builtin_name(name),
        crate::parser::call_free(builtin_template(name).left_tree()),
{
    reveal_with_fuel(plain, 4);
    reveal_with_fuel(crate::parser::call_free, 4);
}

/// The body and the parameter under which a built-in function is stored.
pub fn make_builtin_func_box(func_name: String) -> (b: Box<(BinaryTree<Element>, String)>)
    ensures
        b.0@ == builtin_template(func_name@),
        b.1@ == "x"@,
        tree_wf(b.0),
        plain(b.0@) == is_builtin_name(func_name@),
{
    let variable = leaf(Element::Variable(Box::new(String::from_str("x"))));
    let close = leaf(Element::Operator(Operator::RParen));
    let paren = join(Element::Operator(Operator::Paren), variable, close);
    let end = leaf(Element::Operator(Operator::RParen));
    let tree = join(Element::Func(Box::new(func_name)), paren, end);
    proof {
        lemma_template_plain(func_name@);
    }
    Box::new((tree, String::from_str("x")))
}

/// The operation behind the name of a built-in function.
pub open spec fn builtin_op(name: Seq<char>) -> Option<FloatOp> {
    if name == "exp"@ {
        Some(FloatOp::Exp)
    } else if name == "sqrt"@ {
        Some(FloatOp::Sqrt)
    } else if name == "abs"@ {
        None
    } else if name == "sin"@ {
        Some(FloatOp::Sin)
    } else if name == "cos"@ {
        Some(FloatOp::Cos)
    } else if name == "tan"@ {
        Some(FloatOp::Tan)
    } else {
        None
    }
}

/// The names of the built-in functions.
pub open spec fn is_builtin_name(name: Seq<char>) -> bool {
    name == "exp"@ || name == "sqrt"@ || name == "abs"@ || name == "sin"@ || name == "cos"@
        || name == "tan"@
}

/// What a built-in function comes to on a number, before the finiteness
/// check. Only reals are taken. The square root of a negative real is
/// imaginary; the absolute value is read off the bits.
pub open spec fn builtin_raw(fl: Floats, name: Seq<char>, v: Value) -> Result<Value, Seq<char>> {
    if !is_builtin_name(name) {
        Err("error: unsupported "@ + name)
    } else {
        match v {
            Value::Float(n) => {
                if name == "abs"@ {
                    Ok(Value::Float(n.absolute()))
                } else if name == "sqrt"@ && n.negative() && !n.zero() {
                    Ok(
                        collapse(
                            Scalar { bits: 0 },
                            (fl.apply)(FloatOp::Sqrt, n.absolute(), Scalar { bits: 0 }),
                        ),
                    )
                } else {
                    Ok(Value::Float((fl.apply)(builtin_op(name)->Some_0, n, Scalar { bits: 0 })))
                }
            },
            _ => Err("error: unsupported non float "@ + name),
        }
    }
}

/// What a built-in function comes to on a number: `builtin_raw`, then the
/// finiteness check.
pub open spec fn builtin_value(fl: Floats, name: Seq<char>, v: Value) -> Result<Value, Seq<char>> {
    match builtin_raw(fl, name, v) {
        Ok(r) => checked(fl, r),
        Err(m) => Err(m),
    }
}

fn unsupported_non_float(name: &str) -> (text: String)
    ensures
        text@ == "error: unsupported non float "@ + name@,
{
    let mut text = String::from_str("error: unsupported non float ");
    text.append(name);
    text
}

fn exp<F: Fn(Query) -> Answer>(num: &Num, fl: &F) -> (res: Result<Num, String>)
    requires
        lawful(fl),
    ensures
        crate::num::result_matches(res, builtin_raw(floats_of(fl), "exp"@, num@)),
{
    proof {
        lemma_names_differ();
    }
    match num {
        Num::Float(n) => Ok(Num::Float(apply(fl, FloatOp::Exp, *n, Scalar::zero_value()))),
        _ => Err(unsupported_non_float("exp")),
    }
}

fn sqrt<F: Fn(Query) -> Answer>(num: &Num, fl: &F) -> (res: Result<Num, String>)
    requires
        lawful(fl),
    ensures
        crate::num::result_matches(res, builtin_raw(floats_of(fl), "sqrt"@, num@)),
{
    proof {
        lemma_names_differ();
    }
    match num {
        Num::Float(n) => {
            if n.is_sign_positive() || n.is_zero() {
                Ok(Num::Float(apply(fl, FloatOp::Sqrt, *n, Scalar::zero_value())))
            } else {
                Ok(
                    Num::from_two_float(
                        Scalar::zero_value(),
                        apply(fl, FloatOp::Sqrt, n.abs(), Scalar::zero_value()),
                    ),
                )
            }
        },
        _ => Err(unsupported_non_float("sqrt")),
    }
}

fn abs<F: Fn(Query) -> Answer>(num: &Num, fl: &F) -> (res: Result<Num, String>)
    requires
        lawful(fl),
    ensures
        crate::num::result_matches(res, builtin_raw(floats_of(fl), "abs"@, num@)),
{
    match num {
        Num::Float(n) => Ok(Num::Float(n.abs())),
        _ => Err(unsupported_non_float("abs")),
    }
}

fn sin<F: Fn(Query) -> Answer>(num: &Num, fl: &F) -> (res: Result<Num, String>)
    requires
        lawful(fl),
    ensures
        crate::num::result_matches(res, builtin_raw(floats_of(fl), "sin"@, num@)),
{
    proof {
        lemma_names_differ();
    }
    match num {
        Num::Float(n) => Ok(Num::Float(apply(fl, FloatOp::Sin, *n, Scalar::zero_value()))),
        _ => Err(unsupported_non_float("sin")),
    }
}

fn cos<F: Fn(Query) -> Answer>(num: &Num, fl: &F) -> (res: Result<Num, String>)
    requires
        lawful(fl),
    ensures
        crate::num::result_matches(res, builtin_raw(floats_of(fl), "cos"@, num@)),
{
    proof {
        lemma_names_differ();
    }
    match num {
        Num::Float(n) => Ok(Num::Float(apply(fl, FloatOp::Cos, *n, Scalar::zero_value()))),
        _ => Err(unsupported_non_float("cos")),
    }
}

fn tan<F: Fn(Query) -> Answer>(num: &Num, fl: &F) -> (res: Result<Num, String>)
    requires
        lawful(fl),
    ensures
        crate::num::result_matches(res, builtin_raw(floats_of(fl), "tan"@, num@)),
{
    proof {
        lemma_names_differ();
    }
    match num {
        Num::Float(n) => Ok(Num::Float(apply(fl, FloatOp::Tan, *n, Scalar::zero_value()))),
        _ => Err(unsupported_non_float("tan")),
    }
}

/// The six names are six different texts.
pub proof fn lemma_names_differ()
    ensures
        "exp"@ != "sqrt"@,
        "exp"@ != "abs"@,
        "exp"@ != "sin"@,
        "exp"@ != "cos"@,
        "exp"@ != "tan"@,
        "sqrt"@ != "abs"@,
        "sqrt"@ != "sin"@,
        "sqrt"@ != "cos"@,
        "sqrt"@ != "tan"@,
        "abs"@ != "sin"@,
        "abs"@ != "cos"@,
        "abs"@ != "tan"@,
        "sin"@ != "cos"@,
        "sin"@ != "tan"@,
        "cos"@ != "tan"@,
{
    reveal_strlit("exp");
    reveal_strlit("sqrt");
    reveal_strlit("abs");
    reveal_strlit("sin");
    reveal_strlit("cos");
    reveal_strlit("tan");
    assert("exp"@[0] == 'e');
    assert("sqrt"@.len() == 4);
    assert("abs"@[0] == 'a');
    assert("sin"@[0] == 's');
    assert("sin"@[1] == 'i');
    assert("cos"@[0] == 'c');
    assert("tan"@[0] == 't');
}

/// Applies the built-in function `func_name` to a number and checks that
/// the result is finite.
pub fn builtin_func<F: Fn(Query) -> Answer>(func_name: String, num: &Num, fl: &F) -> (res: Result<
    Num,
    String,
>)
    requires
        lawful(fl),
        num.wf(),
    ensures
        crate::num::result_matches(res, builtin_value(floats_of(fl), func_name@, num@)),
{
    let name = func_name.as_str();
    let n = if str_is(name, "exp") {
        exp(num, fl)
    } else if str_is(name, "sqrt") {
        sqrt(num, fl)
    } else if str_is(name, "abs") {
        abs(num, fl)
    } else if str_is(name, "sin") {
        sin(num, fl)
    } else if str_is(name, "cos") {
        cos(num, fl)
    } else if str_is(name, "tan") {
        tan(num, fl)
    } else {
        let mut text = String::from_str("error: unsupported ");
        text.append(name);
        return Err(text);
    };
    match n {
        Err(e) => Err(e),
        Ok(n) => match n.checked_value(fl) {
            Err(e) => Err(e),
            Ok(_) => Ok(n),
        },
    }
}

/// Whether two texts are the same.
pub fn str_is(a: &str, b: &str) -> (same: bool)
    ensures
        same == (a@ == b@),
{
    let x = String::from_str(a);
    let y = String::from_str(b);
    x == y
}

} // verus!
