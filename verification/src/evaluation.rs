use vstd::prelude::*;
use crate::binary_tree::BinaryTree;
use crate::data_base::{builtin_table, lookup, DataView, Store};
use crate::functions::{builtin_template, builtin_value, is_builtin_name, lemma_template_plain};
use crate::num::{
    add_value, checked, div_value, matrix_mul_value, mul_value, pow_value, rem_value, sub_value,
    Value,
};
use crate::operator::Operator;
use crate::parser::{call_free, plain, rank, Expr, Node};
use crate::scalar::{Floats, Scalar};
use crate::syntax::Env;

verus! {

/// A name bound for one evaluation: to a number, to an expression that
/// takes its place, or to nothing yet.
pub type Local = Option<(Seq<char>, Option<DataView>)>;

/// An expression after evaluation, and what it came to: a number, nothing
/// when a free name is left, or a message.
pub struct Evaluated {
    pub tree: Expr,
    pub out: Result<Option<Value>, Seq<char>>,
}

/// An evaluation that went through.
pub open spec fn done(tree: Expr, value: Option<Value>) -> Evaluated {
    Evaluated { tree, out: Ok(value) }
}

/// An evaluation that stopped with a message.
pub open spec fn failed(tree: Expr, message: Seq<char>) -> Evaluated {
    Evaluated { tree, out: Err(message) }
}

/// The real number zero.
pub open spec fn zero() -> Value {
    Value::Float(Scalar { bits: 0 })
}

/// `x op y` on numbers. A group comes to what it holds.
pub open spec fn apply_operator(fl: Floats, op: Operator, x: Value, y: Value) -> Result<
    Value,
    Seq<char>,
> {
    match op {
        Operator::Plus => add_value(fl, x, y),
        Operator::Minus => sub_value(fl, x, y),
        Operator::Mul => mul_value(fl, x, y),
        Operator::Div => div_value(fl, x, y),
        Operator::Rem => rem_value(fl, x, y),
        Operator::Pow => pow_value(fl, x, y),
        Operator::MatrixMul => matrix_mul_value(fl, x, y),
        Operator::Paren => Ok(x),
        Operator::RParen => Err("syntax error"@),
    }
}

/// The number `v` as a group of its own.
pub open spec fn parenthesised(v: Value) -> Expr {
    Expr::node(
        Node::Operator(Operator::Paren),
        Expr::leaf(Node::Num(v)),
        Expr::leaf(Node::Operator(Operator::RParen)),
    )
}

/// The tree with one operand replaced.
pub open spec fn with_operand(t: Expr, operand: Expr, right: bool) -> Expr {
    if right {
        t.with_right(operand)
    } else {
        t.with_left(operand)
    }
}

/// An operator node with a number on one side and an expression that did
/// not reduce on the other, made readable.
///
/// A number that needs no parentheses stays. To the right of `+` or `-` a
/// number that needs its sign reversed is written with the opposite sign
/// and the opposite operator, in a group if it is complex and now follows
/// a `-`. Beside any other operator the number is put in a group.
pub open spec fn readable(t: Expr, v: Value, op: Operator, right: bool) -> Result<Expr, Seq<char>> {
    if !v.needs_paren() {
        Ok(t)
    } else {
        match op {
            Operator::Plus | Operator::Minus => if right && v.needs_sign_reverse() {
                let num = v.sign_reversed();
                if op == Operator::Minus {
                    Ok(
                        Expr::node(
                            Node::Operator(Operator::Plus),
                            t.left_tree(),
                            Expr::leaf(Node::Num(num)),
                        ),
                    )
                } else if num matches Value::Complex(_, z) && !z.same(Scalar { bits: 0 }) {
                    Ok(Expr::node(Node::Operator(Operator::Minus), t.left_tree(), parenthesised(num)))
                } else {
                    Ok(
                        Expr::node(
                            Node::Operator(Operator::Minus),
                            t.left_tree(),
                            Expr::leaf(Node::Num(num)),
                        ),
                    )
                }
            } else {
                Ok(t)
            },
            Operator::Paren | Operator::RParen => Err("syntax error"@),
            _ => Ok(with_operand(t, parenthesised(v), right)),
        }
    }
}

/// What stands for the argument of a call: the number it came to, or the
/// expression that is left of it.
pub open spec fn payload(argument: Evaluated, variable: Seq<char>) -> DataView {
    match argument.out {
        Ok(Some(n)) => DataView::Num(n),
        _ => DataView::Func(argument.tree, variable),
    }
}

/// Evaluates an expression as far as the bound names allow.
///
/// A subtree that comes to a number is replaced by that number; a subtree
/// with a free name stays, with its numbers made readable. A name is
/// looked up in `local` first, then in the store. A call of a built-in
/// function is computed when its argument is a number and kept otherwise;
/// a call of a defined function is replaced by the body with the argument
/// in place of the parameter. Every result of an operator is checked for
/// finiteness. After a failure the tree holds what had been evaluated
/// until then.
///
/// The body of a defined function is looked up at most once on the way
/// down: bodies in a well-formed store call built-in functions only, and
/// the call template of a built-in function holds no call. The two
/// branches that refuse a body or a template of another kind are there to
/// make the definition total.
pub open spec fn calculation(env: Env, t: Expr, local: Local) -> Evaluated
    decreases rank(t), t.size(),
{
    match t {
        BinaryTree::Empty => failed(t, "syntax error"@),
        BinaryTree::NonEmpty(b) => match b.element {
            Node::Num(n) => done(t, Some(n)),
            Node::Dummy => done(t, Some(zero())),
            Node::Variable(name) => {
                if local is Some && local->Some_0.0 == name {
                    match local->Some_0.1 {
                        Some(DataView::Num(n)) => done(t, Some(n)),
                        Some(DataView::Func(f, _)) => done(f, None),
                        None => done(t, None),
                    }
                } else {
                    match env.store.get_num(name) {
                        None => done(t, None),
                        Some(n) => done(Expr::leaf(Node::Num(n)), Some(n)),
                    }
                }
            },
            Node::Func(name) => match env.store.get_builtin_func(name) {
                Some((template, variable)) => {
                    let a = calculation(env, b.left, None);
                    let t1 = t.with_left(a.tree);
                    match a.out {
                        Err(m) => failed(t1, m),
                        Ok(Some(n)) => match builtin_value(env.fl, name, n) {
                            Ok(v) => done(Expr::leaf(Node::Num(v)), Some(v)),
                            Err(m) => failed(t1, m),
                        },
                        Ok(None) => if call_free(template.left_tree()) {
                            let s = calculation(
                                env,
                                template.left_tree(),
                                Some((variable, Some(payload(a, variable)))),
                            );
                            match s.out {
                                Err(m) => failed(t1, m),
                                Ok(None) => done(template.with_left(s.tree), None),
                                Ok(Some(_)) => failed(t1, "syntax error"@),
                            }
                        } else {
                            failed(t1, "syntax error"@)
                        },
                    }
                },
                None => match env.store.get_func(name) {
                    None => done(t, None),
                    Some((body, variable)) => {
                        let a = calculation(env, b.left, None);
                        let t1 = t.with_left(a.tree);
                        match a.out {
                            Err(m) => failed(t1, m),
                            Ok(_) => if plain(body) && !is_builtin_name(name) {
                                let r = calculation(
                                    env,
                                    body,
                                    Some((variable, Some(payload(a, variable)))),
                                );
                                match r.out {
                                    Err(m) => failed(t1, m),
                                    Ok(None) => done(
                                        Expr::node(
                                            Node::Operator(Operator::Paren),
                                            r.tree,
                                            Expr::leaf(Node::Operator(Operator::RParen)),
                                        ),
                                        None,
                                    ),
                                    Ok(Some(n)) => done(Expr::leaf(Node::Num(n)), Some(n)),
                                }
                            } else {
                                failed(t1, "syntax error"@)
                            },
                        }
                    },
                },
            },
            Node::Operator(op) => if op == Operator::RParen {
                done(t, Some(zero()))
            } else if b.left is Empty || b.right is Empty {
                failed(t, "syntax error"@)
            } else {
                let l = calculation(env, b.left, local);
                match l.out {
                    Err(m) => failed(t.with_left(l.tree), m),
                    Ok(x) => {
                        let r = calculation(env, b.right, local);
                        let t1 = Expr::node(Node::Operator(op), l.tree, r.tree);
                        match r.out {
                            Err(m) => failed(t1, m),
                            Ok(y) => {
                                match (x, y) {
                                    (Some(x), Some(y)) => match apply_operator(env.fl, op, x, y) {
                                        Err(m) => failed(t1, m),
                                        Ok(v) => match checked(env.fl, v) {
                                            Err(m) => failed(t1, m),
                                            Ok(_) => done(Expr::leaf(Node::Num(v)), Some(v)),
                                        },
                                    },
                                    (None, Some(y)) => match readable(t1, y, op, true) {
                                        Err(m) => failed(t1, m),
                                        Ok(t2) => done(t2, None),
                                    },
                                    (Some(x), None) => match readable(t1, x, op, false) {
                                        Err(m) => failed(t1, m),
                                        Ok(t2) => done(t2, None),
                                    },
                                    (None, None) => done(t1, None),
                                }
                            },
                        }
                    },
                }
            },
        },
    }
}

} // verus!

verus! {

use crate::data_base::{lemma_builtin_lookup, Data, DataBase};
use crate::functions::builtin_func;
use crate::num::Num;
use crate::parser::{copy_tree, filled, join, leaf, tree_wf, Element, Parser};
use crate::scalar::{floats_of, lawful, Answer, Query};
use crate::tree_builder::env_of;

/// The binding that a local variable stands for.
pub open spec fn local_view(local: Option<(&String, Option<&Data>)>) -> Local {
    match local {
        None => None,
        Some((key, data)) => Some(
            (
                key@,
                match data {
                    None => None,
                    Some(d) => Some(d@),
                },
            ),
        ),
    }
}

/// What a local variable is bound to is well formed.
pub open spec fn local_wf(local: Option<(&String, Option<&Data>)>) -> bool {
    match local {
        Some((_, Some(d))) => d.wf(),
        _ => true,
    }
}

/// The value of an optional number.
pub open spec fn value_of(num: Option<Num>) -> Option<Value> {
    match num {
        None => None,
        Some(n) => Some(n@),
    }
}

/// The tree and the result stand for the evaluation `e`.
pub open spec fn evaluated_as(
    e: Evaluated,
    tree: BinaryTree<Element>,
    out: Result<Option<Num>, String>,
) -> bool {
    &&& tree@ == e.tree
    &&& tree_wf(tree)
    &&& match e.out {
        Err(m) => out is Err && out->Err_0@ == m,
        Ok(v) => out is Ok && value_of(out->Ok_0) == v && (out->Ok_0 matches Some(n) ==> n.wf()),
    }
}

fn syntax_error() -> (text: String)
    ensures
        text@ == "syntax error"@,
{
    String::from_str("syntax error")
}

fn group(value: &Num) -> (tree: BinaryTree<Element>)
    requires
        value.wf(),
    ensures
        tree@ == parenthesised(value@),
        tree_wf(tree),
{
    join(
        Element::Operator(Operator::Paren),
        leaf(Element::Num(value.clone())),
        leaf(Element::Operator(Operator::RParen)),
    )
}

fn operate<F: Fn(Query) -> Answer>(op: Operator, x: &Num, y: &Num, fl: &F) -> (res: Result<
    Num,
    String,
>)
    requires
        x.wf(),
        y.wf(),
        lawful(fl),
    ensures
        crate::num::result_matches(res, apply_operator(floats_of(fl), op, x@, y@)),
{
    match op {
        Operator::Plus => x.supported_add(y, fl),
        Operator::Minus => x.supported_sub(y, fl),
        Operator::Mul => x.supported_mul(y, fl),
        Operator::Div => x.supported_div(y, fl),
        Operator::Rem => x.supported_rem(y, fl),
        Operator::Pow => x.supported_pow(y, fl),
        Operator::Paren => Ok(x.clone()),
        Operator::MatrixMul => x.supported_matrix_mul(y, fl),
        Operator::RParen => Err(syntax_error()),
    }
}

impl Parser {
    /// Evaluates the expression in place as far as the bound names allow,
    /// and gives the number it came to, if it came to one. After a failure
    /// the tree holds what had been evaluated until then.
    pub fn calculation<F: Fn(Query) -> Answer>(
        &self,
        tree: &mut BinaryTree<Element>,
        data_base: &DataBase,
        local_variable: Option<(&String, Option<&Data>)>,
        fl: &F,
    ) -> (res: Result<Option<Num>, String>)
        requires
            tree_wf(*old(tree)),
            data_base.wf(),
            local_wf(local_variable),
            lawful(fl),
        ensures
            evaluated_as(
                calculation(env_of(data_base, fl), old(tree)@, local_view(local_variable)),
                *final(tree),
                res,
            ),
            tree_wf(*final(tree)),
    {
        let mut taken = BinaryTree::Empty;
        std::mem::swap(tree, &mut taken);
        let (next, out) = Self::evaluate(taken, data_base, local_variable, fl);
        *tree = next;
        out
    }

    /// Evaluates an expression and gives it back with its value.
    pub fn evaluate<F: Fn(Query) -> Answer>(
        tree: BinaryTree<Element>,
        data_base: &DataBase,
        local_variable: Option<(&String, Option<&Data>)>,
        fl: &F,
    ) -> (res: (BinaryTree<Element>, Result<Option<Num>, String>))
        requires
            tree_wf(tree),
            data_base.wf(),
            local_wf(local_variable),
            lawful(fl),
        ensures
            evaluated_as(
                calculation(env_of(data_base, fl), tree@, local_view(local_variable)),
                res.0,
                res.1,
            ),
            tree_wf(res.0),
        decreases rank(tree@), tree@.size(), 1nat,
    {
        let b = match tree {
            BinaryTree::Empty => {
                return (BinaryTree::Empty, Err(syntax_error()));
            },
            BinaryTree::NonEmpty(b) => b,
        };
        let node = *b;
        let crate::binary_tree::TreeNode { element, left, right } = node;
        match element {
            Element::Num(n) => {
                let value = n.clone();
                (join(Element::Num(n), left, right), Ok(Some(value)))
            },
            Element::Dummy => (
                join(Element::Dummy, left, right),
                Ok(Some(Num::Float(Scalar::zero_value()))),
            ),
            Element::Variable(name) => Self::evaluate_variable(
                name,
                left,
                right,
                data_base,
                local_variable,
                fl,
            ),
            Element::Func(name) => Self::evaluate_call(name, left, right, data_base, fl),
            Element::Operator(op) => Self::evaluate_operator(
                op,
                left,
                right,
                data_base,
                local_variable,
                fl,
            ),
        }
    }

    fn evaluate_variable<F: Fn(Query) -> Answer>(
        name: Box<String>,
        left: BinaryTree<Element>,
        right: BinaryTree<Element>,
        data_base: &DataBase,
        local_variable: Option<(&String, Option<&Data>)>,
        fl: &F,
    ) -> (res: (BinaryTree<Element>, Result<Option<Num>, String>))
        requires
            tree_wf(left),
            tree_wf(right),
            data_base.wf(),
            local_wf(local_variable),
        ensures
            evaluated_as(
                calculation(
                    env_of(data_base, fl),
                    Expr::node(Node::Variable(name@), left@, right@),
                    local_view(local_variable),
                ),
                res.0,
                res.1,
            ),
            tree_wf(res.0),
    {
        if let Some((key, data)) = local_variable {
            if *key == *name {
                return match data {
                    Some(Data::Num(n)) => (
                        join(Element::Variable(name), left, right),
                        Ok(Some(n.clone())),
                    ),
                    Some(Data::Func(f)) => (copy_tree(&f.0), Ok(None)),
                    None => (join(Element::Variable(name), left, right), Ok(None)),
                };
            }
        }
        match data_base.get_num(&name) {
            None => (join(Element::Variable(name), left, right), Ok(None)),
            Some(num) => (leaf(Element::Num(num.clone())), Ok(Some(num.clone()))),
        }
    }

    fn evaluate_call<F: Fn(Query) -> Answer>(
        name: Box<String>,
        left: BinaryTree<Element>,
        right: BinaryTree<Element>,
        data_base: &DataBase,
        fl: &F,
    ) -> (res: (BinaryTree<Element>, Result<Option<Num>, String>))
        requires
            tree_wf(left),
            tree_wf(right),
            data_base.wf(),
            lawful(fl),
        ensures
            forall|local: Local|
                evaluated_as(
                    #[trigger] calculation(
                        env_of(data_base, fl),
                        Expr::node(Node::Func(name@), left@, right@),
                        local,
                    ),
                    res.0,
                    res.1,
                ),
            tree_wf(res.0),
        decreases
                rank(Expr::node(Node::Func(name@), left@, right@)),
                Expr::node(Node::Func(name@), left@, right@).size(),
                0nat,
    {
        proof {
            lemma_builtin_lookup(name@);
            lemma_template_plain(name@);
        }
        match data_base.get_builtin_func(&name) {
            Some(b) => {
                let variable = b.1.clone();
                let (argument, out) = Self::evaluate(left, data_base, None, fl);
                let value = match out {
                    Err(e) => {
                        return (join(Element::Func(name), argument, right), Err(e));
                    },
                    Ok(v) => v,
                };
                match value {
                    Some(num) => {
                        match builtin_func((*name).clone(), &num, fl) {
                            Ok(v) => (leaf(Element::Num(v.clone())), Ok(Some(v))),
                            Err(e) => (join(Element::Func(name), argument, right), Err(e)),
                        }
                    },
                    None => {
                        let left_value = Data::Func(
                            Box::new((copy_tree(&argument), variable.clone())),
                        );
                        let template = copy_tree(&b.0);
                        match template {
                            BinaryTree::Empty => (
                                join(Element::Func(name), argument, right),
                                Err(syntax_error()),
                            ),
                            BinaryTree::NonEmpty(tb) => {
                                let tn = *tb;
                                let (inner, out) = Self::evaluate(
                                    tn.left,
                                    data_base,
                                    Some((&variable, Some(&left_value))),
                                    fl,
                                );
                                match out {
                                    Err(e) => (join(Element::Func(name), argument, right), Err(e)),
                                    Ok(None) => (join(tn.element, inner, tn.right), Ok(None)),
                                    Ok(Some(_)) => (
                                        join(Element::Func(name), argument, right),
                                        Err(syntax_error()),
                                    ),
                                }
                            },
                        }
                    },
                }
            },
            None => match data_base.get_func(&name) {
                None => (join(Element::Func(name), left, right), Ok(None)),
                Some(b) => {
                    let body = copy_tree(&b.0);
                    let variable = b.1.clone();
                    let (argument, out) = Self::evaluate(left, data_base, None, fl);
                    let left_value = match out {
                        Err(e) => {
                            return (join(Element::Func(name), argument, right), Err(e));
                        },
                        Ok(None) => Data::Func(Box::new((copy_tree(&argument), variable.clone()))),
                        Ok(Some(num)) => Data::Num(num),
                    };
                    let (inner, out) = Self::evaluate(
                        body,
                        data_base,
                        Some((&variable, Some(&left_value))),
                        fl,
                    );
                    match out {
                        Err(e) => (join(Element::Func(name), argument, right), Err(e)),
                        Ok(None) => (
                            join(
                                Element::Operator(Operator::Paren),
                                inner,
                                leaf(Element::Operator(Operator::RParen)),
                            ),
                            Ok(None),
                        ),
                        Ok(Some(num)) => (leaf(Element::Num(num.clone())), Ok(Some(num))),
                    }
                },
            },
        }
    }

    fn evaluate_operator<F: Fn(Query) -> Answer>(
        op: Operator,
        left: BinaryTree<Element>,
        right: BinaryTree<Element>,
        data_base: &DataBase,
        local_variable: Option<(&String, Option<&Data>)>,
        fl: &F,
    ) -> (res: (BinaryTree<Element>, Result<Option<Num>, String>))
        requires
            tree_wf(left),
            tree_wf(right),
            data_base.wf(),
            local_wf(local_variable),
            lawful(fl),
        ensures
            evaluated_as(
                calculation(
                    env_of(data_base, fl),
                    Expr::node(Node::Operator(op), left@, right@),
                    local_view(local_variable),
                ),
                res.0,
                res.1,
            ),
            tree_wf(res.0),
        decreases
                rank(Expr::node(Node::Operator(op), left@, right@)),
                Expr::node(Node::Operator(op), left@, right@).size(),
                0nat,
    {
        if let Operator::RParen = op {
            return (
                join(Element::Operator(op), left, right),
                Ok(Some(Num::Float(Scalar::zero_value()))),
            );
        }
        if !filled(&left) || !filled(&right) {
            return (join(Element::Operator(op), left, right), Err(syntax_error()));
        }
        let (left, out) = Self::evaluate(left, data_base, local_variable, fl);
        let left_value = match out {
            Err(e) => {
                return (join(Element::Operator(op), left, right), Err(e));
            },
            Ok(v) => v,
        };
        let (right, out) = Self::evaluate(right, data_base, local_variable, fl);
        let right_value = match out {
            Err(e) => {
                return (join(Element::Operator(op), left, right), Err(e));
            },
            Ok(v) => v,
        };
        match (left_value, right_value) {
            (Some(x), Some(y)) => {
                let value = match operate(op, &x, &y, fl) {
                    Ok(v) => v,
                    Err(e) => {
                        return (join(Element::Operator(op), left, right), Err(e));
                    },
                };
                match value.checked_value(fl) {
                    Err(e) => {
                        return (join(Element::Operator(op), left, right), Err(e));
                    },
                    Ok(_) => {},
                }
                (leaf(Element::Num(value.clone())), Ok(Some(value)))
            },
            (None, Some(y)) => {
                let (t, out) = Self::check_and_add_paren_to_value(left, right, &y, op, true);
                match out {
                    Ok(_) => (t, Ok(None)),
                    Err(e) => (t, Err(e)),
                }
            },
            (Some(x), None) => {
                let (t, out) = Self::check_and_add_paren_to_value(left, right, &x, op, false);
                match out {
                    Ok(_) => (t, Ok(None)),
                    Err(e) => (t, Err(e)),
                }
            },
            (None, None) => (join(Element::Operator(op), left, right), Ok(None)),
        }
    }

    /// Puts the number `value`, as a group of its own, in the place of the
    /// right or the left operand of a tree that has a root.
    pub fn add_paren_to_value(tree: &mut BinaryTree<Element>, value: &Num, right: bool)
        requires
            tree_wf(*old(tree)),
            old(tree)@ is NonEmpty,
            value.wf(),
        ensures
            final(tree)@ == with_operand(old(tree)@, parenthesised(value@), right),
            tree_wf(*final(tree)),
    {
        let mut taken = BinaryTree::Empty;
        std::mem::swap(tree, &mut taken);
        match taken {
            BinaryTree::Empty => {},
            BinaryTree::NonEmpty(b) => {
                let node = *b;
                if right {
                    *tree = join(node.element, node.left, group(value));
                } else {
                    *tree = join(node.element, group(value), node.right);
                }
            },
        }
    }

    /// Makes an operator node readable whose one operand is the number
    /// `value` and whose other operand did not reduce. A grouping node is
    /// refused and given back as it is.
    fn check_and_add_paren_to_value(
        left: BinaryTree<Element>,
        right: BinaryTree<Element>,
        value: &Num,
        op: Operator,
        on_right: bool,
    ) -> (res: (BinaryTree<Element>, Result<(), String>))
        requires
            tree_wf(left),
            tree_wf(right),
            value.wf(),
        ensures
            tree_wf(res.0),
            match readable(Expr::node(Node::Operator(op), left@, right@), value@, op, on_right) {
                Ok(t) => res.1 is Ok && res.0@ == t,
                Err(m) => res.1 is Err && res.1->Err_0@ == m && res.0@ == Expr::node(
                    Node::Operator(op),
                    left@,
                    right@,
                ),
            },
    {
        if !value.is_need_paren_to_display() {
            return (join(Element::Operator(op), left, right), Ok(()));
        }
        let tree = match op {
            Operator::Minus | Operator::Plus => {
                if on_right && value.is_need_sign_reverse() {
                    let num = value.reverse_sign();
                    if let Operator::Minus = op {
                        join(Element::Operator(Operator::Plus), left, leaf(Element::Num(num)))
                    } else {
                        let wrap = match &num {
                            Num::Complex(n) => n.z != Scalar::zero_value(),
                            Num::Float(_) | Num::Matrix(_) => false,
                        };
                        if wrap {
                            let mut tree = join(Element::Operator(Operator::Minus), left, right);
                            Self::add_paren_to_value(&mut tree, &num, on_right);
                            tree
                        } else {
                            join(Element::Operator(Operator::Minus), left, leaf(Element::Num(num)))
                        }
                    }
                } else {
                    join(Element::Operator(op), left, right)
                }
            },
            Operator::Mul
            | Operator::Div
            | Operator::Rem
            | Operator::Pow
            | Operator::MatrixMul => {
                let mut tree = join(Element::Operator(op), left, right);
                Self::add_paren_to_value(&mut tree, value, on_right);
                tree
            },
            Operator::Paren | Operator::RParen => {
                return (join(Element::Operator(op), left, right), Err(syntax_error()));
            },
        };
        (tree, Ok(()))
    }
}

} // verus!

verus! {

/// Evaluating a number changes nothing and gives the number, whatever is
/// bound.
pub proof fn lemma_number_is_evaluated(env: Env, v: Value, local: Local)
    ensures
        calculation(env, Expr::leaf(Node::Num(v)), local) == done(
            Expr::leaf(Node::Num(v)),
            Some(v),
        ),
{
}

/// Evaluation is idempotent: where an expression came to a number,
/// evaluating what it left again changes nothing and gives the same
/// number.
pub proof fn lemma_evaluation_idempotent(env: Env, t: Expr, local: Local)
    requires
        calculation(env, t, local).out is Ok,
        calculation(env, t, local).out->Ok_0 is Some,
    ensures
        calculation(env, calculation(env, t, local).tree, local) == calculation(env, t, local),
{
    let e = calculation(env, t, local);
    lemma_number_is_evaluated(env, e.out->Ok_0->Some_0, local);
}

/// What comes to a number is replaced by it: after the evaluation of a
/// call, of a name that the store binds, or of an operator other than the
/// sentinel that closes a group, the tree is the number and nothing else.
/// A number, the placeholder of a sign, the sentinel and a name that is
/// bound for this evaluation stay as they are.
pub proof fn lemma_value_replaces_tree(env: Env, t: Expr, local: Local)
    requires
        calculation(env, t, local).out is Ok,
        calculation(env, t, local).out->Ok_0 is Some,
        t is NonEmpty,
    ensures
        match t.root() {
            Node::Num(_) | Node::Dummy => calculation(env, t, local).tree == t,
            Node::Operator(op) => if op == Operator::RParen {
                calculation(env, t, local).tree == t
            } else {
                calculation(env, t, local).tree == Expr::leaf(
                    Node::Num(calculation(env, t, local).out->Ok_0->Some_0),
                )
            },
            Node::Variable(name) => if local is Some && local->Some_0.0 == name {
                calculation(env, t, local).tree == t
            } else {
                calculation(env, t, local).tree == Expr::leaf(
                    Node::Num(calculation(env, t, local).out->Ok_0->Some_0),
                )
            },
            Node::Func(_) => calculation(env, t, local).tree == Expr::leaf(
                Node::Num(calculation(env, t, local).out->Ok_0->Some_0),
            ),
        },
{
}

/// An operator between two numbers is folded: the result is the number
/// that the operator gives, in place of the node.
pub proof fn lemma_operator_folds(env: Env, op: Operator, x: Value, y: Value, local: Local)
    requires
        op != Operator::RParen,
        apply_operator(env.fl, op, x, y) is Ok,
        apply_operator(env.fl, op, x, y)->Ok_0.first_bad() is None,
    ensures
        calculation(
            env,
            Expr::node(Node::Operator(op), Expr::leaf(Node::Num(x)), Expr::leaf(Node::Num(y))),
            local,
        ) == done(
            Expr::leaf(Node::Num(apply_operator(env.fl, op, x, y)->Ok_0)),
            Some(apply_operator(env.fl, op, x, y)->Ok_0),
        ),
{
    lemma_number_is_evaluated(env, x, local);
    lemma_number_is_evaluated(env, y, local);
    let t = Expr::node(Node::Operator(op), Expr::leaf(Node::Num(x)), Expr::leaf(Node::Num(y)));
    assert(t.left_tree() == Expr::leaf(Node::Num(x)));
    assert(t.right_tree() == Expr::leaf(Node::Num(y)));
}

/// Finiteness is checked after every operation: where an operator between
/// two numbers gives a result with a component that is infinite or NaN,
/// evaluation fails with the message that names the first such component.
pub proof fn lemma_not_finite_fails(env: Env, op: Operator, x: Value, y: Value, local: Local)
    requires
        op != Operator::RParen,
        apply_operator(env.fl, op, x, y) is Ok,
        apply_operator(env.fl, op, x, y)->Ok_0.first_bad() is Some,
    ensures
        calculation(
            env,
            Expr::node(Node::Operator(op), Expr::leaf(Node::Num(x)), Expr::leaf(Node::Num(y))),
            local,
        ).out == Err::<Option<Value>, Seq<char>>(
            crate::matrix::not_finite_message(
                env.fl,
                apply_operator(env.fl, op, x, y)->Ok_0.first_bad()->Some_0,
            ),
        ),
{
    lemma_number_is_evaluated(env, x, local);
    lemma_number_is_evaluated(env, y, local);
    let t = Expr::node(Node::Operator(op), Expr::leaf(Node::Num(x)), Expr::leaf(Node::Num(y)));
    assert(t.left_tree() == Expr::leaf(Node::Num(x)));
    assert(t.right_tree() == Expr::leaf(Node::Num(y)));
}

} // verus!
