use vstd::prelude::*;
use crate::binary_tree::BinaryTree;
use crate::num::value_text;
use crate::operator::Operator;
use crate::parser::{filled, tree_wf, Element, Expr, Node, Parser};
use crate::scalar::{floats_of, lawful, Answer, Floats, Query};
use crate::text::pop_char;

verus! {

/// The tokens of an expression in infix order, each followed by a space.
///
/// A group is written between `( ` and `) `, a call as its name and its
/// argument, a placeholder as nothing. An operator needs both operands and
/// a call its argument; the empty tree cannot be written.
pub open spec fn spaced_text(fl: Floats, t: Expr) -> Result<Seq<char>, Seq<char>>
    decreases t,
{
    match t {
        BinaryTree::Empty => Err("syntax error"@),
        BinaryTree::NonEmpty(b) => match b.element {
            Node::Operator(op) => if op == Operator::RParen {
                Ok(") "@)
            } else if b.left is Empty || b.right is Empty {
                Err("syntax error"@)
            } else {
                match spaced_text(fl, b.left) {
                    Err(m) => Err(m),
                    Ok(l) => match spaced_text(fl, b.right) {
                        Err(m) => Err(m),
                        Ok(r) => if op == Operator::Paren {
                            Ok("( "@ + l + r)
                        } else {
                            Ok(l + op.symbol() + " "@ + r)
                        },
                    },
                }
            },
            Node::Num(n) => Ok(value_text(fl, n) + " "@),
            Node::Dummy => Ok(Seq::empty()),
            Node::Variable(v) => Ok(v + " "@),
            Node::Func(f) => if b.left is Empty {
                Err("syntax error"@)
            } else {
                match spaced_text(fl, b.left) {
                    Err(m) => Err(m),
                    Ok(l) => Ok(f + " "@ + l),
                }
            },
        },
    }
}

/// An expression as the user reads it: its tokens with single spaces
/// between them.
pub open spec fn tree_text(fl: Floats, t: Expr) -> Result<Seq<char>, Seq<char>> {
    match spaced_text(fl, t) {
        Err(m) => Err(m),
        Ok(s) => if s.len() > 0 {
            Ok(s.drop_last())
        } else {
            Ok(s)
        },
    }
}

/// The message for two different free names.
pub open spec fn two_variables(a: Seq<char>, b: Seq<char>) -> Seq<char> {
    a + ", "@ + b + ": error two variable"@
}

/// The one free name of two findings, if they agree.
pub open spec fn agreed(a: Option<Seq<char>>, b: Option<Seq<char>>) -> Result<
    Option<Seq<char>>,
    (Seq<char>, Seq<char>),
> {
    match (a, b) {
        (Some(x), Some(y)) => if x != y {
            Err((x, y))
        } else {
            Ok(Some(x))
        },
        (Some(x), None) => Ok(Some(x)),
        (None, Some(y)) => Ok(Some(y)),
        (None, None) => Ok(None),
    }
}

/// The name of the free variable of an expression, if it has one. Two
/// different names and any call are errors. The subtrees are searched
/// first, the left one before the right one.
pub open spec fn free_variable(t: Expr) -> Result<Option<Seq<char>>, Seq<char>>
    decreases t,
{
    match t {
        BinaryTree::Empty => Ok(None),
        BinaryTree::NonEmpty(b) => match free_variable(b.left) {
            Err(m) => Err(m),
            Ok(left) => match free_variable(b.right) {
                Err(m) => Err(m),
                Ok(right) => match agreed(left, right) {
                    Err((x, y)) => Err(two_variables(x, y)),
                    Ok(below) => match b.element {
                        Node::Func(v) => Err(v + ": error function"@),
                        Node::Variable(v) => match agreed(Some(v), below) {
                            Err((x, y)) => Err(two_variables(x, y)),
                            Ok(found) => Ok(found),
                        },
                        _ => Ok(below),
                    },
                },
            },
        },
    }
}

fn two_variables_message(a: &String, b: &String) -> (text: String)
    ensures
        text@ == two_variables(a@, b@),
{
    let mut text = a.clone();
    text.append(", ");
    text.append(b.as_str());
    text.append(": error two variable");
    text
}

impl Parser {
    /// The expression as text, with single spaces between its tokens.
    pub fn print_tree<F: Fn(Query) -> Answer>(tree: &BinaryTree<Element>, fl: &F) -> (res: Result<
        String,
        String,
    >)
        requires
            tree_wf(*tree),
            lawful(fl),
        ensures
            match tree_text(floats_of(fl), tree@) {
                Ok(s) => res is Ok && res->Ok_0@ == s,
                Err(m) => res is Err && res->Err_0@ == m,
            },
    {
        let mut expr = String::new();
        match Self::print_tree_loop(tree, &mut expr, fl) {
            Err(e) => Err(e),
            Ok(_) => {
                assert(Seq::<char>::empty() + spaced_text(floats_of(fl), tree@)->Ok_0
                    =~= spaced_text(floats_of(fl), tree@)->Ok_0);
                pop_char(&mut expr);
                Ok(expr)
            },
        }
    }

    /// Appends the tokens of the expression to `expr`, each followed by a
    /// space.
    pub fn print_tree_loop<F: Fn(Query) -> Answer>(
        tree: &BinaryTree<Element>,
        expr: &mut String,
        fl: &F,
    ) -> (res: Result<(), String>)
        requires
            tree_wf(*tree),
            lawful(fl),
        ensures
            match spaced_text(floats_of(fl), tree@) {
                Ok(s) => res is Ok && final(expr)@ == old(expr)@ + s,
                Err(m) => res is Err && res->Err_0@ == m,
            },
        decreases *tree,
    {
        let ghost f = floats_of(fl);
        let ghost start = expr@;
        match tree {
            BinaryTree::Empty => {
                return Err(String::from_str("syntax error"));
            },
            BinaryTree::NonEmpty(node_box) => {
                match &node_box.element {
                    Element::Operator(op) => {
                        if let Operator::RParen = op {
                            expr.append(") ");
                            return Ok(());
                        }
                        if !filled(&node_box.left) || !filled(&node_box.right) {
                            return Err(String::from_str("syntax error"));
                        }
                        if let Operator::Paren = op {
                            expr.append("( ");
                        }
                        match Self::print_tree_loop(&node_box.left, expr, fl) {
                            Err(e) => {
                                return Err(e);
                            },
                            Ok(_) => {},
                        }
                        match op {
                            Operator::RParen | Operator::Paren => {},
                            _ => {
                                let symbol = op.to_string();
                                expr.append(symbol.as_str());
                                expr.append(" ");
                            },
                        }
                        match Self::print_tree_loop(&node_box.right, expr, fl) {
                            Err(e) => {
                                return Err(e);
                            },
                            Ok(_) => {},
                        }
                        proof {
                            let l = spaced_text(f, node_box.left@)->Ok_0;
                            let r = spaced_text(f, node_box.right@)->Ok_0;
                            if *op == Operator::Paren {
                                assert(expr@ =~= start + ("( "@ + l + r));
                            } else {
                                assert(expr@ =~= start + (l + op.symbol() + " "@ + r));
                            }
                        }
                    },
                    Element::Num(n) => {
                        let text = n.to_string(fl);
                        expr.append(text.as_str());
                        expr.append(" ");
                        assert(expr@ =~= start + (value_text(f, n@) + " "@));
                    },
                    Element::Dummy => {
                        assert(expr@ =~= start + Seq::<char>::empty());
                    },
                    Element::Variable(v) => {
                        expr.append(v.as_str());
                        expr.append(" ");
                        assert(expr@ =~= start + (v@ + " "@));
                    },
                    Element::Func(name) => {
                        if !filled(&node_box.left) {
                            return Err(String::from_str("syntax error"));
                        }
                        expr.append(name.as_str());
                        expr.append(" ");
                        match Self::print_tree_loop(&node_box.left, expr, fl) {
                            Err(e) => {
                                return Err(e);
                            },
                            Ok(_) => {},
                        }
                        proof {
                            let l = spaced_text(f, node_box.left@)->Ok_0;
                            assert(expr@ =~= start + (name@ + " "@ + l));
                        }
                    },
                }
            },
        }
        Ok(())
    }

    /// The name of the free variable of the expression, if it has one.
    pub fn check_variable_in_tree(tree: &BinaryTree<Element>) -> (res: Result<
        Option<String>,
        String,
    >)
        ensures
            match free_variable(tree@) {
                Ok(Some(v)) => res is Ok && res->Ok_0 is Some && res->Ok_0->Some_0@ == v,
                Ok(None) => res is Ok && res->Ok_0 is None,
                Err(m) => res is Err && res->Err_0@ == m,
            },
        decreases *tree,
    {
        match tree {
            BinaryTree::Empty => Ok(None),
            BinaryTree::NonEmpty(node_box) => {
                let left = match Self::check_variable_in_tree(&node_box.left) {
                    Ok(v) => v,
                    Err(e) => {
                        return Err(e);
                    },
                };
                let right = match Self::check_variable_in_tree(&node_box.right) {
                    Ok(v) => v,
                    Err(e) => {
                        return Err(e);
                    },
                };
                let variable = match (left, right) {
                    (Some(left_variable), Some(right_variable)) => {
                        if left_variable != right_variable {
                            return Err(two_variables_message(&left_variable, &right_variable));
                        }
                        Some(left_variable)
                    },
                    (Some(left_variable), None) => Some(left_variable),
                    (None, Some(right_variable)) => Some(right_variable),
                    (None, None) => None,
                };
                match &node_box.element {
                    Element::Dummy | Element::Num(_) | Element::Operator(_) => Ok(variable),
                    Element::Func(v) => {
                        let mut text = (**v).clone();
                        text.append(": error function");
                        Err(text)
                    },
                    Element::Variable(v) => match variable {
                        Some(below) => {
                            if **v != below {
                                return Err(two_variables_message(v, &below));
                            }
                            Ok(Some(below))
                        },
                        None => Ok(Some((**v).clone())),
                    },
                }
            },
        }
    }
}

} // verus!
