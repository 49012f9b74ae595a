use vstd::prelude::*;
use crate::binary_tree::BinaryTree;
use crate::lexer::Lexeme;
use crate::matrix::Grid;
use crate::operator::Operator;
use crate::parser::{literal_value, Expr, Node};
use crate::scalar::{Floats, Scalar};
use crate::syntax::{
    add_function, add_matrix, add_operand, add_operator, add_paren, close_call, close_group,
    closed, closing, go, inv, lemma_function, lemma_matrix_literal, lemma_next, lemma_operator,
    lemma_paren, lemma_root, lemma_row_entries, lemma_rows, lemma_search, lemma_while,
    lemma_work_forward, lemma_work_with_mul, make_tree, matrix_literal, next_token, operator_of,
    placed, placed_step, root_step, root_tree_loop, rotated, row_entries, rows, run_step,
    search_add_point, search_step, settled, slot_of, starter, steady, token_step, under,
    unit_leaf, while_next_token, work, Cursor, Env, Outcome, Parsed, Slot,
};

verus! {

/// The cursor with more tokens behind those it has.
pub open spec fn extended(c: Cursor, s: Seq<Lexeme>) -> Cursor {
    Cursor { tokens: c.tokens + s, index: c.index }
}

/// A step with more tokens behind those of its cursor.
pub open spec fn extended_step(r: Parsed, s: Seq<Lexeme>) -> Parsed {
    Parsed { cursor: extended(r.cursor, s), tree: r.tree, out: r.out }
}

/// The step did not fail and did not reach the end of the tokens.
pub open spec fn stays(r: Parsed) -> bool {
    !(r.out is Fail) && r.cursor.valid() && !r.cursor.at_end()
}

/// Before the end of its tokens, a cursor reads the same with more tokens
/// behind them.
pub proof fn lemma_extended(c: Cursor, s: Seq<Lexeme>)
    requires
        c.valid(),
        !c.at_end(),
    ensures
        extended(c, s).valid(),
        !extended(c, s).at_end(),
        extended(c, s).peek() == c.peek(),
        extended(c, s).advance() == extended(c.advance(), s),
        extended(c, s).with_mul() == extended(c.with_mul(), s),
        c.index > 0 ==> extended(c, s).tokens[c.index - 1] == c.tokens[c.index - 1],
        forall|t: Expr| inv(extended(c, s), t) == inv(c, t),
        extended(c, s).mul_before_operand() == extended(c.mul_before_operand(), s),
{
    assert((c.tokens + s).insert(c.index, Lexeme::Asterisk) =~= c.tokens.insert(
        c.index,
        Lexeme::Asterisk,
    ) + s);
}

proof fn lemma_row_entries_extended(fl: Floats, c: Cursor, acc: Seq<Scalar>, s: Seq<Lexeme>)
    requires
        c.valid(),
        row_entries(fl, c, acc) is Ok,
        !row_entries(fl, c, acc)->Ok_0.0.at_end(),
    ensures
        row_entries(fl, extended(c, s), acc) == Ok::<(Cursor, Seq<Scalar>), Seq<char>>(
            (extended(row_entries(fl, c, acc)->Ok_0.0, s), row_entries(fl, c, acc)->Ok_0.1),
        ),
    decreases c.tokens.len() - c.index,
{
    lemma_extended(c, s);
    let x = literal_value(fl, c.peek()->Some_0)->Ok_0;
    let c1 = c.advance();
    lemma_extended(c1, s);
    if c1.peek() == Some(Lexeme::Comma) {
        lemma_row_entries_extended(fl, c1.advance(), acc.push(x), s);
        lemma_row_entries(fl, c1.advance(), acc.push(x));
    }
}

proof fn lemma_rows_extended(fl: Floats, c: Cursor, acc: Grid, s: Seq<Lexeme>)
    requires
        c.valid(),
        rows(fl, c, acc) is Ok,
        !rows(fl, c, acc)->Ok_0.0.at_end(),
    ensures
        rows(fl, extended(c, s), acc) == Ok::<(Cursor, Grid), Seq<char>>(
            (extended(rows(fl, c, acc)->Ok_0.0, s), rows(fl, c, acc)->Ok_0.1),
        ),
    decreases c.tokens.len() - c.index,
{
    lemma_extended(c, s);
    lemma_row_entries(fl, c.advance(), Seq::empty());
    let (c1, row) = row_entries(fl, c.advance(), Seq::empty())->Ok_0;
    lemma_row_entries_extended(fl, c.advance(), Seq::empty(), s);
    lemma_extended(c1, s);
    let c2 = c1.advance();
    if c2.peek() == Some(Lexeme::SemiColon) {
        lemma_extended(c2, s);
        lemma_rows_extended(fl, c2.advance(), acc.push(row), s);
    } else {
        lemma_extended(c2, s);
    }
}

/// A matrix literal reads the same with more tokens behind it.
pub proof fn lemma_matrix_literal_extended(fl: Floats, c: Cursor, s: Seq<Lexeme>)
    requires
        c.valid(),
        !c.at_end(),
        matrix_literal(fl, c) is Ok,
    ensures
        matrix_literal(fl, extended(c, s)) == Ok::<(Cursor, Grid), Seq<char>>(
            (extended(matrix_literal(fl, c)->Ok_0.0, s), matrix_literal(fl, c)->Ok_0.1),
        ),
{
    lemma_extended(c, s);
    lemma_rows(fl, c.advance(), Seq::empty());
    let (c1, g) = rows(fl, c.advance(), Seq::empty())->Ok_0;
    lemma_rows_extended(fl, c.advance(), Seq::empty(), s);
    lemma_extended(c1, s);
}

/// A group that stops before the end of the tokens is parsed the same with
/// more tokens behind them.
pub proof fn lemma_root_extended(env: Env, c: Cursor, t: Expr, s: Seq<Lexeme>)
    requires
        inv(c, t),
        stays(root_tree_loop(env, c, t)),
    ensures
        root_tree_loop(env, extended(c, s), t) == extended_step(root_tree_loop(env, c, t), s),
    decreases work(c), t.size(), 5nat,
{
    lemma_extended(c, s);
    lemma_search(env, c, t);
    lemma_search(env, extended(c, s), t);
    let r = search_add_point(env, c, t);
    assert(!(r.out is Fail));
    if r.cursor.at_end() {
        assert(root_tree_loop(env, r.cursor, r.tree) == go(r.cursor, r.tree));
        assert(root_tree_loop(env, c, t) == go(r.cursor, r.tree));
    } else {
        lemma_search_extended(env, c, t, s);
        lemma_extended(r.cursor, s);
        let re = search_add_point(env, extended(c, s), t);
        assert(re == extended_step(r, s));
        if r.cursor.peek() == Some(Lexeme::RParen) {
            assert(root_tree_loop(env, c, t) == r);
            assert(root_tree_loop(env, extended(c, s), t) == re);
        } else {
            lemma_root_extended(env, r.cursor, r.tree, s);
            assert(root_tree_loop(env, c, t) == root_tree_loop(env, r.cursor, r.tree));
            assert(root_tree_loop(env, extended(c, s), t) == root_tree_loop(
                env,
                re.cursor,
                re.tree,
            ));
        }
    }
}

/// The place of a token is found the same with more tokens behind, where
/// the search stops before the end.
pub proof fn lemma_search_extended(env: Env, c: Cursor, t: Expr, s: Seq<Lexeme>)
    requires
        inv(c, t),
        !c.at_end(),
        stays(search_add_point(env, c, t)),
    ensures
        search_add_point(env, extended(c, s), t) == extended_step(search_add_point(env, c, t), s),
    decreases work(c), t.size(), 4nat,
{
    lemma_extended(c, s);
    match t {
        BinaryTree::Empty => {
            lemma_while_extended(env, c, t, s);
        },
        BinaryTree::NonEmpty(b) => {
            let op = operator_of(c.peek()->Some_0)->Some_0;
            match b.element {
                Node::Operator(tree_op) => if tree_op.yields_to(op) {
                    lemma_search_extended(env, c, b.right, s);
                } else {
                    lemma_work_forward(c.tokens, c.index, c.index + 1);
                    if c.advance().at_end() {
                    } else {
                        lemma_extended(c.advance(), s);
                        lemma_while_extended(env, c.advance(), rotated(t, op), s);
                    }
                },
                _ => {},
            }
        },
    }
}

/// A run of token steps goes the same with more tokens behind, where it
/// stops before the end.
pub proof fn lemma_while_extended(env: Env, c: Cursor, t: Expr, s: Seq<Lexeme>)
    requires
        inv(c, t),
        stays(while_next_token(env, c, t)),
    ensures
        while_next_token(env, extended(c, s), t) == extended_step(while_next_token(env, c, t), s),
    decreases work(c), t.size(), 3nat,
{
    lemma_extended(c, s);
    lemma_next(env, c, t);
    lemma_next(env, extended(c, s), t);
    let r = next_token(env, c, t);
    assert(!(r.out is Fail));
    if r.out is Go && r.cursor.at_end() {
        assert(while_next_token(env, r.cursor, r.tree) == go(r.cursor, r.tree));
        assert(while_next_token(env, c, t) == go(r.cursor, r.tree));
    } else {
        lemma_next_extended(env, c, t, s);
        let re = next_token(env, extended(c, s), t);
        assert(re == extended_step(r, s));
        if r.out is Go {
            lemma_extended(r.cursor, s);
            lemma_while_extended(env, r.cursor, r.tree, s);
            assert(while_next_token(env, c, t) == while_next_token(env, r.cursor, r.tree));
            assert(while_next_token(env, extended(c, s), t) == while_next_token(
                env,
                re.cursor,
                re.tree,
            ));
        } else {
            assert(while_next_token(env, c, t) == r);
            assert(while_next_token(env, extended(c, s), t) == re);
        }
    }
}

/// An operand of one token is taken the same with more tokens behind,
/// where the step stops before the end.
pub proof fn lemma_operand_extended(
    c: Cursor,
    t: Expr,
    operand: Expr,
    blocked: Seq<char>,
    s: Seq<Lexeme>,
)
    requires
        c.valid(),
        !c.at_end(),
        stays(add_operand(c, t, operand, blocked)),
    ensures
        add_operand(extended(c, s), t, operand, blocked) == extended_step(
            add_operand(c, t, operand, blocked),
            s,
        ),
{
    lemma_extended(c, s);
    match slot_of(t) {
        Slot::Multiply => {},
        Slot::Blocked => {},
        _ => {
            lemma_extended(c.advance(), s);
        },
    }
}

/// A token is taken the same with more tokens behind, where the step stops
/// before the end.
pub proof fn lemma_next_extended(env: Env, c: Cursor, t: Expr, s: Seq<Lexeme>)
    requires
        inv(c, t),
        !c.at_end(),
        stays(next_token(env, c, t)),
    ensures
        next_token(env, extended(c, s), t) == extended_step(next_token(env, c, t), s),
    decreases work(c), t.size(), 2nat,
{
    lemma_extended(c, s);
    let token = c.peek()->Some_0;
    match token {
        Lexeme::Number(_) => {},
        Lexeme::I => {
            lemma_operand_extended(c, t, unit_leaf(), "i: syntax error"@, s);
        },
        Lexeme::LParen => {
            lemma_paren_extended(env, c, t, s);
        },
        Lexeme::LBracket => {
            match slot_of(t) {
                Slot::Multiply => {},
                Slot::Blocked => {},
                _ => {
                    lemma_matrix_literal(env.fl, c);
                    lemma_matrix_literal_extended(env.fl, c, s);
                    let c1 = matrix_literal(env.fl, c)->Ok_0.0;
                    lemma_extended(c1, s);
                },
            }
        },
        Lexeme::RParen => {},
        Lexeme::Name(n) => {
            if env.is_function(n) {
                lemma_function_extended(env, c, t, n, s);
            } else {
                lemma_operand_extended(
                    c,
                    t,
                    Expr::leaf(Node::Variable(n)),
                    n + ": syntax error"@,
                    s,
                );
            }
        },
        _ => match operator_of(token) {
            Some(op) => {
                lemma_operator_extended(env, c, t, op, s);
            },
            None => {},
        },
    }
}

/// An operator is taken the same with more tokens behind, where the step
/// stops before the end.
pub proof fn lemma_operator_extended(env: Env, c: Cursor, t: Expr, op: Operator, s: Seq<Lexeme>)
    requires
        inv(c, t),
        !c.at_end(),
        operator_of(c.peek()->Some_0) == Some(op),
        stays(add_operator(env, c, t, op)),
    ensures
        add_operator(env, extended(c, s), t, op) == extended_step(add_operator(env, c, t, op), s),
    decreases work(c), t.size(), 1nat,
{
    lemma_extended(c, s);
    match t {
        BinaryTree::Empty => {},
        BinaryTree::NonEmpty(b) => match b.element {
            Node::Operator(tree_op) => if b.right is Empty {
            } else if tree_op.yields_to(op) {
                lemma_while_extended(env, c, b.right, s);
            } else {
            },
            _ => {},
        },
    }
}

/// A group is taken the same with more tokens behind, where the step stops
/// before the end.
pub proof fn lemma_paren_extended(env: Env, c: Cursor, t: Expr, s: Seq<Lexeme>)
    requires
        inv(c, t),
        c.peek() == Some(Lexeme::LParen),
        stays(add_paren(env, c, t)),
    ensures
        add_paren(env, extended(c, s), t) == extended_step(add_paren(env, c, t), s),
    decreases work(c), t.size(), 1nat,
{
    lemma_extended(c, s);
    match slot_of(t) {
        Slot::Multiply => {},
        Slot::Blocked => {},
        _ => {
            lemma_work_forward(c.tokens, c.index, c.index + 1);
            let inner = root_tree_loop(env, c.advance(), Expr::Empty);
            lemma_root(env, c.advance(), Expr::Empty);
            lemma_root_extended(env, c.advance(), Expr::Empty, s);
            lemma_extended(inner.cursor, s);
            lemma_extended(inner.cursor.advance(), s);
        },
    }
}

/// A call is taken the same with more tokens behind, where the step stops
/// before the end.
pub proof fn lemma_function_extended(
    env: Env,
    c: Cursor,
    t: Expr,
    name: Seq<char>,
    s: Seq<Lexeme>,
)
    requires
        inv(c, t),
        c.peek() == Some(Lexeme::Name(name)),
        stays(add_function(env, c, t, name)),
    ensures
        add_function(env, extended(c, s), t, name) == extended_step(
            add_function(env, c, t, name),
            s,
        ),
    decreases work(c), t.size(), 1nat,
{
    lemma_extended(c, s);
    match slot_of(t) {
        Slot::Multiply => {},
        Slot::Blocked => {},
        _ => {
            lemma_work_forward(c.tokens, c.index, c.index + 1);
            lemma_extended(c.advance(), s);
            lemma_paren_extended(env, c.advance(), Expr::Empty, s);
        },
    }
}

} // verus!

verus! {

/// The tokens from the beginning.
pub open spec fn from_start(tokens: Seq<Lexeme>) -> Cursor {
    Cursor { tokens, index: 0 }
}

/// One operand: tokens that a single step takes from the empty tree, all
/// of them, leaving no open slot. A number, `i`, a name, a group, a matrix
/// and a call are operands.
pub open spec fn operand(env: Env, a: Seq<Lexeme>) -> bool {
    let r = next_token(env, from_start(a), Expr::Empty);
    a.len() > 0 && r.out is Go && r.cursor.valid() && r.cursor.at_end() && closed(r.tree)
}

/// A group that ends the tokens is parsed the same with more tokens behind
/// it, up to the `*` that a number or a name behind it gets.
proof fn lemma_group_then(env: Env, c: Cursor, rest: Seq<Lexeme>)
    requires
        c.valid(),
        c.peek() == Some(Lexeme::LParen),
        add_paren(env, c, Expr::Empty).out is Go,
        add_paren(env, c, Expr::Empty).cursor.at_end(),
    ensures
        add_paren(env, extended(c, rest), Expr::Empty) == go(
            extended(add_paren(env, c, Expr::Empty).cursor, rest).mul_before_operand(),
            add_paren(env, c, Expr::Empty).tree,
        ),
        slot_of(add_paren(env, c, Expr::Empty).tree) is Multiply,
        add_paren(env, c, Expr::Empty).cursor.valid(),
        add_paren(env, c, Expr::Empty).cursor.index > 0,
        add_paren(env, c, Expr::Empty).cursor.tokens[add_paren(
            env,
            c,
            Expr::Empty,
        ).cursor.index - 1] == Lexeme::RParen,
{
    lemma_extended(c, rest);
    let inner = root_tree_loop(env, c.advance(), Expr::Empty);
    lemma_root(env, c.advance(), Expr::Empty);
    lemma_root_extended(env, c.advance(), Expr::Empty, rest);
    lemma_extended(inner.cursor, rest);
    let after = inner.cursor.advance();
    if !after.at_end() {
        lemma_extended(after, rest);
    }
    assert(after.at_end());
    assert(after.mul_before_operand() == after);
}

/// The first step on an operand with more tokens behind it: the operand is
/// taken as it is alone, and a number or a name behind anything but a
/// number gets its `*`.
proof fn lemma_operand_step(env: Env, a: Seq<Lexeme>, rest: Seq<Lexeme>)
    requires
        operand(env, a),
    ensures
        ({
            let alone = next_token(env, from_start(a), Expr::Empty);
            let behind = extended(alone.cursor, rest);
            &&& next_token(env, from_start(a + rest), Expr::Empty) == go(
                if a[0] is Number {
                    behind
                } else {
                    behind.mul_before_operand()
                },
                alone.tree,
            )
            &&& slot_of(alone.tree) is Multiply
            &&& alone.cursor.index > 0
            &&& alone.cursor.index == alone.cursor.tokens.len()
            &&& !(alone.cursor.tokens[alone.cursor.index - 1] is Asterisk)
            &&& !(alone.cursor.tokens[alone.cursor.index - 1] is TwoAsterisk)
            &&& a[0] is Number ==> alone.cursor.tokens[alone.cursor.index - 1] is Number
        }),
{
    let c = from_start(a);
    let x = from_start(a + rest);
    lemma_extended(c, rest);
    assert(x == extended(c, rest));
    let alone = next_token(env, c, Expr::Empty);
    match a[0] {
        Lexeme::Number(_) => {},
        Lexeme::I => {
            let after = c.advance();
            if !after.at_end() {
                lemma_extended(after, rest);
            }
            assert(after.mul_before_operand() == after);
        },
        Lexeme::LParen => {
            lemma_group_then(env, c, rest);
        },
        Lexeme::LBracket => {
            lemma_matrix_literal(env.fl, c);
            lemma_matrix_literal_extended(env.fl, c, rest);
            let c1 = matrix_literal(env.fl, c)->Ok_0.0;
            if !c1.at_end() {
                lemma_extended(c1, rest);
            }
            assert(c1.mul_before_operand() == c1);
        },
        Lexeme::Name(n) => {
            if env.is_function(n) {
                let after = c.advance();
                lemma_extended(after, rest);
                lemma_group_then(env, after, rest);
            } else {
                let after = c.advance();
                if !after.at_end() {
                    lemma_extended(after, rest);
                }
                assert(after.mul_before_operand() == after);
            }
        },
        _ => {},
    }
}

/// Implicit multiplication: an operand followed directly by more gives the
/// same tree as the operand, a `*`, and the same.
pub proof fn lemma_implicit_multiplication_law(env: Env, a: Seq<Lexeme>, b: Seq<Lexeme>)
    requires
        operand(env, a),
        b.len() > 0,
        starter(b[0]),
    ensures
        make_tree(env, from_start(a + b)) == make_tree(
            env,
            from_start(a + seq![Lexeme::Asterisk] + b),
        ),
{
    let star = seq![Lexeme::Asterisk] + b;
    assert(a + seq![Lexeme::Asterisk] + b =~= a + star);
    let alone = next_token(env, from_start(a), Expr::Empty);
    let tree = alone.tree;
    let end = alone.cursor;
    lemma_operand_step(env, a, b);
    lemma_operand_step(env, a, star);
    let ci = from_start(a + b);
    let ce = from_start(a + star);
    let ei = extended(end, b);
    let ee = extended(end, star);
    assert(ei.peek() == Some(b[0]));
    assert(ee.peek() == Some(Lexeme::Asterisk));
    assert(ei.with_mul().tokens =~= ee.tokens);
    assert(ei.with_mul() == ee);
    assert(ee.mul_before_operand() == ee);
    // The state behind the operand, where no `*` is written.
    let xi = if a[0] is Number {
        ei
    } else {
        ei.mul_before_operand()
    };
    assert(next_token(env, ci, Expr::Empty) == go(xi, tree));
    assert(next_token(env, ce, Expr::Empty) == go(ee, tree));
    assert(inv(ei, tree));
    if xi != ee {
        crate::syntax::lemma_implicit_multiplication(env, ei, tree);
    }
    assert(while_next_token(env, xi, tree) == while_next_token(env, ee, tree));
    lemma_next(env, ci, Expr::Empty);
    lemma_next(env, ce, Expr::Empty);
    assert(while_next_token(env, ci, Expr::Empty) == while_next_token(env, xi, tree));
    assert(while_next_token(env, ce, Expr::Empty) == while_next_token(env, ee, tree));
    let r = search_add_point(env, ce, Expr::Empty);
    assert(search_add_point(env, ci, Expr::Empty) == r);
    lemma_search(env, ci, Expr::Empty);
    lemma_search(env, ce, Expr::Empty);
    assert(root_tree_loop(env, ci, Expr::Empty) == root_tree_loop(env, ce, Expr::Empty));
}

} // verus!

verus! {

use crate::lexer::{
    is_single, lemma_lex_all_concat, lemma_lex_all_shift, lemma_lex_one_advances,
    lemma_lex_one_shift, lemma_scan_shift, lemma_skip_spaces, lemma_skip_spaces_shift, lex_all,
    lex_one, scan, skip_spaces, Lexed, Pending, Scan,
};

/// A space in front of a text changes none of its tokens.
pub proof fn lemma_lex_leading_space(x: Seq<char>)
    ensures
        lex_all(seq![' '] + x, 0) == lex_all(x, 0),
{
    let s = seq![' '] + x;
    assert(s[0] == ' ');
    assert(skip_spaces(s, 0) == skip_spaces(s, 1));
    assert(lex_one(s, 0) == lex_one(s, 1));
    lemma_lex_one_advances(s, 0);
    lemma_lex_one_advances(s, 1);
    assert(lex_all(s, 0) == lex_all(s, 1));
    lemma_lex_all_shift(seq![' '], x, 0);
}

/// A `*` in front of a text that begins with none is one more token.
pub proof fn lemma_lex_leading_asterisk(x: Seq<char>)
    requires
        x.len() > 0,
        x[0] != '*',
        lex_all(x, 0) is Ok,
    ensures
        lex_all(seq!['*'] + x, 0) == Ok::<Seq<Lexeme>, Seq<char>>(
            seq![Lexeme::Asterisk] + lex_all(x, 0)->Ok_0,
        ),
{
    let s = seq!['*'] + x;
    assert(s[0] == '*');
    assert(s[1] == x[0]);
    assert(skip_spaces(s, 0) == 0);
    lemma_scan_shift(seq!['*'], x, 0, Pending::Asterisk, false);
    lemma_skip_spaces(x, 0);
    // What stands behind the `*` begins a token or is whitespace, as the
    // text has tokens.
    assert(scan(x, 0, Pending::Asterisk, false) is Stop) by {
        if !crate::lexer::stops(x[0], Pending::Asterisk) {
            assert(skip_spaces(x, 0) == 0);
            assert(!(lex_one(x, 0) is Fail));
        }
    }
    assert(lex_one(s, 0) == Lexed::Token(Lexeme::Asterisk, 1));
    lemma_lex_all_shift(seq!['*'], x, 0);
}

/// Implicit multiplication, as it is typed: an operand and what follows
/// it give the same tree whether a space, a `*` between spaces or a `*`
/// alone stands between them.
///
/// `a` is the text of an operand and `b` a text whose first token begins
/// one.
pub proof fn lemma_implicit_multiplication_text(env: Env, a: Seq<char>, b: Seq<char>)
    requires
        lex_all(a, 0) is Ok,
        lex_all(b, 0) is Ok,
        operand(env, lex_all(a, 0)->Ok_0),
        lex_all(b, 0)->Ok_0.len() > 0,
        starter(lex_all(b, 0)->Ok_0[0]),
    ensures
        ({
            let adjacent = lex_all(a + seq![' '] + b, 0);
            let spaced = lex_all(a + seq![' ', '*', ' '] + b, 0);
            let tight = lex_all(a + seq!['*'] + b, 0);
            &&& adjacent is Ok
            &&& spaced is Ok
            &&& tight == spaced
            &&& make_tree(env, from_start(adjacent->Ok_0)) == make_tree(
                env,
                from_start(spaced->Ok_0),
            )
        }),
{
    let ta = lex_all(a, 0)->Ok_0;
    let tb = lex_all(b, 0)->Ok_0;
    // The text of the operand ends in no `*`, as its last token ends an
    // operand.
    assert(a.len() > 0 && a.last() != '*') by {
        lemma_lex_one_advances(a, 0);
        if a.len() > 0 && a.last() == '*' {
            crate::lexer::lemma_last_asterisk(a, 0);
            lemma_operand_step(env, ta, Seq::empty());
            crate::syntax::lemma_next_keeps_last(env, from_start(ta), Expr::Empty);
        }
    }
    // The text behind the operand begins with no `*`, as its first token
    // begins an operand.
    lemma_skip_spaces(b, 0);
    lemma_lex_one_advances(b, 0);
    assert(b.len() > 0 && b[0] != '*') by {
        if b.len() == 0 || b[0] == '*' {
            if b.len() > 0 {
                assert(skip_spaces(b, 0) == 0);
            }
            if let Lexed::Token(t, n) = lex_one(b, 0) {
                let rest = lex_all(b, n)->Ok_0;
                assert((seq![t] + rest)[0] == t);
            }
        }
    }
    let space_b = seq![' '] + b;
    let star_b = seq!['*'] + b;
    let star_space_b = seq!['*'] + space_b;
    let space_star_space_b = seq![' '] + star_space_b;
    lemma_lex_leading_space(b);
    lemma_lex_leading_asterisk(b);
    lemma_lex_leading_asterisk(space_b);
    lemma_lex_leading_space(star_space_b);
    lemma_lex_all_concat(a, space_b, 0);
    lemma_lex_all_concat(a, star_b, 0);
    lemma_lex_all_concat(a, space_star_space_b, 0);
    assert(a + seq![' '] + b =~= a + space_b);
    assert(a + seq!['*'] + b =~= a + star_b);
    assert(a + seq![' ', '*', ' '] + b =~= a + space_star_space_b);
    assert(ta + (seq![Lexeme::Asterisk] + tb) =~= ta + seq![Lexeme::Asterisk] + tb);
    lemma_implicit_multiplication_law(env, ta, tb);
}

} // verus!
