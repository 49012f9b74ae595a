use vstd::prelude::*;
use crate::data_base::Store;
use crate::lexer::Lexeme;
use crate::matrix::{grid_wf, Grid};
use crate::num::Value;
use crate::operator::Operator;
use crate::parser::{literal_value, Expr, Node};
use crate::scalar::{Floats, Scalar, ONE_BITS};

verus! {

/// What parsing depends on besides the tokens: how literals are read, and
/// which names are functions.
pub struct Env {
    pub fl: Floats,
    pub store: Store,
}

impl Env {
    /// A name is a function when it resolves to one, built in or defined.
    pub open spec fn is_function(self, name: Seq<char>) -> bool {
        self.store.get_func(name) is Some
    }
}

/// The tokens and the position of the next one.
pub struct Cursor {
    pub tokens: Seq<Lexeme>,
    pub index: int,
}

impl Cursor {
    /// The position lies within the tokens or directly behind them.
    pub open spec fn valid(self) -> bool {
        0 <= self.index <= self.tokens.len()
    }

    /// No token is left.
    pub open spec fn at_end(self) -> bool {
        self.index >= self.tokens.len()
    }

    /// The next token, if there is one.
    pub open spec fn peek(self) -> Option<Lexeme> {
        if 0 <= self.index < self.tokens.len() {
            Some(self.tokens[self.index])
        } else {
            None
        }
    }

    /// The cursor behind the next token.
    pub open spec fn advance(self) -> Cursor {
        Cursor { tokens: self.tokens, index: self.index + 1 }
    }

    /// The cursor with a `*` put in front of the next token.
    pub open spec fn with_mul(self) -> Cursor {
        Cursor { tokens: self.tokens.insert(self.index, Lexeme::Asterisk), index: self.index }
    }

    /// After an operand: a number or a name that follows directly is
    /// multiplied with it.
    pub open spec fn mul_before_operand(self) -> Cursor {
        match self.peek() {
            Some(Lexeme::Number(_)) | Some(Lexeme::Name(_)) => self.with_mul(),
            _ => self,
        }
    }
}

/// Tokens that can begin an operand.
pub open spec fn starter(t: Lexeme) -> bool {
    t is Number || t is I || t is LParen || t is LBracket || t is Name
}

/// The binary operator that a token denotes.
pub open spec fn operator_of(t: Lexeme) -> Option<Operator> {
    match t {
        Lexeme::Plus => Some(Operator::Plus),
        Lexeme::Minus => Some(Operator::Minus),
        Lexeme::Asterisk => Some(Operator::Mul),
        Lexeme::Slash => Some(Operator::Div),
        Lexeme::Percent => Some(Operator::Rem),
        Lexeme::Caret => Some(Operator::Pow),
        Lexeme::TwoAsterisk => Some(Operator::MatrixMul),
        _ => None,
    }
}

/// The work that a token stands for: an operand that may still get a `*`
/// put in front of it counts three, every other token one.
pub open spec fn weight(tokens: Seq<Lexeme>, i: int) -> nat {
    if starter(tokens[i]) && !(i > 0 && tokens[i - 1] is Asterisk) {
        3
    } else {
        1
    }
}

/// The work left from position `i` on.
pub open spec fn work_from(tokens: Seq<Lexeme>, i: int) -> nat
    decreases tokens.len() - i,
{
    if i < 0 || i >= tokens.len() {
        0
    } else {
        weight(tokens, i) + work_from(tokens, i + 1)
    }
}

/// The work left at a cursor. Taking a token and putting in a `*` both
/// make it smaller.
pub open spec fn work(c: Cursor) -> nat {
    work_from(c.tokens, c.index)
}

/// The tree has no open slot: it is an operand, or an operator with its
/// right operand in place.
pub open spec fn closed(t: Expr) -> bool {
    match t {
        crate::binary_tree::BinaryTree::Empty => false,
        crate::binary_tree::BinaryTree::NonEmpty(b) => match b.element {
            Node::Operator(_) => b.right is NonEmpty,
            _ => true,
        },
    }
}

/// Where an operand goes in a tree.
pub enum Slot {
    /// The tree is empty: the operand becomes the tree.
    Whole,
    /// The root is an operator without right operand: the operand goes
    /// there.
    Right,
    /// The tree is closed: a `*` belongs in between.
    Multiply,
    /// The root is the placeholder of a unary sign: nothing fits.
    Blocked,
}

/// Where the next operand goes in `t`.
pub open spec fn slot_of(t: Expr) -> Slot {
    match t {
        crate::binary_tree::BinaryTree::Empty => Slot::Whole,
        crate::binary_tree::BinaryTree::NonEmpty(b) => match b.element {
            Node::Num(_) | Node::Variable(_) | Node::Func(_) => Slot::Multiply,
            Node::Dummy => Slot::Blocked,
            Node::Operator(_) => if b.right is NonEmpty {
                Slot::Multiply
            } else {
                Slot::Right
            },
        },
    }
}

/// The tree with `operand` in its open slot.
pub open spec fn placed(t: Expr, operand: Expr) -> Expr {
    match t {
        crate::binary_tree::BinaryTree::Empty => operand,
        _ => t.with_right(operand),
    }
}

/// How a parsing step ends.
pub enum Outcome {
    /// Go on with the next token.
    Go,
    /// The token closes the group: a `)`, or an operator that does not
    /// bind tighter than the root.
    Close,
    Fail(Seq<char>),
}

/// The state after a parsing step.
pub struct Parsed {
    pub cursor: Cursor,
    pub tree: Expr,
    pub out: Outcome,
}

/// A step after which parsing goes on.
pub open spec fn go(cursor: Cursor, tree: Expr) -> Parsed {
    Parsed { cursor, tree, out: Outcome::Go }
}

/// A step that failed with a message.
pub open spec fn fail(cursor: Cursor, tree: Expr, message: Seq<char>) -> Parsed {
    Parsed { cursor, tree, out: Outcome::Fail(message) }
}

/// A step with its tree put back as the right operand of `parent`.
pub open spec fn under(parent: Expr, sub: Parsed) -> Parsed {
    Parsed { cursor: sub.cursor, tree: parent.with_right(sub.tree), out: sub.out }
}

/// A step whose closing signal has been used up.
pub open spec fn settled(p: Parsed) -> Parsed {
    match p.out {
        Outcome::Close => Parsed { cursor: p.cursor, tree: p.tree, out: Outcome::Go },
        _ => p,
    }
}

/// The message for tokens that fit nowhere.
pub open spec fn syntax_error() -> Seq<char> {
    "syntax error"@
}

/// The message for a number that has no place in the tree.
pub open spec fn stray_number(fl: Floats, x: Scalar) -> Seq<char> {
    "Float("@ + (fl.debug)(x) + "): syntax error"@
}

/// The message for a function name that no `(` follows.
pub open spec fn needs_parentheses(name: Seq<char>) -> Seq<char> {
    "error: "@ + name + " is defined as a function, so it needs parentheses"@
}

/// The tree with the number `x` in its open slot: as the whole tree, as
/// the left operand of a root that has none, or as its right operand. A
/// tree without open slot takes no number.
pub open spec fn add_num(fl: Floats, t: Expr, x: Scalar) -> Result<Expr, Seq<char>> {
    let operand = Expr::leaf(Node::Num(Value::Float(x)));
    match slot_of(t) {
        Slot::Whole => Ok(operand),
        Slot::Right => if t.left_tree() is Empty {
            Ok(t.with_left(operand))
        } else {
            Ok(t.with_right(operand))
        },
        _ => Err(stray_number(fl, x)),
    }
}

/// A number met at the cursor: behind a tree without open slot it is
/// multiplied; otherwise it must stand for a finite real, and fills the
/// open slot.
pub open spec fn add_number(fl: Floats, c: Cursor, t: Expr, token: Lexeme) -> Parsed {
    match slot_of(t) {
        Slot::Multiply => go(c.with_mul(), t),
        _ => match literal_value(fl, token) {
            Err(m) => fail(c, t, m),
            Ok(x) => match add_num(fl, t, x) {
                Err(m) => fail(c, t, m),
                Ok(t1) => go(c.advance(), t1),
            },
        },
    }
}

/// An operand of one token, `operand`, met at the cursor. `blocked` is the
/// message for a tree that takes no operand.
pub open spec fn add_operand(c: Cursor, t: Expr, operand: Expr, blocked: Seq<char>) -> Parsed {
    match slot_of(t) {
        Slot::Multiply => go(c.with_mul(), t),
        Slot::Blocked => fail(c, t, blocked),
        _ => go(c.advance().mul_before_operand(), placed(t, operand)),
    }
}

/// The imaginary unit.
pub open spec fn unit_leaf() -> Expr {
    Expr::leaf(Node::Num(Value::Complex(Scalar { bits: 0 }, Scalar { bits: ONE_BITS })))
}

/// The entries of a matrix row from the cursor on: numbers with commas
/// between them. Gives the cursor behind the last number.
pub open spec fn row_entries(fl: Floats, c: Cursor, acc: Seq<Scalar>) -> Result<
    (Cursor, Seq<Scalar>),
    Seq<char>,
>
    decreases c.tokens.len() - c.index,
{
    match c.peek() {
        Some(Lexeme::Number(s)) => match literal_value(fl, Lexeme::Number(s)) {
            Err(m) => Err(m),
            Ok(x) => {
                let c1 = c.advance();
                if c1.peek() == Some(Lexeme::Comma) {
                    row_entries(fl, c1.advance(), acc.push(x))
                } else {
                    Ok((c1, acc.push(x)))
                }
            },
        },
        _ => Err(syntax_error()),
    }
}

/// The rows of a matrix from the cursor on: bracketed rows with semicolons
/// between them. Gives the cursor behind the last row.
///
/// A row ends further on in the same tokens (`lemma_row_entries`), so the
/// branch for a row that does not is never taken; it is there to make the
/// definition total.
pub open spec fn rows(fl: Floats, c: Cursor, acc: Grid) -> Result<(Cursor, Grid), Seq<char>>
    decreases c.tokens.len() - c.index,
{
    if c.peek() != Some(Lexeme::LBracket) {
        Err(syntax_error())
    } else {
        match row_entries(fl, c.advance(), Seq::empty()) {
            Err(m) => Err(m),
            Ok((c1, row)) => {
                if c1.peek() != Some(Lexeme::RBracket) {
                    Err(syntax_error())
                } else {
                    let c2 = c1.advance();
                    if c2.peek() == Some(Lexeme::SemiColon) {
                        if c2.tokens == c.tokens && c2.index > c.index {
                            rows(fl, c2.advance(), acc.push(row))
                        } else {
                            Err(syntax_error())
                        }
                    } else {
                        Ok((c2, acc.push(row)))
                    }
                }
            },
        }
    }
}

/// The matrix literal that opens at the cursor, and the cursor behind it.
pub open spec fn matrix_literal(fl: Floats, c: Cursor) -> Result<(Cursor, Grid), Seq<char>> {
    match rows(fl, c.advance(), Seq::empty()) {
        Err(m) => Err(m),
        Ok((c1, g)) => if c1.peek() != Some(Lexeme::RBracket) {
            Err(syntax_error())
        } else if grid_wf(g) {
            Ok((c1.advance(), g))
        } else {
            Err("Conversion Failure"@)
        },
    }
}

/// A matrix literal met at the cursor.
pub open spec fn add_matrix(fl: Floats, c: Cursor, t: Expr) -> Parsed {
    match slot_of(t) {
        Slot::Multiply => go(c.with_mul(), t),
        Slot::Blocked => fail(c, t, syntax_error()),
        _ => match matrix_literal(fl, c) {
            Err(m) => fail(c, t, m),
            Ok((c1, g)) => go(
                c1.mul_before_operand(),
                placed(t, Expr::leaf(Node::Num(Value::Matrix(g)))),
            ),
        },
    }
}

/// The tree with `op` as its new root and the old tree to its left.
pub open spec fn rotated(t: Expr, op: Operator) -> Expr {
    Expr::node(Node::Operator(op), t, Expr::Empty)
}

/// A group that has been parsed up to its `)`: the interior must not be
/// empty and the `)` must be there.
pub open spec fn close_group(inner: Parsed) -> Parsed {
    match inner.out {
        Outcome::Fail(_) => inner,
        _ => if inner.tree is Empty {
            fail(inner.cursor, inner.tree, "(): syntax error"@)
        } else if inner.cursor.peek() == Some(Lexeme::RParen) {
            go(
                inner.cursor.advance().mul_before_operand(),
                Expr::node(
                    Node::Operator(Operator::Paren),
                    inner.tree,
                    Expr::leaf(Node::Operator(Operator::RParen)),
                ),
            )
        } else {
            fail(inner.cursor, inner.tree, "(: syntax error"@)
        },
    }
}

/// A step with its tree put into the open slot of `t`.
pub open spec fn placed_step(t: Expr, sub: Parsed) -> Parsed {
    match sub.out {
        Outcome::Fail(_) => sub,
        _ => Parsed { cursor: sub.cursor, tree: placed(t, sub.tree), out: sub.out },
    }
}

/// A call that has been parsed up to the end of its argument.
pub open spec fn close_call(name: Seq<char>, argument: Parsed) -> Parsed {
    match argument.out {
        Outcome::Fail(_) => argument,
        _ => Parsed {
            cursor: argument.cursor,
            tree: Expr::node(
                Node::Func(name),
                argument.tree,
                Expr::leaf(Node::Operator(Operator::RParen)),
            ),
            out: argument.out,
        },
    }
}

/// Parses from the cursor into `t` until the tokens end or a `)` is next.
///
/// Each round hands the next token to `search_add_point`. A round does
/// work unless it stops before a `)` (`lemma_search`), so the branch for a
/// round without work is never taken from a state that satisfies `inv`; it
/// is there to make the definition total.
pub open spec fn root_tree_loop(env: Env, c: Cursor, t: Expr) -> Parsed
    decreases work(c), t.size(), 5nat,
{
    if !c.valid() || c.at_end() {
        go(c, t)
    } else {
        let r = search_add_point(env, c, t);
        match r.out {
            Outcome::Fail(_) => r,
            _ => if r.cursor.peek() == Some(Lexeme::RParen) {
                r
            } else if work(r.cursor) < work(c) {
                root_tree_loop(env, r.cursor, r.tree)
            } else {
                fail(r.cursor, r.tree, syntax_error())
            },
        }
    }
}

/// Finds the place of the next token in `t`, which is either empty or
/// stands before a binary operator.
///
/// An operator that binds tighter than the root goes into the right
/// subtree. Any other becomes the new root, with the old tree as its left
/// operand, and parsing goes on to its right.
pub open spec fn search_add_point(env: Env, c: Cursor, t: Expr) -> Parsed
    decreases work(c), t.size(), 4nat,
{
    match t {
        crate::binary_tree::BinaryTree::Empty => settled(while_next_token(env, c, t)),
        crate::binary_tree::BinaryTree::NonEmpty(b) => match c.peek() {
            None => fail(c, t, syntax_error()),
            Some(token) => match operator_of(token) {
                None => fail(c, t, syntax_error()),
                Some(op) => match b.element {
                    Node::Operator(tree_op) => if tree_op.yields_to(op) {
                        under(t, search_add_point(env, c, b.right))
                    } else {
                        settled(while_next_token(env, c.advance(), rotated(t, op)))
                    },
                    _ => fail(c, t, syntax_error()),
                },
            },
        },
    }
}

/// Hands token after token to `next_token` until the tokens end or one
/// closes the group.
///
/// Every token step that goes on does work (`lemma_next`), so the branch
/// for a step without work is never taken from a state that satisfies
/// `inv`; it is there to make the definition total.
pub open spec fn while_next_token(env: Env, c: Cursor, t: Expr) -> Parsed
    decreases work(c), t.size(), 3nat,
{
    if !c.valid() || c.at_end() {
        go(c, t)
    } else {
        let r = next_token(env, c, t);
        match r.out {
            Outcome::Go => if work(r.cursor) < work(c) {
                while_next_token(env, r.cursor, r.tree)
            } else {
                fail(r.cursor, r.tree, syntax_error())
            },
            _ => r,
        }
    }
}

/// Takes the next token into `t`.
pub open spec fn next_token(env: Env, c: Cursor, t: Expr) -> Parsed
    decreases work(c), t.size(), 2nat,
{
    match c.peek() {
        None => fail(c, t, syntax_error()),
        Some(token) => match token {
            Lexeme::Number(s) => add_number(env.fl, c, t, token),
            Lexeme::I => add_operand(c, t, unit_leaf(), "i: syntax error"@),
            Lexeme::LParen => add_paren(env, c, t),
            Lexeme::LBracket => add_matrix(env.fl, c, t),
            Lexeme::RParen => Parsed { cursor: c, tree: t, out: Outcome::Close },
            Lexeme::Name(s) => if env.is_function(s) {
                add_function(env, c, t, s)
            } else {
                add_operand(c, t, Expr::leaf(Node::Variable(s)), s + ": syntax error"@)
            },
            _ => match operator_of(token) {
                Some(op) => add_operator(env, c, t, op),
                None => fail(c, t, syntax_error()),
            },
        },
    }
}

/// The binary operator `op` met at the cursor.
///
/// On the empty tree only a sign is taken, as an operator whose left
/// operand is a placeholder. An operand becomes the left operand of `op`.
/// Under an operator that `op` binds tighter than, `op` goes into the right
/// subtree; under any other it closes the group.
pub open spec fn add_operator(env: Env, c: Cursor, t: Expr, op: Operator) -> Parsed
    decreases work(c), t.size(), 1nat,
{
    match t {
        crate::binary_tree::BinaryTree::Empty => if op == Operator::Plus || op == Operator::Minus {
            go(c.advance(), Expr::node(Node::Operator(op), Expr::leaf(Node::Dummy), Expr::Empty))
        } else {
            fail(c, t, "Unsupported unary operators: syntax error"@)
        },
        crate::binary_tree::BinaryTree::NonEmpty(b) => match b.element {
            Node::Num(_) | Node::Variable(_) | Node::Func(_) => go(c.advance(), rotated(t, op)),
            Node::Operator(tree_op) => if b.right is Empty {
                fail(c, t, syntax_error())
            } else if tree_op.yields_to(op) {
                under(t, while_next_token(env, c, b.right))
            } else {
                Parsed { cursor: c, tree: t, out: Outcome::Close }
            },
            Node::Dummy => fail(c, t, syntax_error()),
        },
    }
}

/// A `(` met at the cursor: the group up to its `)` becomes one operand.
pub open spec fn add_paren(env: Env, c: Cursor, t: Expr) -> Parsed
    decreases work(c), t.size(), 1nat,
{
    match slot_of(t) {
        Slot::Multiply => go(c.with_mul(), t),
        Slot::Blocked => fail(c, t, syntax_error()),
        _ => if c.valid() && !c.at_end() {
            placed_step(t, close_group(root_tree_loop(env, c.advance(), Expr::Empty)))
        } else {
            fail(c, t, syntax_error())
        },
    }
}

/// The name of a function met at the cursor: a `(` must follow, and the
/// group becomes the argument.
pub open spec fn add_function(env: Env, c: Cursor, t: Expr, name: Seq<char>) -> Parsed
    decreases work(c), t.size(), 1nat,
{
    match slot_of(t) {
        Slot::Multiply => go(c.with_mul(), t),
        Slot::Blocked => fail(c, t, name + ": syntax error"@),
        _ => if c.advance().peek() != Some(Lexeme::LParen) {
            fail(c, t, needs_parentheses(name))
        } else if c.valid() && !c.at_end() {
            placed_step(t, close_call(name, add_paren(env, c.advance(), Expr::Empty)))
        } else {
            fail(c, t, syntax_error())
        },
    }
}

/// The tree that the tokens from the cursor on stand for. Every token must
/// be used up.
pub open spec fn make_tree(env: Env, c: Cursor) -> Result<Expr, Seq<char>> {
    let r = root_tree_loop(env, c, Expr::Empty);
    match r.out {
        Outcome::Fail(m) => Err(m),
        _ => if r.cursor.index < r.cursor.tokens.len() {
            Err(syntax_error())
        } else {
            Ok(r.tree)
        },
    }
}

} // verus!

verus! {

/// What holds between the cursor and the tree while parsing: where an
/// operand follows directly on a `*`, the tree still has its open slot.
pub open spec fn inv(c: Cursor, t: Expr) -> bool {
    &&& c.valid()
    &&& (c.index > 0 && c.tokens[c.index - 1] is Asterisk && c.peek() is Some && starter(
        c.peek()->Some_0,
    )) ==> !closed(t)
}

/// The next token is there and begins no operand.
pub open spec fn closing(c: Cursor) -> bool {
    c.peek() is Some && !starter(c.peek()->Some_0)
}

/// A step that did not fail kept `inv` and added no work.
pub open spec fn steady(c: Cursor, r: Parsed) -> bool {
    r.out is Fail || (inv(r.cursor, r.tree) && work(r.cursor) <= work(c))
}

/// A closing signal comes with a token that begins no operand; it comes
/// after some work was done, or at once, for a `)` or under a closed tree.
pub open spec fn close_rule(c: Cursor, t: Expr, r: Parsed) -> bool {
    r.out is Close ==> closing(r.cursor) && (work(r.cursor) < work(c) || (r.cursor == c && (c.peek()
        == Some(Lexeme::RParen) || closed(t))))
}

/// What one token step guarantees.
pub open spec fn token_step(c: Cursor, t: Expr, r: Parsed) -> bool {
    &&& steady(c, r)
    &&& r.out is Go ==> work(r.cursor) < work(c)
    &&& close_rule(c, t, r)
}

/// What a run of token steps guarantees.
pub open spec fn run_step(c: Cursor, t: Expr, r: Parsed) -> bool {
    &&& steady(c, r)
    &&& r.out is Go ==> r.cursor.at_end() && (c.at_end() || work(r.cursor) < work(c))
    &&& close_rule(c, t, r)
}

/// What a search for the place of a token guarantees.
pub open spec fn search_step(c: Cursor, r: Parsed) -> bool {
    &&& steady(c, r)
    &&& !(r.out is Close)
    &&& r.out is Go ==> (r.cursor.at_end() || closing(r.cursor)) && (work(r.cursor) < work(c)
        || r.cursor.peek() == Some(Lexeme::RParen))
}

/// What parsing a group guarantees.
pub open spec fn root_step(c: Cursor, r: Parsed) -> bool {
    &&& steady(c, r)
    &&& !(r.out is Close)
    &&& r.out is Go ==> r.cursor.at_end() || r.cursor.peek() == Some(Lexeme::RParen)
}

/// Moving forward over tokens makes the work smaller.
pub proof fn lemma_work_forward(tokens: Seq<Lexeme>, i: int, j: int)
    requires
        0 <= i <= j <= tokens.len(),
    ensures
        work_from(tokens, j) <= work_from(tokens, i),
        i < j ==> work_from(tokens, j) < work_from(tokens, i),
    decreases j - i,
{
    if i < j {
        lemma_work_forward(tokens, i + 1, j);
    }
}

proof fn lemma_work_shift(tokens: Seq<Lexeme>, i: int, j: int)
    requires
        0 <= i < j <= tokens.len(),
    ensures
        work_from(tokens.insert(i, Lexeme::Asterisk), j + 1) == work_from(tokens, j),
    decreases tokens.len() - j,
{
    let inserted = tokens.insert(i, Lexeme::Asterisk);
    if j < tokens.len() {
        lemma_work_shift(tokens, i, j + 1);
        assert(inserted[j + 1] == tokens[j]);
        assert(inserted[j] == tokens[j - 1]);
    }
}

/// Putting a `*` in front of an operand that does not follow on a `*`
/// makes the work smaller.
pub proof fn lemma_work_with_mul(c: Cursor)
    requires
        c.valid(),
        c.peek() is Some,
        starter(c.peek()->Some_0),
        !(c.index > 0 && c.tokens[c.index - 1] is Asterisk),
    ensures
        work(c.with_mul()) < work(c),
        c.with_mul().valid(),
        c.with_mul().peek() == Some(Lexeme::Asterisk),
{
    let i = c.index;
    let inserted = c.tokens.insert(i, Lexeme::Asterisk);
    lemma_work_shift(c.tokens, i, i + 1);
    assert(inserted[i] == Lexeme::Asterisk);
    assert(inserted[i + 1] == c.tokens[i]);
    assert(work_from(inserted, i) == weight(inserted, i) + work_from(inserted, i + 1));
    assert(work_from(inserted, i + 1) == weight(inserted, i + 1) + work_from(inserted, i + 2));
    assert(weight(inserted, i) == 1);
    assert(weight(inserted, i + 1) == 1);
    assert(weight(c.tokens, i) == 3);
}

/// After an operand has been taken, the `*` for an operand that follows
/// directly adds no work.
pub proof fn lemma_mul_before_operand(c: Cursor, t: Expr)
    requires
        c.valid(),
        c.index > 0,
        !(c.tokens[c.index - 1] is Asterisk),
    ensures
        work(c.mul_before_operand()) <= work(c),
        inv(c.mul_before_operand(), t),
{
    match c.peek() {
        Some(Lexeme::Number(_)) | Some(Lexeme::Name(_)) => {
            lemma_work_with_mul(c);
        },
        _ => {},
    }
}

/// The entries of a row end further on in the same tokens.
pub proof fn lemma_row_entries(fl: Floats, c: Cursor, acc: Seq<Scalar>)
    requires
        c.valid(),
    ensures
        row_entries(fl, c, acc) matches Ok((c1, _)) ==> c1.tokens == c.tokens && c.index < c1.index
            <= c.tokens.len(),
    decreases c.tokens.len() - c.index,
{
    match c.peek() {
        Some(Lexeme::Number(s)) => match literal_value(fl, Lexeme::Number(s)) {
            Err(m) => {},
            Ok(x) => {
                let c1 = c.advance();
                if c1.peek() == Some(Lexeme::Comma) {
                    lemma_row_entries(fl, c1.advance(), acc.push(x));
                }
            },
        },
        _ => {},
    }
}

/// The rows of a matrix end behind a `]`, further on in the same tokens.
pub proof fn lemma_rows(fl: Floats, c: Cursor, acc: Grid)
    requires
        c.valid(),
    ensures
        rows(fl, c, acc) matches Ok((c1, _)) ==> c1.tokens == c.tokens && c.index < c1.index
            <= c.tokens.len() && c1.tokens[c1.index - 1] == Lexeme::RBracket,
    decreases c.tokens.len() - c.index,
{
    if c.peek() == Some(Lexeme::LBracket) {
        lemma_row_entries(fl, c.advance(), Seq::empty());
        match row_entries(fl, c.advance(), Seq::empty()) {
            Err(m) => {},
            Ok((c1, row)) => {
                if c1.peek() == Some(Lexeme::RBracket) {
                    let c2 = c1.advance();
                    if c2.peek() == Some(Lexeme::SemiColon) {
                        lemma_rows(fl, c2.advance(), acc.push(row));
                    }
                }
            },
        }
    }
}

/// A matrix literal ends behind a `]`, further on in the same tokens.
pub proof fn lemma_matrix_literal(fl: Floats, c: Cursor)
    requires
        c.valid(),
        !c.at_end(),
    ensures
        matrix_literal(fl, c) matches Ok((c1, _)) ==> c1.tokens == c.tokens && c.index < c1.index
            <= c.tokens.len() && c1.tokens[c1.index - 1] == Lexeme::RBracket,
{
    lemma_rows(fl, c.advance(), Seq::empty());
}

proof fn lemma_operand(c: Cursor, t: Expr, operand: Expr, blocked: Seq<char>)
    requires
        inv(c, t),
        c.peek() is Some,
        starter(c.peek()->Some_0),
    ensures
        token_step(c, t, add_operand(c, t, operand, blocked)),
        !(add_operand(c, t, operand, blocked).out is Close),
{
    match slot_of(t) {
        Slot::Multiply => {
            lemma_work_with_mul(c);
        },
        Slot::Blocked => {},
        _ => {
            lemma_work_forward(c.tokens, c.index, c.index + 1);
            lemma_mul_before_operand(c.advance(), placed(t, operand));
        },
    }
}

proof fn lemma_add_matrix(fl: Floats, c: Cursor, t: Expr)
    requires
        inv(c, t),
        c.peek() == Some(Lexeme::LBracket),
    ensures
        token_step(c, t, add_matrix(fl, c, t)),
        !(add_matrix(fl, c, t).out is Close),
{
    match slot_of(t) {
        Slot::Multiply => {
            lemma_work_with_mul(c);
        },
        Slot::Blocked => {},
        _ => {
            lemma_matrix_literal(fl, c);
            match matrix_literal(fl, c) {
                Err(m) => {},
                Ok((c1, g)) => {
                    lemma_work_forward(c.tokens, c.index, c1.index);
                    lemma_mul_before_operand(
                        c1,
                        placed(t, Expr::leaf(Node::Num(Value::Matrix(g)))),
                    );
                },
            }
        },
    }
}

/// Parsing a group keeps `inv`, adds no work, and stops only at the end of
/// the tokens or before a `)`.
pub proof fn lemma_root(env: Env, c: Cursor, t: Expr)
    requires
        inv(c, t),
    ensures
        root_step(c, root_tree_loop(env, c, t)),
    decreases work(c), t.size(), 5nat,
{
    if c.at_end() {
    } else {
        lemma_search(env, c, t);
        let r = search_add_point(env, c, t);
        match r.out {
            Outcome::Fail(_) => {},
            _ => if r.cursor.peek() == Some(Lexeme::RParen) {
            } else {
                lemma_root(env, r.cursor, r.tree);
            },
        }
    }
}

/// Finding the place of a token ends at the end of the tokens or before a
/// token that begins no operand, and does work unless a `)` is next.
pub proof fn lemma_search(env: Env, c: Cursor, t: Expr)
    requires
        inv(c, t),
        !c.at_end(),
    ensures
        search_step(c, search_add_point(env, c, t)),
    decreases work(c), t.size(), 4nat,
{
    match t {
        crate::binary_tree::BinaryTree::Empty => {
            lemma_while(env, c, t);
        },
        crate::binary_tree::BinaryTree::NonEmpty(b) => match c.peek() {
            None => {},
            Some(token) => match operator_of(token) {
                None => {},
                Some(op) => match b.element {
                    Node::Operator(tree_op) => if tree_op.yields_to(op) {
                        lemma_search(env, c, b.right);
                    } else {
                        lemma_work_forward(c.tokens, c.index, c.index + 1);
                        lemma_while(env, c.advance(), rotated(t, op));
                    },
                    _ => {},
                },
            },
        },
    }
}

/// A run of token steps ends at the end of the tokens or with a closing
/// signal.
pub proof fn lemma_while(env: Env, c: Cursor, t: Expr)
    requires
        inv(c, t),
    ensures
        run_step(c, t, while_next_token(env, c, t)),
    decreases work(c), t.size(), 3nat,
{
    if c.at_end() {
    } else {
        lemma_next(env, c, t);
        let r = next_token(env, c, t);
        match r.out {
            Outcome::Go => {
                lemma_while(env, r.cursor, r.tree);
            },
            _ => {},
        }
    }
}

/// Taking a token does work, unless it closes the group.
pub proof fn lemma_next(env: Env, c: Cursor, t: Expr)
    requires
        inv(c, t),
        !c.at_end(),
    ensures
        token_step(c, t, next_token(env, c, t)),
    decreases work(c), t.size(), 2nat,
{
    let token = c.peek()->Some_0;
    match token {
        Lexeme::Number(s) => {
            lemma_work_forward(c.tokens, c.index, c.index + 1);
            if slot_of(t) is Multiply {
                lemma_work_with_mul(c);
            }
        },
        Lexeme::I => {
            lemma_operand(c, t, unit_leaf(), "i: syntax error"@);
        },
        Lexeme::LParen => {
            lemma_paren(env, c, t);
        },
        Lexeme::LBracket => {
            lemma_add_matrix(env.fl, c, t);
        },
        Lexeme::RParen => {},
        Lexeme::Name(s) => {
            if env.is_function(s) {
                lemma_function(env, c, t, s);
            } else {
                lemma_operand(c, t, Expr::leaf(Node::Variable(s)), s + ": syntax error"@);
            }
        },
        _ => match operator_of(token) {
            Some(op) => {
                lemma_operator(env, c, t, op);
            },
            None => {},
        },
    }
}

/// Taking an operator does work, unless it closes the group.
pub proof fn lemma_operator(env: Env, c: Cursor, t: Expr, op: Operator)
    requires
        inv(c, t),
        c.peek() is Some,
        operator_of(c.peek()->Some_0) == Some(op),
    ensures
        token_step(c, t, add_operator(env, c, t, op)),
    decreases work(c), t.size(), 1nat,
{
    lemma_work_forward(c.tokens, c.index, c.index + 1);
    match t {
        crate::binary_tree::BinaryTree::Empty => {},
        crate::binary_tree::BinaryTree::NonEmpty(b) => match b.element {
            Node::Operator(tree_op) => if b.right is Empty {
            } else if tree_op.yields_to(op) {
                lemma_while(env, c, b.right);
            } else {
            },
            _ => {},
        },
    }
}

/// Taking a group does work and gives no closing signal.
pub proof fn lemma_paren(env: Env, c: Cursor, t: Expr)
    requires
        inv(c, t),
        c.peek() == Some(Lexeme::LParen),
    ensures
        token_step(c, t, add_paren(env, c, t)),
        !(add_paren(env, c, t).out is Close),
    decreases work(c), t.size(), 1nat,
{
    match slot_of(t) {
        Slot::Multiply => {
            lemma_work_with_mul(c);
        },
        Slot::Blocked => {},
        _ => {
            lemma_work_forward(c.tokens, c.index, c.index + 1);
            lemma_root(env, c.advance(), Expr::Empty);
            let inner = root_tree_loop(env, c.advance(), Expr::Empty);
            if !(inner.out is Fail) && !(inner.tree is Empty) && inner.cursor.peek() == Some(
                Lexeme::RParen,
            ) {
                let group = Expr::node(
                    Node::Operator(Operator::Paren),
                    inner.tree,
                    Expr::leaf(Node::Operator(Operator::RParen)),
                );
                lemma_work_forward(inner.cursor.tokens, inner.cursor.index, inner.cursor.index + 1);
                lemma_mul_before_operand(inner.cursor.advance(), placed(t, group));
            }
        },
    }
}

/// Taking a call does work and gives no closing signal.
pub proof fn lemma_function(env: Env, c: Cursor, t: Expr, name: Seq<char>)
    requires
        inv(c, t),
        c.peek() == Some(Lexeme::Name(name)),
    ensures
        token_step(c, t, add_function(env, c, t, name)),
        !(add_function(env, c, t, name).out is Close),
    decreases work(c), t.size(), 1nat,
{
    match slot_of(t) {
        Slot::Multiply => {
            lemma_work_with_mul(c);
        },
        Slot::Blocked => {},
        _ => {
            if c.advance().peek() == Some(Lexeme::LParen) {
                lemma_work_forward(c.tokens, c.index, c.index + 1);
                lemma_paren(env, c.advance(), Expr::Empty);
                let argument = add_paren(env, c.advance(), Expr::Empty);
                if !(argument.out is Fail) {
                    let call = close_call(name, argument).tree;
                    lemma_inv_any_tree(argument.cursor, argument.tree, placed(t, call));
                }
            }
        },
    }
}

proof fn lemma_inv_any_tree(c: Cursor, t: Expr, other: Expr)
    requires
        inv(c, t),
        closed(t) || c.at_end() || closing(c) || c.index == 0 || !(c.tokens[c.index - 1] is Asterisk),
    ensures
        inv(c, other),
{
}

} // verus!

verus! {

/// Implicit multiplication: where an operand follows on a tree that has
/// no open slot, parsing goes on exactly as if a `*` stood between them.
pub proof fn lemma_implicit_multiplication(env: Env, c: Cursor, t: Expr)
    requires
        inv(c, t),
        slot_of(t) is Multiply,
        c.peek() is Some,
        starter(c.peek()->Some_0),
    ensures
        c.with_mul().tokens == c.tokens.insert(c.index, Lexeme::Asterisk),
        next_token(env, c, t) == go(c.with_mul(), t),
        while_next_token(env, c, t) == while_next_token(env, c.with_mul(), t),
{
    lemma_work_with_mul(c);
}

/// Implicit multiplication behind an operand: a number or a name that
/// follows directly gets a `*` in front of it before it is read.
pub proof fn lemma_implicit_multiplication_ahead(c: Cursor)
    requires
        c.valid(),
        c.peek() is Some,
        c.peek()->Some_0 is Number || c.peek()->Some_0 is Name,
    ensures
        c.mul_before_operand().tokens == c.tokens.insert(c.index, Lexeme::Asterisk),
        c.mul_before_operand().index == c.index,
        c.mul_before_operand().peek() == Some(Lexeme::Asterisk),
{
}

} // verus!

verus! {

/// The step kept the last token, unless it failed.
pub open spec fn keeps_last(c: Cursor, r: Parsed) -> bool {
    r.out is Fail || (r.cursor.valid() && r.cursor.tokens.len() > 0 && r.cursor.tokens.last()
        == c.tokens.last())
}

proof fn lemma_with_mul_keeps_last(c: Cursor)
    requires
        c.valid(),
        !c.at_end(),
    ensures
        c.with_mul().valid(),
        c.with_mul().tokens.len() > 0,
        c.with_mul().tokens.last() == c.tokens.last(),
        c.mul_before_operand().valid(),
        c.mul_before_operand().tokens.len() > 0,
        c.mul_before_operand().tokens.last() == c.tokens.last(),
{
}

proof fn lemma_mul_before_keeps_last(c: Cursor)
    requires
        c.valid(),
        c.tokens.len() > 0,
    ensures
        c.mul_before_operand().valid(),
        c.mul_before_operand().tokens.len() > 0,
        c.mul_before_operand().tokens.last() == c.tokens.last(),
{
    if !c.at_end() {
        lemma_with_mul_keeps_last(c);
    }
}

/// A `*` is only ever put in front of a token, so parsing a group keeps
/// the last token.
pub proof fn lemma_root_keeps_last(env: Env, c: Cursor, t: Expr)
    requires
        c.valid(),
        c.tokens.len() > 0,
    ensures
        keeps_last(c, root_tree_loop(env, c, t)),
    decreases work(c), t.size(), 5nat,
{
    if !c.at_end() {
        lemma_search_keeps_last(env, c, t);
        let r = search_add_point(env, c, t);
        if !(r.out is Fail) && r.cursor.peek() != Some(Lexeme::RParen) && work(r.cursor) < work(c) {
            lemma_root_keeps_last(env, r.cursor, r.tree);
        }
    }
}

/// Finding the place of a token keeps the last token.
pub proof fn lemma_search_keeps_last(env: Env, c: Cursor, t: Expr)
    requires
        c.valid(),
        c.tokens.len() > 0,
    ensures
        keeps_last(c, search_add_point(env, c, t)),
    decreases work(c), t.size(), 4nat,
{
    match t {
        crate::binary_tree::BinaryTree::Empty => {
            lemma_while_keeps_last(env, c, t);
        },
        crate::binary_tree::BinaryTree::NonEmpty(b) => match c.peek() {
            None => {},
            Some(token) => match operator_of(token) {
                None => {},
                Some(op) => match b.element {
                    Node::Operator(tree_op) => if tree_op.yields_to(op) {
                        lemma_search_keeps_last(env, c, b.right);
                    } else {
                        lemma_work_forward(c.tokens, c.index, c.index + 1);
                        lemma_while_keeps_last(env, c.advance(), rotated(t, op));
                    },
                    _ => {},
                },
            },
        },
    }
}

/// A run of token steps keeps the last token.
pub proof fn lemma_while_keeps_last(env: Env, c: Cursor, t: Expr)
    requires
        c.valid(),
        c.tokens.len() > 0,
    ensures
        keeps_last(c, while_next_token(env, c, t)),
    decreases work(c), t.size(), 3nat,
{
    if !c.at_end() {
        lemma_next_keeps_last(env, c, t);
        let r = next_token(env, c, t);
        if r.out is Go && work(r.cursor) < work(c) {
            lemma_while_keeps_last(env, r.cursor, r.tree);
        }
    }
}

/// Taking a token keeps the last token.
pub proof fn lemma_next_keeps_last(env: Env, c: Cursor, t: Expr)
    requires
        c.valid(),
        !c.at_end(),
    ensures
        keeps_last(c, next_token(env, c, t)),
    decreases work(c), t.size(), 2nat,
{
    let token = c.peek()->Some_0;
    lemma_with_mul_keeps_last(c);
    lemma_mul_before_keeps_last(c.advance());
    match token {
        Lexeme::LParen => {
            lemma_paren_keeps_last(env, c, t);
        },
        Lexeme::LBracket => {
            lemma_matrix_literal(env.fl, c);
            if let Ok((c1, _)) = matrix_literal(env.fl, c) {
                lemma_mul_before_keeps_last(c1);
            }
        },
        Lexeme::Name(s) => {
            if env.is_function(s) {
                lemma_function_keeps_last(env, c, t, s);
            }
        },
        _ => match operator_of(token) {
            Some(op) => {
                lemma_operator_keeps_last(env, c, t, op);
            },
            None => {},
        },
    }
}

/// Taking an operator keeps the last token.
pub proof fn lemma_operator_keeps_last(env: Env, c: Cursor, t: Expr, op: Operator)
    requires
        c.valid(),
        !c.at_end(),
    ensures
        keeps_last(c, add_operator(env, c, t, op)),
    decreases work(c), t.size(), 1nat,
{
    match t {
        crate::binary_tree::BinaryTree::Empty => {},
        crate::binary_tree::BinaryTree::NonEmpty(b) => match b.element {
            Node::Operator(tree_op) => if b.right is Empty {
            } else if tree_op.yields_to(op) {
                lemma_while_keeps_last(env, c, b.right);
            } else {
            },
            _ => {},
        },
    }
}

/// Taking a group keeps the last token.
pub proof fn lemma_paren_keeps_last(env: Env, c: Cursor, t: Expr)
    requires
        c.valid(),
        !c.at_end(),
    ensures
        keeps_last(c, add_paren(env, c, t)),
    decreases work(c), t.size(), 1nat,
{
    lemma_with_mul_keeps_last(c);
    match slot_of(t) {
        Slot::Multiply => {},
        Slot::Blocked => {},
        _ => {
            lemma_work_forward(c.tokens, c.index, c.index + 1);
            lemma_root_keeps_last(env, c.advance(), Expr::Empty);
            let inner = root_tree_loop(env, c.advance(), Expr::Empty);
            if !(inner.out is Fail) && inner.cursor.peek() == Some(Lexeme::RParen) {
                lemma_mul_before_keeps_last(inner.cursor.advance());
            }
        },
    }
}

/// Taking a call keeps the last token.
pub proof fn lemma_function_keeps_last(env: Env, c: Cursor, t: Expr, name: Seq<char>)
    requires
        c.valid(),
        !c.at_end(),
    ensures
        keeps_last(c, add_function(env, c, t, name)),
    decreases work(c), t.size(), 1nat,
{
    lemma_with_mul_keeps_last(c);
    match slot_of(t) {
        Slot::Multiply => {},
        Slot::Blocked => {},
        _ => {
            if c.advance().peek() == Some(Lexeme::LParen) {
                lemma_work_forward(c.tokens, c.index, c.index + 1);
                lemma_paren_keeps_last(env, c.advance(), Expr::Empty);
            }
        },
    }
}

} // verus!
