use vstd::prelude::*;
use crate::binary_tree::{BinaryTree, TreeNode};
use crate::data_base::DataBase;
use crate::lexer::{lexemes, Lexeme, Token};
use crate::matrix::{grid_of, Grid};
use crate::num::Num;
use crate::operator::Operator;
use crate::parser::{filled, join, leaf, tree_wf, Element, Parser};
use crate::scalar::{debug, floats_of, lawful, Answer, Query, Scalar};
use crate::syntax::{
    add_function, add_matrix, add_num, add_operand, add_operator, add_paren, closed, inv,
    lemma_function, lemma_matrix_literal, lemma_next, lemma_operator, lemma_paren, lemma_root,
    lemma_row_entries, lemma_rows, lemma_search, lemma_while, lemma_work_forward, make_tree,
    matrix_literal, next_token, operator_of, placed, root_tree_loop, rotated, row_entries, rows,
    search_add_point, slot_of, stray_number, unit_leaf, while_next_token, work, Cursor, Env,
    Outcome, Parsed, Slot,
};

verus! {

/// What parsing depends on, taken from a store and an arithmetic.
pub open spec fn env_of<F: Fn(Query) -> Answer>(db: &DataBase, fl: &F) -> Env {
    Env { fl: floats_of(fl), store: db@ }
}

/// The parser state and the outcome stand for the step `p`. After a
/// failure only the message counts.
pub open spec fn agrees(
    p: Parsed,
    cursor: Cursor,
    tree: BinaryTree<Element>,
    out: Result<bool, String>,
) -> bool {
    match p.out {
        Outcome::Fail(m) => out is Err && out->Err_0@ == m,
        Outcome::Go => out == Ok::<bool, String>(false) && cursor == p.cursor && tree@ == p.tree
            && tree_wf(tree),
        Outcome::Close => out == Ok::<bool, String>(true) && cursor == p.cursor && tree@ == p.tree
            && tree_wf(tree),
    }
}

/// As `agrees`, for a step that gives no closing signal.
pub open spec fn agrees_unit(
    p: Parsed,
    cursor: Cursor,
    tree: BinaryTree<Element>,
    out: Result<(), String>,
) -> bool {
    match p.out {
        Outcome::Fail(m) => out is Err && out->Err_0@ == m,
        _ => out is Ok && cursor == p.cursor && tree@ == p.tree && tree_wf(tree),
    }
}

/// Where an operand goes in the tree.
pub fn slot(tree: &BinaryTree<Element>) -> (s: Slot)
    ensures
        s == slot_of(tree@),
{
    match tree {
        BinaryTree::Empty => Slot::Whole,
        BinaryTree::NonEmpty(b) => match &b.element {
            Element::Num(_) | Element::Variable(_) | Element::Func(_) => Slot::Multiply,
            Element::Dummy => Slot::Blocked,
            Element::Operator(_) => if filled(&b.right) {
                Slot::Multiply
            } else {
                Slot::Right
            },
        },
    }
}

/// Puts `operand` into the open slot of `tree`.
pub fn place(tree: BinaryTree<Element>, operand: BinaryTree<Element>) -> (res: BinaryTree<Element>)
    requires
        tree_wf(tree),
        tree_wf(operand),
    ensures
        res@ == placed(tree@, operand@),
        tree_wf(res),
{
    match tree {
        BinaryTree::Empty => operand,
        BinaryTree::NonEmpty(b) => {
            let node = *b;
            join(node.element, node.left, operand)
        },
    }
}

/// The operator at the root of the tree, if there is one.
pub open spec fn root_operator(t: crate::parser::Expr) -> Option<Operator> {
    match t {
        BinaryTree::Empty => None,
        BinaryTree::NonEmpty(b) => match b.element {
            crate::parser::Node::Operator(op) => Some(op),
            _ => None,
        },
    }
}

fn syntax_error() -> (text: String)
    ensures
        text@ == crate::syntax::syntax_error(),
{
    String::from_str("syntax error")
}

impl Parser {
    /// The binary operator that a token denotes.
    pub fn token_to_operator(token: &Token) -> (res: Result<Operator, String>)
        ensures
            match operator_of(token@) {
                Some(op) => res == Ok::<Operator, String>(op),
                None => res is Err && res->Err_0@ == "syntax error"@,
            },
    {
        match token {
            Token::Plus => Ok(Operator::Plus),
            Token::Minus => Ok(Operator::Minus),
            Token::Asterisk => Ok(Operator::Mul),
            Token::Slash => Ok(Operator::Div),
            Token::Percent => Ok(Operator::Rem),
            Token::Caret => Ok(Operator::Pow),
            Token::TwoAsterisk => Ok(Operator::MatrixMul),
            _ => Err(syntax_error()),
        }
    }

    /// The operator at the root of the tree.
    pub fn get_tree_element_operator(tree: &BinaryTree<Element>) -> (res: Result<&Operator, String>)
        ensures
            match root_operator(tree@) {
                Some(op) => res is Ok && *res->Ok_0 == op,
                None => res is Err && res->Err_0@ == "syntax error"@,
            },
    {
        match tree {
            BinaryTree::Empty => Err(syntax_error()),
            BinaryTree::NonEmpty(node_box) => match &node_box.element {
                Element::Operator(op) => Ok(op),
                _ => Err(syntax_error()),
            },
        }
    }

    /// Makes `operator` the root of the tree, with the tree so far as its
    /// left operand and nothing yet as its right operand.
    pub fn replace_and_add_left(tree: &mut BinaryTree<Element>, operator: Operator)
        requires
            tree_wf(*old(tree)),
        ensures
            final(tree)@ == rotated(old(tree)@, operator),
            tree_wf(*final(tree)),
    {
        let mut taken = BinaryTree::Empty;
        std::mem::swap(tree, &mut taken);
        *tree = join(Element::Operator(operator), taken, BinaryTree::Empty);
    }

    /// The tokens and the position, as the grammar sees them.
    pub open spec fn cursor(&self) -> Cursor {
        Cursor { tokens: lexemes(self.tokens@), index: self.index as int }
    }

    /// The position lies within the tokens or directly behind them.
    pub open spec fn wf(&self) -> bool {
        self.index <= self.tokens.len()
    }

    /// The tree that the tokens from the current position on stand for.
    ///
    /// Names that resolve to a function in `data_base` are parsed as calls.
    pub fn make_tree<F: Fn(Query) -> Answer>(&mut self, data_base: &DataBase, fl: &F) -> (res:
        Result<BinaryTree<Element>, String>)
        requires
            old(self).wf(),
            data_base.wf(),
            lawful(fl),
        ensures
            final(self).wf(),
            match make_tree(env_of(data_base, fl), old(self).cursor()) {
                Ok(t) => res is Ok && res->Ok_0@ == t && tree_wf(res->Ok_0),
                Err(m) => res is Err && res->Err_0@ == m,
            },
            res is Ok ==> final(self).cursor() == root_tree_loop(
                env_of(data_base, fl),
                old(self).cursor(),
                crate::parser::Expr::Empty,
            ).cursor,
    {
        let (tree, out) = self.root_tree_loop(BinaryTree::new(), data_base, fl);
        match out {
            Err(e) => Err(e),
            Ok(_) => {
                if self.index < self.tokens.len() {
                    return Err(syntax_error());
                }
                Ok(tree)
            },
        }
    }

    fn root_tree_loop<F: Fn(Query) -> Answer>(
        &mut self,
        tree: BinaryTree<Element>,
        data_base: &DataBase,
        fl: &F,
    ) -> (res: (BinaryTree<Element>, Result<(), String>))
        requires
            old(self).wf(),
            inv(old(self).cursor(), tree@),
            tree_wf(tree),
            data_base.wf(),
            lawful(fl),
        ensures
            final(self).wf(),
            agrees_unit(
                root_tree_loop(env_of(data_base, fl), old(self).cursor(), tree@),
                final(self).cursor(),
                res.0,
                res.1,
            ),
        decreases work(old(self).cursor()), tree@.size(), 5nat,
    {
        let ghost env = env_of(data_base, fl);
        let ghost start = self.cursor();
        let ghost first = tree@;
        let mut current = tree;
        while self.index < self.tokens.len()
            invariant
                self.wf(),
                inv(self.cursor(), current@),
                tree_wf(current),
                data_base.wf(),
                lawful(fl),
                env == env_of(data_base, fl),
                start == old(self).cursor(),
                first == tree@,
                root_tree_loop(env, self.cursor(), current@) == root_tree_loop(env, start, first),
                work(self.cursor()) < work(start) || (self.cursor() == start && current@ == first),
            decreases work(self.cursor()),
        {
            proof {
                lemma_search(env, self.cursor(), current@);
            }
            let (next, out) = self.search_add_point(current, data_base, fl);
            match out {
                Err(e) => {
                    return (next, Err(e));
                },
                Ok(_) => {},
            }
            current = next;
            if self.is_r_paren() {
                return (current, Ok(()));
            }
        }
        (current, Ok(()))
    }

    fn search_add_point<F: Fn(Query) -> Answer>(
        &mut self,
        tree: BinaryTree<Element>,
        data_base: &DataBase,
        fl: &F,
    ) -> (res: (BinaryTree<Element>, Result<(), String>))
        requires
            old(self).wf(),
            old(self).index < old(self).tokens.len(),
            inv(old(self).cursor(), tree@),
            tree_wf(tree),
            data_base.wf(),
            lawful(fl),
        ensures
            final(self).wf(),
            agrees_unit(
                search_add_point(env_of(data_base, fl), old(self).cursor(), tree@),
                final(self).cursor(),
                res.0,
                res.1,
            ),
        decreases work(old(self).cursor()), tree@.size(), 4nat,
    {
        match tree {
            BinaryTree::Empty => {
                let (next, out) = self.while_next_token(BinaryTree::Empty, data_base, fl);
                match out {
                    Err(e) => (next, Err(e)),
                    Ok(_) => (next, Ok(())),
                }
            },
            BinaryTree::NonEmpty(b) => {
                let operator = match Self::token_to_operator(&self.tokens[self.index]) {
                    Ok(op) => op,
                    Err(e) => {
                        return (BinaryTree::NonEmpty(b), Err(e));
                    },
                };
                let tree_op = match &b.element {
                    Element::Operator(op) => *op,
                    _ => {
                        return (BinaryTree::NonEmpty(b), Err(syntax_error()));
                    },
                };
                if tree_op.priority(&operator) {
                    let node = *b;
                    let (right, out) = self.search_add_point(node.right, data_base, fl);
                    match out {
                        Err(e) => (right, Err(e)),
                        Ok(_) => (join(node.element, node.left, right), Ok(())),
                    }
                } else {
                    let mut rotated = BinaryTree::NonEmpty(b);
                    Self::replace_and_add_left(&mut rotated, operator);
                    proof {
                        lemma_work_forward(
                            old(self).cursor().tokens,
                            self.index as int,
                            self.index + 1,
                        );
                    }
                    self.index_plus();
                    let (next, out) = self.while_next_token(rotated, data_base, fl);
                    match out {
                        Err(e) => (next, Err(e)),
                        Ok(_) => (next, Ok(())),
                    }
                }
            },
        }
    }

    /// The token at the current position.
    pub fn get_next_token(&self) -> (res: Result<&Token, String>)
        ensures
            self.index < self.tokens.len() ==> res == Ok::<&Token, String>(
                &self.tokens[self.index as int],
            ),
            self.index >= self.tokens.len() ==> res is Err && res->Err_0@ == "syntax error"@,
    {
        if self.index < self.tokens.len() {
            Ok(&self.tokens[self.index])
        } else {
            Err(syntax_error())
        }
    }

    /// Moves to the next token.
    pub fn index_plus(&mut self)
        requires
            old(self).index < old(self).tokens.len(),
        ensures
            final(self).tokens == old(self).tokens,
            final(self).index == old(self).index + 1,
            final(self).cursor() == old(self).cursor().advance(),
    {
        self.index += 1;
    }

    fn while_next_token<F: Fn(Query) -> Answer>(
        &mut self,
        tree: BinaryTree<Element>,
        data_base: &DataBase,
        fl: &F,
    ) -> (res: (BinaryTree<Element>, Result<bool, String>))
        requires
            old(self).wf(),
            inv(old(self).cursor(), tree@),
            tree_wf(tree),
            data_base.wf(),
            lawful(fl),
        ensures
            final(self).wf(),
            agrees(
                while_next_token(env_of(data_base, fl), old(self).cursor(), tree@),
                final(self).cursor(),
                res.0,
                res.1,
            ),
        decreases work(old(self).cursor()), tree@.size(), 3nat,
    {
        let ghost env = env_of(data_base, fl);
        let ghost start = self.cursor();
        let ghost first = tree@;
        let mut current = tree;
        while self.index < self.tokens.len()
            invariant
                self.wf(),
                inv(self.cursor(), current@),
                tree_wf(current),
                data_base.wf(),
                lawful(fl),
                env == env_of(data_base, fl),
                start == old(self).cursor(),
                first == tree@,
                while_next_token(env, self.cursor(), current@) == while_next_token(
                    env,
                    start,
                    first,
                ),
                work(self.cursor()) < work(start) || (self.cursor() == start && current@ == first),
            decreases work(self.cursor()),
        {
            proof {
                lemma_next(env, self.cursor(), current@);
            }
            let (next, out) = self.next_token(current, data_base, fl);
            match out {
                Err(e) => {
                    return (next, Err(e));
                },
                Ok(true) => {
                    return (next, Ok(true));
                },
                Ok(false) => {},
            }
            current = next;
        }
        (current, Ok(false))
    }

    fn next_token<F: Fn(Query) -> Answer>(
        &mut self,
        tree: BinaryTree<Element>,
        data_base: &DataBase,
        fl: &F,
    ) -> (res: (BinaryTree<Element>, Result<bool, String>))
        requires
            old(self).wf(),
            old(self).index < old(self).tokens.len(),
            inv(old(self).cursor(), tree@),
            tree_wf(tree),
            data_base.wf(),
            lawful(fl),
        ensures
            final(self).wf(),
            agrees(
                next_token(env_of(data_base, fl), old(self).cursor(), tree@),
                final(self).cursor(),
                res.0,
                res.1,
            ),
        decreases work(old(self).cursor()), tree@.size(), 2nat,
    {
        let token = &self.tokens[self.index];
        match token {
            Token::NumString(_) => {
                if let Slot::Multiply = slot(&tree) {
                    self.insert_mul();
                    return (tree, Ok(false));
                }
                let x = match Self::get_num_token_float(token, fl) {
                    Ok(x) => x,
                    Err(e) => {
                        return (tree, Err(e));
                    },
                };
                match Self::add_num(tree, x, fl) {
                    Ok(next) => {
                        self.index_plus();
                        (next, Ok(false))
                    },
                    Err(e) => (BinaryTree::Empty, Err(e)),
                }
            },
            Token::I => self.add_complex(tree),
            Token::LParen => self.add_paren(tree, data_base, fl),
            Token::LBracket => self.add_matrix(tree, fl),
            Token::RParen => (tree, Ok(true)),
            Token::String(s) => {
                let name: String = (**s).clone();
                if Self::is_function(&name, data_base) {
                    self.add_function(tree, name, data_base, fl)
                } else {
                    self.add_variable(tree, name)
                }
            },
            _ => match Self::token_to_operator(token) {
                Ok(op) => self.add_operator(tree, op, data_base, fl),
                Err(e) => (tree, Err(e)),
            },
        }
    }

    /// Whether the name resolves to a function.
    pub fn is_function(name: &String, data_base: &DataBase) -> (b: bool)
        requires
            data_base.wf(),
        ensures
            b == (data_base@.get_func(name@) is Some),
    {
        match data_base.get_func(name) {
            Some(_) => true,
            None => false,
        }
    }

    fn add_num<F: Fn(Query) -> Answer>(tree: BinaryTree<Element>, x: Scalar, fl: &F) -> (res:
        Result<BinaryTree<Element>, String>)
        requires
            tree_wf(tree),
            lawful(fl),
        ensures
            match add_num(floats_of(fl), tree@, x) {
                Ok(t) => res is Ok && res->Ok_0@ == t && tree_wf(res->Ok_0),
                Err(m) => res is Err && res->Err_0@ == m,
            },
    {
        let operand = leaf(Element::Num(Num::Float(x)));
        match slot(&tree) {
            Slot::Whole => Ok(operand),
            Slot::Right => match tree {
                BinaryTree::Empty => Ok(operand),
                BinaryTree::NonEmpty(b) => {
                    let node = *b;
                    if !filled(&node.left) {
                        Ok(join(node.element, operand, node.right))
                    } else {
                        Ok(join(node.element, node.left, operand))
                    }
                },
            },
            _ => Err(Self::stray(x, fl)),
        }
    }

    fn stray<F: Fn(Query) -> Answer>(x: Scalar, fl: &F) -> (text: String)
        requires
            lawful(fl),
        ensures
            text@ == stray_number(floats_of(fl), x),
    {
        let mut text = String::from_str("Float(");
        let d = debug(fl, x);
        text.append(d.as_str());
        text.append("): syntax error");
        text
    }

    /// Puts `*` in front of a number or a name that follows directly.
    fn mul_before_operand(&mut self)
        requires
            old(self).wf(),
        ensures
            final(self).wf(),
            final(self).cursor() == old(self).cursor().mul_before_operand(),
    {
        if self.is_num() || self.is_string_token() {
            self.insert_mul();
        }
    }

    fn add_complex(&mut self, tree: BinaryTree<Element>) -> (res: (
        BinaryTree<Element>,
        Result<bool, String>,
    ))
        requires
            old(self).wf(),
            old(self).index < old(self).tokens.len(),
            tree_wf(tree),
        ensures
            final(self).wf(),
            agrees(
                add_operand(old(self).cursor(), tree@, unit_leaf(), "i: syntax error"@),
                final(self).cursor(),
                res.0,
                res.1,
            ),
    {
        match slot(&tree) {
            Slot::Multiply => {
                self.insert_mul();
                (tree, Ok(false))
            },
            Slot::Blocked => (tree, Err(String::from_str("i: syntax error"))),
            _ => {
                let next = place(tree, leaf(Element::Num(Num::new_complex())));
                self.index_plus();
                self.mul_before_operand();
                (next, Ok(false))
            },
        }
    }

    fn add_matrix<F: Fn(Query) -> Answer>(&mut self, tree: BinaryTree<Element>, fl: &F) -> (res: (
        BinaryTree<Element>,
        Result<bool, String>,
    ))
        requires
            old(self).wf(),
            old(self).index < old(self).tokens.len(),
            tree_wf(tree),
            lawful(fl),
        ensures
            final(self).wf(),
            agrees(
                add_matrix(floats_of(fl), old(self).cursor(), tree@),
                final(self).cursor(),
                res.0,
                res.1,
            ),
    {
        match slot(&tree) {
            Slot::Multiply => {
                self.insert_mul();
                (tree, Ok(false))
            },
            Slot::Blocked => (tree, Err(syntax_error())),
            _ => {
                let matrix = match self.token_to_matrix(fl) {
                    Ok(m) => m,
                    Err(e) => {
                        return (tree, Err(e));
                    },
                };
                let next = place(tree, leaf(Element::Num(matrix)));
                self.mul_before_operand();
                (next, Ok(false))
            },
        }
    }

    fn token_to_matrix<F: Fn(Query) -> Answer>(&mut self, fl: &F) -> (res: Result<Num, String>)
        requires
            old(self).wf(),
            old(self).index < old(self).tokens.len(),
            lawful(fl),
        ensures
            final(self).wf(),
            match matrix_literal(floats_of(fl), old(self).cursor()) {
                Ok((c, g)) => res is Ok && res->Ok_0@ == crate::num::Value::Matrix(g)
                    && res->Ok_0.wf() && final(self).cursor() == c,
                Err(m) => res is Err && res->Err_0@ == m,
            },
    {
        let ghost f = floats_of(fl);
        let ghost begin = self.cursor().advance();
        let mut vec: Vec<Vec<Scalar>> = Vec::new();
        self.index_plus();
        assert(grid_of(vec@) =~= Seq::<Seq<Scalar>>::empty());
        loop
            invariant_except_break
                rows(f, self.cursor(), grid_of(vec@)) == rows(f, begin, Seq::empty()),
            invariant
                self.wf(),
                lawful(fl),
                f == floats_of(fl),
                self.tokens == old(self).tokens,
                begin == old(self).cursor().advance(),
            ensures
                rows(f, begin, Seq::empty()) == Ok::<(Cursor, Grid), Seq<char>>(
                    (self.cursor(), grid_of(vec@)),
                ),
            decreases self.tokens.len() - self.index,
        {
            let ghost row_start = self.cursor();
            let ghost acc = grid_of(vec@);
            if !self.is_next_token(Token::LBracket) {
                return Err(syntax_error());
            }
            self.index_plus();
            let ghost entries_start = self.cursor();
            let mut v: Vec<Scalar> = Vec::new();
            assert(v@ =~= Seq::<Scalar>::empty());
            loop
                invariant_except_break
                    row_entries(f, self.cursor(), v@) == row_entries(
                        f,
                        entries_start,
                        Seq::empty(),
                    ),
                invariant
                    self.wf(),
                    lawful(fl),
                    f == floats_of(fl),
                    self.tokens == old(self).tokens,
                    begin == old(self).cursor().advance(),
                    row_start.peek() == Some(Lexeme::LBracket),
                    entries_start == row_start.advance(),
                    rows(f, row_start, acc) == rows(f, begin, Seq::empty()),
                    acc == grid_of(vec@),
                ensures
                    row_entries(f, entries_start, Seq::empty()) == Ok::<
                        (Cursor, Seq<Scalar>),
                        Seq<char>,
                    >((self.cursor(), v@)),
                decreases self.tokens.len() - self.index,
            {
                if !self.is_num() {
                    return Err(syntax_error());
                }
                let value = match Self::get_num_token_float(&self.tokens[self.index], fl) {
                    Ok(x) => x,
                    Err(e) => {
                        return Err(e);
                    },
                };
                v.push(value);
                self.index_plus();
                if !self.is_next_token(Token::Comma) {
                    break;
                }
                self.index_plus();
            }
            proof {
                lemma_row_entries(f, entries_start, Seq::empty());
            }
            if !self.is_next_token(Token::RBracket) {
                return Err(syntax_error());
            }
            self.index_plus();
            let ghost row = v@;
            vec.push(v);
            assert(grid_of(vec@) =~= acc.push(row));
            if !self.is_next_token(Token::SemiColon) {
                break;
            }
            self.index_plus();
        }
        if !self.is_next_token(Token::RBracket) {
            Err(syntax_error())
        } else {
            self.index_plus();
            Num::from_vec(vec)
        }
    }

    /// Whether the token at the current position is `token`.
    pub fn is_next_token(&self, token: Token) -> (b: bool)
        ensures
            b == (self.cursor().peek() == Some(token@)),
    {
        if self.index < self.tokens.len() {
            same_token(&self.tokens[self.index], &token)
        } else {
            false
        }
    }

    fn add_operator<F: Fn(Query) -> Answer>(
        &mut self,
        tree: BinaryTree<Element>,
        operator: Operator,
        data_base: &DataBase,
        fl: &F,
    ) -> (res: (BinaryTree<Element>, Result<bool, String>))
        requires
            old(self).wf(),
            old(self).index < old(self).tokens.len(),
            operator_of(old(self).cursor().peek()->Some_0) == Some(operator),
            inv(old(self).cursor(), tree@),
            tree_wf(tree),
            data_base.wf(),
            lawful(fl),
        ensures
            final(self).wf(),
            agrees(
                add_operator(env_of(data_base, fl), old(self).cursor(), tree@, operator),
                final(self).cursor(),
                res.0,
                res.1,
            ),
        decreases work(old(self).cursor()), tree@.size(), 1nat,
    {
        match tree {
            BinaryTree::Empty => {
                match operator {
                    Operator::Plus | Operator::Minus => {
                        let next = join(
                            Element::Operator(operator),
                            leaf(Element::Dummy),
                            BinaryTree::Empty,
                        );
                        self.index_plus();
                        (next, Ok(false))
                    },
                    _ => (
                        BinaryTree::Empty,
                        Err(String::from_str("Unsupported unary operators: syntax error")),
                    ),
                }
            },
            BinaryTree::NonEmpty(b) => {
                let tree_op = match &b.element {
                    Element::Num(_) | Element::Variable(_) | Element::Func(_) => {
                        let mut next = BinaryTree::NonEmpty(b);
                        Self::replace_and_add_left(&mut next, operator);
                        self.index_plus();
                        return (next, Ok(false));
                    },
                    Element::Operator(tree_op) => *tree_op,
                    Element::Dummy => {
                        return (BinaryTree::NonEmpty(b), Err(syntax_error()));
                    },
                };
                if !filled(&b.right) {
                    return (BinaryTree::NonEmpty(b), Err(syntax_error()));
                }
                if tree_op.priority(&operator) {
                    let node = *b;
                    let (right, out) = self.while_next_token(node.right, data_base, fl);
                    match out {
                        Err(e) => (right, Err(e)),
                        Ok(close) => (join(node.element, node.left, right), Ok(close)),
                    }
                } else {
                    (BinaryTree::NonEmpty(b), Ok(true))
                }
            },
        }
    }

    fn add_paren<F: Fn(Query) -> Answer>(
        &mut self,
        tree: BinaryTree<Element>,
        data_base: &DataBase,
        fl: &F,
    ) -> (res: (BinaryTree<Element>, Result<bool, String>))
        requires
            old(self).wf(),
            old(self).index < old(self).tokens.len(),
            old(self).cursor().peek() == Some(Lexeme::LParen),
            inv(old(self).cursor(), tree@),
            tree_wf(tree),
            data_base.wf(),
            lawful(fl),
        ensures
            final(self).wf(),
            agrees(
                add_paren(env_of(data_base, fl), old(self).cursor(), tree@),
                final(self).cursor(),
                res.0,
                res.1,
            ),
        decreases work(old(self).cursor()), tree@.size(), 1nat,
    {
        match slot(&tree) {
            Slot::Multiply => {
                self.insert_mul();
                return (tree, Ok(false));
            },
            Slot::Blocked => {
                return (tree, Err(syntax_error()));
            },
            _ => {},
        }
        proof {
            lemma_work_forward(old(self).cursor().tokens, self.index as int, self.index + 1);
        }
        self.index_plus();
        let (inner, out) = self.root_tree_loop(BinaryTree::Empty, data_base, fl);
        match out {
            Err(e) => {
                return (inner, Err(e));
            },
            Ok(_) => {},
        }
        if !filled(&inner) {
            return (inner, Err(String::from_str("(): syntax error")));
        }
        if self.is_r_paren() {
            let group = join(
                Element::Operator(Operator::Paren),
                inner,
                leaf(Element::Operator(Operator::RParen)),
            );
            self.index_plus();
            self.mul_before_operand();
            (place(tree, group), Ok(false))
        } else {
            (inner, Err(String::from_str("(: syntax error")))
        }
    }

    fn add_variable(&mut self, tree: BinaryTree<Element>, name: String) -> (res: (
        BinaryTree<Element>,
        Result<bool, String>,
    ))
        requires
            old(self).wf(),
            old(self).index < old(self).tokens.len(),
            tree_wf(tree),
        ensures
            final(self).wf(),
            agrees(
                add_operand(
                    old(self).cursor(),
                    tree@,
                    crate::parser::Expr::leaf(crate::parser::Node::Variable(name@)),
                    name@ + ": syntax error"@,
                ),
                final(self).cursor(),
                res.0,
                res.1,
            ),
    {
        match slot(&tree) {
            Slot::Multiply => {
                self.insert_mul();
                (tree, Ok(false))
            },
            Slot::Blocked => {
                let mut text = name;
                text.append(": syntax error");
                (tree, Err(text))
            },
            _ => {
                let next = place(tree, leaf(Element::Variable(Box::new(name))));
                self.index_plus();
                self.mul_before_operand();
                (next, Ok(false))
            },
        }
    }

    fn add_function<F: Fn(Query) -> Answer>(
        &mut self,
        tree: BinaryTree<Element>,
        name: String,
        data_base: &DataBase,
        fl: &F,
    ) -> (res: (BinaryTree<Element>, Result<bool, String>))
        requires
            old(self).wf(),
            old(self).index < old(self).tokens.len(),
            old(self).cursor().peek() == Some(Lexeme::Name(name@)),
            inv(old(self).cursor(), tree@),
            tree_wf(tree),
            data_base.wf(),
            lawful(fl),
        ensures
            final(self).wf(),
            agrees(
                add_function(env_of(data_base, fl), old(self).cursor(), tree@, name@),
                final(self).cursor(),
                res.0,
                res.1,
            ),
        decreases work(old(self).cursor()), tree@.size(), 1nat,
    {
        match slot(&tree) {
            Slot::Multiply => {
                self.insert_mul();
                return (tree, Ok(false));
            },
            Slot::Blocked => {
                let mut text = name;
                text.append(": syntax error");
                return (tree, Err(text));
            },
            _ => {},
        }
        proof {
            lemma_work_forward(old(self).cursor().tokens, self.index as int, self.index + 1);
        }
        self.index_plus();
        if !self.is_l_paren() {
            let mut text = String::from_str("error: ");
            text.append(name.as_str());
            text.append(" is defined as a function, so it needs parentheses");
            return (tree, Err(text));
        }
        let (argument, out) = self.add_paren(BinaryTree::Empty, data_base, fl);
        match out {
            Err(e) => (argument, Err(e)),
            Ok(close) => {
                let call = join(
                    Element::Func(Box::new(name)),
                    argument,
                    leaf(Element::Operator(Operator::RParen)),
                );
                (place(tree, call), Ok(close))
            },
        }
    }

    /// Puts a `*` in front of the token at the current position.
    pub fn insert_mul(&mut self)
        requires
            old(self).wf(),
        ensures
            final(self).wf(),
            final(self).index == old(self).index,
            final(self).tokens@ == old(self).tokens@.insert(old(self).index as int, Token::Asterisk),
            final(self).cursor() == old(self).cursor().with_mul(),
    {
        self.tokens.insert(self.index, Token::Asterisk);
        assert(lexemes(self.tokens@) =~= lexemes(old(self).tokens@).insert(
            self.index as int,
            Lexeme::Asterisk,
        ));
    }

    /// Whether the token at the current position is `)`.
    pub fn is_r_paren(&self) -> (b: bool)
        ensures
            b == (self.cursor().peek() == Some(Lexeme::RParen)),
    {
        self.index < self.tokens.len() && crate::parser::is_right_paren(&self.tokens[self.index])
    }

    /// Whether the token at the current position is `(`.
    pub fn is_l_paren(&self) -> (b: bool)
        ensures
            b == (self.cursor().peek() == Some(Lexeme::LParen)),
    {
        self.index < self.tokens.len() && crate::parser::is_left_paren(&self.tokens[self.index])
    }

    /// Whether the token at the current position is a number.
    pub fn is_num(&self) -> (b: bool)
        ensures
            b == (self.cursor().peek() is Some && self.cursor().peek()->Some_0 is Number),
    {
        self.index < self.tokens.len() && match &self.tokens[self.index] {
            Token::NumString(_) => true,
            _ => false,
        }
    }

    /// Whether the token at the current position is a name.
    pub fn is_string_token(&self) -> (b: bool)
        ensures
            b == (self.cursor().peek() is Some && self.cursor().peek()->Some_0 is Name),
    {
        self.index < self.tokens.len() && crate::parser::is_string(&self.tokens[self.index])
    }
}

/// Whether two tokens are the same: the same kind, and the same text
/// where they have one.
pub fn same_token(a: &Token, b: &Token) -> (same: bool)
    ensures
        same == (a@ == b@),
{
    match (a, b) {
        (Token::LParen, Token::LParen) => true,
        (Token::RParen, Token::RParen) => true,
        (Token::LBracket, Token::LBracket) => true,
        (Token::RBracket, Token::RBracket) => true,
        (Token::Comma, Token::Comma) => true,
        (Token::SemiColon, Token::SemiColon) => true,
        (Token::Caret, Token::Caret) => true,
        (Token::TwoAsterisk, Token::TwoAsterisk) => true,
        (Token::Asterisk, Token::Asterisk) => true,
        (Token::Slash, Token::Slash) => true,
        (Token::Percent, Token::Percent) => true,
        (Token::Plus, Token::Plus) => true,
        (Token::Minus, Token::Minus) => true,
        (Token::I, Token::I) => true,
        (Token::Equal, Token::Equal) => true,
        (Token::Question, Token::Question) => true,
        (Token::NumString(x), Token::NumString(y)) => **x == **y,
        (Token::String(x), Token::String(y)) => **x == **y,
        _ => false,
    }
}

} // verus!
