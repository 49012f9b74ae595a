use vstd::prelude::*;
use crate::binary_tree::BinaryTree;
use crate::lexer::{Lexeme, Token};
use crate::num::{Num, Value};
use crate::operator::Operator;
use crate::scalar::{floats_of, lawful, parse, Answer, Query, Scalar};

verus! {

/// What a node of an expression tree holds.
#[derive(Debug, PartialEq)]
pub enum Element {
    /// The missing left operand of a unary `+` or `-`.
    Dummy,
    Operator(Operator),
    Num(Num),
    /// A free identifier.
    Variable(Box<String>),
    /// A function call; the argument hangs to the left.
    Func(Box<String>),
}

/// An element as a mathematical value.
pub enum Node {
    Dummy,
    Operator(Operator),
    Num(Value),
    Variable(Seq<char>),
    Func(Seq<char>),
}

impl View for Element {
    type V = Node;

    open spec fn view(&self) -> Node {
        match self {
            Element::Dummy => Node::Dummy,
            Element::Operator(op) => Node::Operator(*op),
            Element::Num(n) => Node::Num(n@),
            Element::Variable(s) => Node::Variable(s@),
            Element::Func(s) => Node::Func(s@),
        }
    }
}

/// An expression as a mathematical tree.
pub type Expr = BinaryTree<Node>;

impl Element {
    /// A number held is well formed.
    pub open spec fn wf(&self) -> bool {
        match self {
            Element::Num(n) => n.wf(),
            _ => true,
        }
    }
}

impl Clone for Element {
    fn clone(&self) -> (res: Element)
        ensures
            res@ == self@,
            res.wf() == self.wf(),
    {
        match self {
            Element::Dummy => Element::Dummy,
            Element::Operator(op) => Element::Operator(*op),
            Element::Num(n) => Element::Num(n.clone()),
            Element::Variable(s) => Element::Variable(Box::new((**s).clone())),
            Element::Func(s) => Element::Func(Box::new((**s).clone())),
        }
    }
}

/// The expression holds no call.
pub open spec fn call_free(t: Expr) -> bool
    decreases t,
{
    match t {
        BinaryTree::Empty => true,
        BinaryTree::NonEmpty(b) => !(b.element is Func) && call_free(b.left) && call_free(b.right),
    }
}

/// Every call in the expression names a built-in function.
pub open spec fn plain(t: Expr) -> bool
    decreases t,
{
    match t {
        BinaryTree::Empty => true,
        BinaryTree::NonEmpty(b) => (b.element matches Node::Func(name)
            ==> crate::functions::is_builtin_name(name)) && plain(b.left) && plain(b.right),
    }
}

/// How far an expression is from being evaluated without looking up a
/// function body: 0 without calls, 1 with calls of built-in functions only,
/// 2 otherwise.
pub open spec fn rank(t: Expr) -> nat {
    if call_free(t) {
        0
    } else if plain(t) {
        1
    } else {
        2
    }
}

/// Every number in the tree is well formed.
pub open spec fn tree_wf(tree: BinaryTree<Element>) -> bool
    decreases tree,
{
    match tree {
        BinaryTree::Empty => true,
        BinaryTree::NonEmpty(b) => b.element.wf() && tree_wf(b.left) && tree_wf(b.right),
    }
}

/// Whether the tree has a root.
pub fn filled(tree: &BinaryTree<Element>) -> (b: bool)
    ensures
        b == (tree@ is NonEmpty),
        b == (*tree is NonEmpty),
{
    tree.is_non_empty()
}

/// The tree of one node.
pub fn leaf(element: Element) -> (tree: BinaryTree<Element>)
    ensures
        tree == BinaryTree::leaf(element),
        tree@ == Expr::leaf(element@),
        tree_wf(tree) == element.wf(),
{
    let tree = BinaryTree::from_element(element);
    assert(tree.left_tree()@ == Expr::Empty);
    assert(tree.right_tree()@ == Expr::Empty);
    assert(tree_wf(tree.left_tree()));
    assert(tree_wf(tree.right_tree()));
    tree
}

/// The tree with `element` over two subtrees.
pub fn join(element: Element, left: BinaryTree<Element>, right: BinaryTree<Element>) -> (tree:
    BinaryTree<Element>)
    ensures
        tree == BinaryTree::node(element, left, right),
        tree@ == Expr::node(element@, left@, right@),
        tree_wf(tree) == (element.wf() && tree_wf(left) && tree_wf(right)),
{
    BinaryTree::from_element_and_tree(element, left, right)
}

/// A copy of an expression tree.
pub fn copy_tree(tree: &BinaryTree<Element>) -> (res: BinaryTree<Element>)
    ensures
        res@ == tree@,
        tree_wf(res) == tree_wf(*tree),
    decreases *tree,
{
    match tree {
        BinaryTree::Empty => BinaryTree::Empty,
        BinaryTree::NonEmpty(b) => {
            let left = copy_tree(&b.left);
            let right = copy_tree(&b.right);
            join(b.element.clone(), left, right)
        },
    }
}

impl Clone for BinaryTree<Element> {
    fn clone(&self) -> (res: BinaryTree<Element>)
        ensures
            res@ == self@,
            tree_wf(res) == tree_wf(*self),
    {
        copy_tree(self)
    }
}

/// The positions of `ls` that hold `=`, in order, from position `i` on.
pub open spec fn equal_positions(ls: Seq<Lexeme>, i: int) -> Seq<int>
    decreases ls.len() - i,
{
    if i < 0 || i >= ls.len() {
        Seq::empty()
    } else if ls[i] is Equal {
        seq![i] + equal_positions(ls, i + 1)
    } else {
        equal_positions(ls, i + 1)
    }
}

/// Tokens to parse, and the position of the next one.
pub struct Parser {
    pub tokens: Vec<Token>,
    pub index: usize,
}

impl Parser {
    /// A parser at the first of `tokens`.
    pub fn new(tokens: Vec<Token>) -> (parser: Parser)
        ensures
            parser.tokens == tokens,
            parser.index == 0,
    {
        Parser { tokens, index: 0 }
    }

    /// The tokens are the single name `variables`.
    pub fn is_show_variable(tokens: &Vec<Token>) -> (b: bool)
        ensures
            b == (tokens.len() == 1 && tokens[0]@ == Lexeme::Name("variables"@)),
    {
        tokens.len() == 1 && is_name(&tokens[0], "variables")
    }

    /// The tokens are the single name `functions`.
    pub fn is_show_functions(tokens: &Vec<Token>) -> (b: bool)
        ensures
            b == (tokens.len() == 1 && tokens[0]@ == Lexeme::Name("functions"@)),
    {
        tokens.len() == 1 && is_name(&tokens[0], "functions")
    }

    /// The tokens are the single name `history`.
    pub fn is_show_commands(tokens: &Vec<Token>) -> (b: bool)
        ensures
            b == (tokens.len() == 1 && tokens[0]@ == Lexeme::Name("history"@)),
    {
        tokens.len() == 1 && is_name(&tokens[0], "history")
    }

    /// Splits the tokens at their only `=`, which is dropped.
    pub fn separate_equal(tokens: Vec<Token>) -> (res: Result<(Vec<Token>, Vec<Token>), String>)
        ensures
            ({
                let at = equal_positions(crate::lexer::lexemes(tokens@), 0);
                if at.len() == 0 {
                    res is Err && res->Err_0@ == "= never appeared: syntax error"@
                } else if at.len() >= 2 {
                    res is Err && res->Err_0@ == "= appeared twice: syntax error"@
                } else {
                    res is Ok && 0 <= at[0] < tokens@.len() && res->Ok_0.0@ == tokens@.subrange(
                        0,
                        at[0],
                    ) && res->Ok_0.1@ == tokens@.subrange(at[0] + 1, tokens@.len() as int)
                }
            }),
    {
        let ghost ls = crate::lexer::lexemes(tokens@);
        let n = tokens.len();
        let mut first: usize = n;
        let mut found = false;
        let mut twice = false;
        let mut i: usize = n;
        // Walk from the back, so that `first` ends on the first `=`.
        while i > 0
            invariant
                n == tokens.len(),
                ls == crate::lexer::lexemes(tokens@),
                0 <= i <= n,
                found == (equal_positions(ls, i as int).len() > 0),
                twice == (equal_positions(ls, i as int).len() >= 2),
                found ==> i <= first < n && equal_positions(ls, i as int)[0] == first,
                !found ==> first == n,
            decreases i,
        {
            i -= 1;
            if is_equal(&tokens[i]) {
                if found {
                    twice = true;
                }
                found = true;
                first = i;
            }
        }
        if twice {
            return Err(String::from_str("= appeared twice: syntax error"));
        }
        if !found {
            return Err(String::from_str("= never appeared: syntax error"));
        }
        let mut left = tokens;
        let right = left.split_off(first + 1);
        left.pop();
        assert(left@ =~= tokens@.subrange(0, first as int));
        Ok((left, right))
    }

    /// The tokens are a single `?`.
    pub fn is_question_tokens(tokens: &Vec<Token>) -> (b: bool)
        ensures
            b == (tokens.len() == 1 && tokens[0]@ is Question),
    {
        tokens.len() == 1 && is_question(&tokens[0])
    }

    /// The tokens end in `?` and hold more than that.
    pub fn is_solution_equation(tokens: &Vec<Token>) -> (b: bool)
        ensures
            b == (tokens.len() > 1 && tokens[tokens.len() - 1]@ is Question),
    {
        tokens.len() > 1 && is_question(&tokens[tokens.len() - 1])
    }

    /// The tokens are a single name.
    pub fn is_variable_register(tokens: &Vec<Token>) -> (b: bool)
        ensures
            b == (tokens.len() == 1 && tokens[0]@ is Name),
    {
        tokens.len() == 1 && is_string(&tokens[0])
    }

    /// The tokens are `name ( name )`.
    pub fn is_func_register(tokens: &Vec<Token>) -> (b: bool)
        ensures
            b == (tokens.len() == 4 && tokens[0]@ is Name && tokens[1]@ is LParen && tokens[2]@ is Name
                && tokens[3]@ is RParen),
    {
        tokens.len() == 4 && is_string(&tokens[0]) && is_left_paren(&tokens[1]) && is_string(
            &tokens[2],
        ) && is_right_paren(&tokens[3])
    }

    /// The text of a name token.
    pub fn get_string_token_string(token: &Token) -> (res: Result<&String, String>)
        ensures
            match token@ {
                Lexeme::Name(s) => res is Ok && res->Ok_0@ == s,
                _ => res is Err && res->Err_0@ == "syntax error"@,
            },
    {
        match token {
            Token::String(s) => Ok(s),
            _ => Err(String::from_str("syntax error")),
        }
    }

    /// The finite real that a number token denotes.
    pub fn get_num_token_float<F: Fn(Query) -> Answer>(token: &Token, fl: &F) -> (res: Result<
        Scalar,
        String,
    >)
        requires
            lawful(fl),
        ensures
            match literal_value(floats_of(fl), token@) {
                Ok(n) => res == Ok::<Scalar, String>(n),
                Err(m) => res is Err && res->Err_0@ == m,
            },
    {
        match token {
            Token::NumString(s) => {
                match Self::string_to_num(s, fl) {
                    Ok(Num::Float(n)) => Ok(n),
                    Ok(_) => Err(String::from_str("syntax error")),
                    Err(e) => Err(e),
                }
            },
            _ => Err(String::from_str("syntax error")),
        }
    }

    /// The finite real that a digit string denotes, as a number.
    pub fn string_to_num<F: Fn(Query) -> Answer>(string: &String, fl: &F) -> (res: Result<
        Num,
        String,
    >)
        requires
            lawful(fl),
        ensures
            match literal_value(floats_of(fl), Lexeme::Number(string@)) {
                Ok(n) => res is Ok && res->Ok_0@ == Value::Float(n),
                Err(m) => res is Err && res->Err_0@ == m,
            },
    {
        let num = match Num::from_string_to_float(string, fl) {
            Ok(n) => n,
            Err(e) => {
                return Err(e);
            },
        };
        match num.checked_value(fl) {
            Ok(_) => {},
            Err(e) => {
                return Err(e);
            },
        }
        Ok(num)
    }
}

/// The value of a number token: the finite real its text denotes.
pub open spec fn literal_value(fl: crate::scalar::Floats, token: Lexeme) -> Result<
    Scalar,
    Seq<char>,
> {
    match token {
        Lexeme::Number(s) => match (fl.parse)(s) {
            Some(n) => if n.finite() {
                Ok(n)
            } else {
                Err(crate::matrix::not_finite_message(fl, n))
            },
            None => Err("Conversion Failure"@),
        },
        _ => Err("syntax error"@),
    }
}

/// Whether the token is the name `name`.
pub fn is_name(token: &Token, name: &str) -> (b: bool)
    ensures
        b == (token@ == Lexeme::Name(name@)),
{
    match token {
        Token::String(s) => {
            let other = String::from_str(name);
            **s == other
        },
        _ => false,
    }
}

/// Whether the token is `=`.
pub fn is_equal(token: &Token) -> (b: bool)
    ensures
        b == (token@ is Equal),
{
    match token {
        Token::Equal => true,
        _ => false,
    }
}

/// Whether the token is `?`.
pub fn is_question(token: &Token) -> (b: bool)
    ensures
        b == (token@ is Question),
{
    match token {
        Token::Question => true,
        _ => false,
    }
}

/// Whether the token is a name.
pub fn is_string(token: &Token) -> (b: bool)
    ensures
        b == (token@ is Name),
{
    match token {
        Token::String(_) => true,
        _ => false,
    }
}

/// Whether the token is `(`.
pub fn is_left_paren(token: &Token) -> (b: bool)
    ensures
        b == (token@ is LParen),
{
    match token {
        Token::LParen => true,
        _ => false,
    }
}

/// Whether the token is `)`.
pub fn is_right_paren(token: &Token) -> (b: bool)
    ensures
        b == (token@ is RParen),
{
    match token {
        Token::RParen => true,
        _ => false,
    }
}

} // verus!
