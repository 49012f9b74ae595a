use vstd::arithmetic::power::{
    lemma0_pow, lemma1_pow, lemma_pow0, lemma_pow1, lemma_pow_adds, lemma_pow_increases, pow,
};
use vstd::prelude::*;
use crate::binary_tree::BinaryTree;
use crate::matrix::{not_finite, not_finite_message};
use crate::num::{value_text, Num, Value};
use crate::operator::Operator;
use crate::parser::{tree_wf, Element, Expr, Node};
use crate::scalar::{
    apply, display, floats_of, lawful, Answer, FloatOp, Floats, Query, Scalar, ONE_BITS, SIGN_BIT,
};
use crate::text::{decimal, int_to_string, pop_char};

verus! {

/// The number of terms a product may have at most.
pub const MAX_TERMS: usize = 1000;

/// One term of a polynomial: a coefficient and the power of the variable.
#[derive(Debug, PartialEq, Clone, Copy)]
pub struct Term {
    pub coefficient: Scalar,
    pub degree: i64,
}

/// A polynomial equation `expr = 0` in at most one variable.
#[derive(Debug, PartialEq)]
pub struct Equation {
    pub expr: Vec<Term>,
    pub degree: i64,
    pub variable: Option<String>,
}

/// The term `0`.
pub open spec fn zero_term() -> Term {
    Term { coefficient: Scalar { bits: 0 }, degree: 0 }
}

/// The term `1`.
pub open spec fn one_term() -> Term {
    Term { coefficient: Scalar { bits: ONE_BITS }, degree: 0 }
}

/// `-1.0`
pub open spec fn minus_one() -> Scalar {
    Scalar { bits: (ONE_BITS + SIGN_BIT) as u64 }
}

/// The terms, or the term `0` where there is none.
pub open spec fn or_zero(terms: Seq<Term>) -> Seq<Term> {
    if terms.len() == 0 {
        seq![zero_term()]
    } else {
        terms
    }
}

/// The terms with one more, if there is one.
pub open spec fn with_term(terms: Seq<Term>, t: Option<Term>) -> Seq<Term> {
    match t {
        Some(t) => terms.push(t),
        None => terms,
    }
}

/// A coefficient as a term: dropped when it is zero, refused when it is
/// not finite.
pub open spec fn as_term(fl: Floats, c: Scalar, degree: int) -> Result<Option<Term>, Seq<char>> {
    if c.zero() {
        Ok(None)
    } else if !c.finite() {
        Err(not_finite_message(fl, c))
    } else {
        Ok(Some(Term { coefficient: c, degree: degree as i64 }))
    }
}

/// The product of two terms: coefficients multiplied, degrees added.
pub open spec fn term_mul(fl: Floats, l: Term, r: Term) -> Result<Option<Term>, Seq<char>> {
    let c = (fl.apply)(FloatOp::Mul, l.coefficient, r.coefficient);
    if c.zero() {
        Ok(None)
    } else if !c.finite() {
        Err(not_finite_message(fl, c))
    } else if l.degree + r.degree > i64::MAX || l.degree + r.degree < i64::MIN {
        Err("overflow error"@)
    } else {
        Ok(Some(Term { coefficient: c, degree: (l.degree + r.degree) as i64 }))
    }
}

/// The quotient of a term by a constant.
pub open spec fn term_div(fl: Floats, l: Term, r: Term) -> Result<Option<Term>, Seq<char>> {
    if r.degree > 0 {
        Err("error: cannot be divided by variable"@)
    } else {
        as_term(fl, (fl.apply)(FloatOp::Div, l.coefficient, r.coefficient), l.degree as int)
    }
}

/// The remainder of a constant by a constant.
pub open spec fn term_rem(fl: Floats, l: Term, r: Term) -> Result<Option<Term>, Seq<char>> {
    if r.degree > 0 {
        Err("error: cannot be divided by variable"@)
    } else if l.degree > 0 {
        Err("error: variable remainders cannot be calculated"@)
    } else {
        as_term(fl, (fl.apply)(FloatOp::Rem, l.coefficient, r.coefficient), 0)
    }
}

/// Two terms combined by `*`, `/` or `%`.
pub open spec fn term_op(fl: Floats, op: Operator, l: Term, r: Term) -> Result<
    Option<Term>,
    Seq<char>,
> {
    match op {
        Operator::Mul => term_mul(fl, l, r),
        Operator::Div => term_div(fl, l, r),
        Operator::Rem => term_rem(fl, l, r),
        _ => Err("syntax error"@),
    }
}

/// `acc` followed by `l` combined with each term of `r` from position `j`
/// on.
pub open spec fn row_product(
    fl: Floats,
    op: Operator,
    l: Term,
    r: Seq<Term>,
    j: int,
    acc: Seq<Term>,
) -> Result<Seq<Term>, Seq<char>>
    decreases r.len() - j,
{
    if j < 0 || j >= r.len() {
        Ok(acc)
    } else {
        match term_op(fl, op, l, r[j]) {
            Err(m) => Err(m),
            Ok(t) => row_product(fl, op, l, r, j + 1, with_term(acc, t)),
        }
    }
}

/// `acc` followed by each term of `l` from position `i` on combined with
/// each term of `r`.
pub open spec fn product(
    fl: Floats,
    op: Operator,
    l: Seq<Term>,
    i: int,
    r: Seq<Term>,
    acc: Seq<Term>,
) -> Result<Seq<Term>, Seq<char>>
    decreases l.len() - i,
{
    if i < 0 || i >= l.len() {
        Ok(acc)
    } else {
        match row_product(fl, op, l[i], r, 0, acc) {
            Err(m) => Err(m),
            Ok(next) => product(fl, op, l, i + 1, r, next),
        }
    }
}

/// Two lists of terms combined by `*`, `/` or `%`, term by term. A result
/// of more than `MAX_TERMS` pairs is refused.
pub open spec fn operate_two_expr(fl: Floats, l: Seq<Term>, r: Seq<Term>, op: Operator) -> Result<
    Seq<Term>,
    Seq<char>,
> {
    if l.len() * r.len() > MAX_TERMS {
        Err("too many terms error"@)
    } else {
        match product(fl, op, l, 0, r, Seq::empty()) {
            Err(m) => Err(m),
            Ok(s) => Ok(or_zero(s)),
        }
    }
}

/// The first position from `i` on whose term has a degree of at least `d`.
pub open spec fn first_not_below(state: Seq<Term>, d: int, i: int) -> int
    decreases state.len() - i,
{
    if 0 <= i < state.len() && state[i].degree < d {
        first_not_below(state, d, i + 1)
    } else {
        i
    }
}

/// The terms, sorted by degree with one term per degree, after `t` has
/// been added to the term of its degree. A sum of zero leaves no term.
pub open spec fn accumulate(fl: Floats, state: Seq<Term>, t: Term) -> Result<Seq<Term>, Seq<char>> {
    let i = first_not_below(state, t.degree as int, 0);
    let found = 0 <= i < state.len() && state[i].degree == t.degree;
    let before = if found {
        state[i].coefficient
    } else {
        Scalar { bits: 0 }
    };
    let sum = (fl.apply)(FloatOp::Add, before, t.coefficient);
    let entry = Term { coefficient: sum, degree: t.degree };
    if !sum.finite() {
        Err(not_finite_message(fl, sum))
    } else if sum.zero() {
        if found {
            Ok(state.remove(i))
        } else {
            Ok(state)
        }
    } else if found {
        Ok(state.update(i, entry))
    } else {
        Ok(state.insert(i, entry))
    }
}

/// `state` after the terms from position `k` on have been added to it one
/// by one.
pub open spec fn combine_from(fl: Floats, terms: Seq<Term>, k: int, state: Seq<Term>) -> Result<
    Seq<Term>,
    Seq<char>,
>
    decreases terms.len() - k,
{
    if k < 0 || k >= terms.len() {
        Ok(state)
    } else {
        match accumulate(fl, state, terms[k]) {
            Err(m) => Err(m),
            Ok(next) => combine_from(fl, terms, k + 1, next),
        }
    }
}

/// The terms with like terms combined, in the order of their degrees.
pub open spec fn combine(fl: Floats, terms: Seq<Term>) -> Result<Seq<Term>, Seq<char>> {
    combine_from(fl, terms, 0, Seq::empty())
}

/// `expr` multiplied by `l` another `k` times.
pub open spec fn repeated(fl: Floats, expr: Seq<Term>, l: Seq<Term>, k: nat) -> Result<
    Seq<Term>,
    Seq<char>,
>
    decreases k,
{
    if k == 0 {
        Ok(expr)
    } else {
        match product(fl, Operator::Mul, expr, 0, l, Seq::empty()) {
            Err(m) => Err(m),
            Ok(next) => repeated(fl, next, l, (k - 1) as nat),
        }
    }
}

/// The message for an exponent that cannot count.
pub open spec fn exponent_message() -> Seq<char> {
    "error: only integers greater than or equal to 0 are allowed for exponents"@
}

/// `l` raised to the power `r`, which must come to one constant that can
/// count. The power must not have more than `MAX_TERMS` terms before like
/// terms are combined.
pub open spec fn operate_two_term_pow(fl: Floats, l: Seq<Term>, r: Seq<Term>) -> Result<
    Seq<Term>,
    Seq<char>,
> {
    match combine(fl, r) {
        Err(m) => Err(m),
        Ok(sorted) => {
            let e = or_zero(sorted);
            if e.len() != 1 || e[0].degree != 0 || !e[0].coefficient.countable() {
                Err(exponent_message())
            } else {
                let n = e[0].coefficient.count();
                if n == 0 {
                    Ok(seq![one_term()])
                } else if pow(l.len() as int, n as nat) > MAX_TERMS {
                    Err("too many terms error"@)
                } else {
                    match repeated(fl, l, l, (n - 1) as nat) {
                        Err(m) => Err(m),
                        Ok(s) => Ok(or_zero(s)),
                    }
                }
            }
        },
    }
}

/// Terms and the variable met so far.
pub struct Flat {
    pub terms: Seq<Term>,
    pub variable: Option<Seq<char>>,
}

/// The message for a second variable.
pub open spec fn two_variable_message(a: Seq<char>, b: Seq<char>) -> Seq<char> {
    a + ", "@ + b + ": two variable error."@
}

/// The message for a number that is not real.
pub open spec fn not_real_message(fl: Floats, v: Value) -> Seq<char> {
    value_text(fl, v) + ": syntax error: Not a real number."@
}

/// The terms with the sign of the place they stand in: on the right-hand
/// side of the equation and behind a `-`, but not both, every coefficient
/// is multiplied by `-1`.
pub open spec fn signed(fl: Floats, terms: Seq<Term>, right_side: bool) -> Seq<Term> {
    Seq::new(
        terms.len(),
        |i: int|
            if right_side {
                Term {
                    coefficient: (fl.apply)(FloatOp::Mul, terms[i].coefficient, minus_one()),
                    degree: terms[i].degree,
                }
            } else {
                terms[i]
            },
    )
}

/// The terms of a product, a quotient, a power, a group or a leaf.
pub open spec fn term_of(fl: Floats, t: Expr, variable: Option<Seq<char>>) -> Result<
    Flat,
    Seq<char>,
>
    decreases t, 0nat,
{
    match t {
        BinaryTree::Empty => Err("syntax error"@),
        BinaryTree::NonEmpty(b) => match b.element {
            Node::Func(_) => Err("syntax error"@),
            Node::Num(n) => match n {
                Value::Float(x) => Ok(
                    Flat { terms: seq![Term { coefficient: x, degree: 0 }], variable },
                ),
                _ => Err(not_real_message(fl, n)),
            },
            Node::Dummy => Ok(Flat { terms: seq![zero_term()], variable }),
            Node::Variable(v) => match variable {
                Some(w) => if w != v {
                    Err(two_variable_message(w, v))
                } else {
                    Ok(
                        Flat {
                            terms: seq![Term { coefficient: Scalar { bits: ONE_BITS }, degree: 1 }],
                            variable,
                        },
                    )
                },
                None => Ok(
                    Flat {
                        terms: seq![Term { coefficient: Scalar { bits: ONE_BITS }, degree: 1 }],
                        variable: Some(v),
                    },
                ),
            },
            Node::Operator(op) => match op {
                Operator::Plus | Operator::Minus | Operator::RParen => Err("syntax error"@),
                Operator::MatrixMul => Err("Unsupported matrix product error."@),
                Operator::Paren => sum_of(fl, seq![zero_term()], b.left, false, variable),
                _ => match term_of(fl, b.left, variable) {
                    Err(m) => Err(m),
                    Ok(l) => match term_of(fl, b.right, l.variable) {
                        Err(m) => Err(m),
                        Ok(r) => {
                            let combined = if op == Operator::Pow {
                                operate_two_term_pow(fl, l.terms, r.terms)
                            } else {
                                operate_two_expr(fl, l.terms, r.terms, op)
                            };
                            match combined {
                                Err(m) => Err(m),
                                Ok(terms) => Ok(Flat { terms, variable: r.variable }),
                            }
                        },
                    },
                },
            },
        },
    }
}

/// `acc` followed by the terms of a sum: both operands of every `+` and
/// `-` are taken in turn, and everything else is one summand. The terms
/// change sign if `right_side`, and what is subtracted is taken with the
/// opposite sign.
pub open spec fn sum_of(
    fl: Floats,
    acc: Seq<Term>,
    t: Expr,
    right_side: bool,
    variable: Option<Seq<char>>,
) -> Result<Flat, Seq<char>>
    decreases t, 1nat,
{
    match t {
        BinaryTree::Empty => Err("syntax error"@),
        BinaryTree::NonEmpty(b) => match b.element {
            Node::Dummy | Node::Func(_) => Err("syntax error"@),
            Node::Operator(Operator::Plus) => match sum_of(fl, acc, b.left, right_side, variable) {
                Err(m) => Err(m),
                Ok(l) => sum_of(fl, l.terms, b.right, right_side, l.variable),
            },
            Node::Operator(Operator::Minus) => match sum_of(fl, acc, b.left, right_side, variable) {
                Err(m) => Err(m),
                Ok(l) => sum_of(fl, l.terms, b.right, !right_side, l.variable),
            },
            _ => match term_of(fl, t, variable) {
                Err(m) => Err(m),
                Ok(f) => Ok(
                    Flat { terms: acc + signed(fl, f.terms, right_side), variable: f.variable },
                ),
            },
        },
    }
}

/// An equation as a mathematical value.
pub struct EquationView {
    pub expr: Seq<Term>,
    pub degree: int,
    pub variable: Option<Seq<char>>,
}

impl View for Equation {
    type V = EquationView;

    open spec fn view(&self) -> EquationView {
        EquationView {
            expr: self.expr@,
            degree: self.degree as int,
            variable: match self.variable {
                Some(s) => Some(s@),
                None => None,
            },
        }
    }
}

/// The equation `lhs - rhs = 0`, added to the terms in `start`: the terms
/// of both sides with like terms combined, in the order of their degrees.
pub open spec fn equation_of(fl: Floats, start: Seq<Term>, lhs: Expr, rhs: Expr) -> Result<
    EquationView,
    Seq<char>,
> {
    match sum_of(fl, start, lhs, false, None) {
        Err(m) => Err(m),
        Ok(l) => match sum_of(fl, l.terms, rhs, true, l.variable) {
            Err(m) => Err(m),
            Ok(r) => match combine(fl, r.terms) {
                Err(m) => Err(m),
                Ok(s) => {
                    let expr = or_zero(s);
                    Ok(
                        EquationView {
                            expr,
                            degree: expr.last().degree as int,
                            variable: r.variable,
                        },
                    )
                },
            },
        },
    }
}

/// One term as it is written: its sign, then its coefficient and the
/// power of the variable, then a space. The first term has no `+`, and a
/// coefficient of one in magnitude is not written before a power.
pub open spec fn term_text(fl: Floats, variable: Seq<char>, t: Term, first: bool) -> Seq<char> {
    let sign = if first {
        if t.coefficient.negative() {
            "-"@
        } else {
            Seq::<char>::empty()
        }
    } else if t.coefficient.negative() {
        "- "@
    } else {
        "+ "@
    };
    let size = t.coefficient.absolute();
    if t.degree == 0 {
        sign + (fl.display)(size) + " "@
    } else if size.bits == ONE_BITS {
        sign + variable + "^"@ + decimal(t.degree as int) + " "@
    } else {
        sign + (fl.display)(size) + " * "@ + variable + "^"@ + decimal(t.degree as int) + " "@
    }
}

/// The first `n` terms as they are written. A power needs the variable.
pub open spec fn terms_text(fl: Floats, e: EquationView, n: nat) -> Result<Seq<char>, Seq<char>>
    decreases n,
{
    if n == 0 {
        Ok(Seq::empty())
    } else {
        match terms_text(fl, e, (n - 1) as nat) {
            Err(m) => Err(m),
            Ok(s) => {
                let t = e.expr[n - 1];
                if t.degree != 0 && e.variable is None {
                    Err("error: get variable string"@)
                } else {
                    let name = match e.variable {
                        Some(v) => v,
                        None => Seq::empty(),
                    };
                    Ok(s + term_text(fl, name, t, n == 1))
                }
            },
        }
    }
}

/// Once a term cannot be written, no longer run of terms can.
pub proof fn lemma_terms_text_fails(fl: Floats, e: EquationView, n: nat, m: nat)
    requires
        n <= m,
        terms_text(fl, e, n) is Err,
    ensures
        terms_text(fl, e, m) == terms_text(fl, e, n),
    decreases m - n,
{
    if n < m {
        lemma_terms_text_fails(fl, e, n, (m - 1) as nat);
    }
}

/// The polynomial as it is written, from the lowest degree up.
pub open spec fn equation_text(fl: Floats, e: EquationView) -> Result<Seq<char>, Seq<char>> {
    match terms_text(fl, e, e.expr.len()) {
        Err(m) => Err(m),
        Ok(s) => if s.len() > 0 {
            Ok(s.drop_last())
        } else {
            Ok(s)
        },
    }
}

impl Term {
    /// The variable to the power `degree`.
    pub fn from_degree(degree: i64) -> (t: Term)
        ensures
            t == (Term { coefficient: Scalar { bits: ONE_BITS }, degree }),
    {
        Term { coefficient: Scalar::one(), degree }
    }

    /// A constant.
    pub fn from_coefficient(coefficient: Scalar) -> (t: Term)
        ensures
            t == (Term { coefficient, degree: 0 }),
    {
        Term { coefficient, degree: 0 }
    }
}

fn sign_of(negative: bool, first: bool) -> (sign: String)
    ensures
        sign@ == if first {
            if negative {
                "-"@
            } else {
                Seq::<char>::empty()
            }
        } else if negative {
            "- "@
        } else {
            "+ "@
        },
{
    if first {
        if negative {
            String::from_str("-")
        } else {
            String::new()
        }
    } else if negative {
        String::from_str("- ")
    } else {
        String::from_str("+ ")
    }
}

fn power_to_string(variable: &str, degree: i64) -> (s: String)
    ensures
        s@ == variable@ + "^"@ + decimal(degree as int) + " "@,
{
    let mut s = String::from_str(variable);
    s.append("^");
    let power = int_to_string(degree);
    s.append(power.as_str());
    s.append(" ");
    s
}

fn term_to_string<F: Fn(Query) -> Answer>(fl: &F, variable: &str, t: Term, first: bool) -> (s: String)
    requires
        lawful(fl),
    ensures
        s@ == term_text(floats_of(fl), variable@, t, first),
{
    let mut s = sign_of(t.coefficient.is_sign_negative(), first);
    let size = t.coefficient.abs();
    if t.degree == 0 {
        let d = display(fl, size);
        s.append(d.as_str());
        s.append(" ");
    } else if size.is_one() {
        let p = power_to_string(variable, t.degree);
        s.append(p.as_str());
        assert(s@ =~= term_text(floats_of(fl), variable@, t, first));
    } else {
        let d = display(fl, size);
        s.append(d.as_str());
        s.append(" * ");
        let p = power_to_string(variable, t.degree);
        s.append(p.as_str());
        assert(s@ =~= term_text(floats_of(fl), variable@, t, first));
    }
    s
}

fn text(s: &str) -> (t: String)
    ensures
        t@ == s@,
{
    String::from_str(s)
}

} // verus!

verus! {

/// The name of an optional variable as a sequence of characters.
pub open spec fn name_of(variable: Option<String>) -> Option<Seq<char>> {
    match variable {
        Some(s) => Some(s@),
        None => None,
    }
}

/// The exec result stands for the model: the same terms, or the same
/// message.
pub open spec fn terms_match(res: Result<Vec<Term>, String>, model: Result<Seq<Term>, Seq<char>>) -> bool {
    match model {
        Ok(s) => res is Ok && res->Ok_0@ == s,
        Err(m) => res is Err && res->Err_0@ == m,
    }
}

/// The exec result stands for the model: the same terms and variable, or
/// the same message.
pub open spec fn flat_match(
    res: Result<(Vec<Term>, Option<String>), String>,
    model: Result<Flat, Seq<char>>,
) -> bool {
    match model {
        Ok(f) => res is Ok && res->Ok_0.0@ == f.terms && name_of(res->Ok_0.1) == f.variable,
        Err(m) => res is Err && res->Err_0@ == m,
    }
}

fn push_as_term<F: Fn(Query) -> Answer>(c: Scalar, degree: i64, expr: &mut Vec<Term>, fl: &F) -> (res:
    Result<(), String>)
    requires
        lawful(fl),
    ensures
        match as_term(floats_of(fl), c, degree as int) {
            Ok(t) => res is Ok && final(expr)@ == with_term(old(expr)@, t),
            Err(m) => res is Err && res->Err_0@ == m,
        },
{
    if c.is_zero() {
        return Ok(());
    }
    if !c.is_finite() {
        return Err(not_finite(fl, c));
    }
    expr.push(Term { coefficient: c, degree });
    Ok(())
}

impl Equation {
    /// The equation `0 = 0`.
    pub fn new() -> (e: Equation)
        ensures
            e@ == (EquationView { expr: seq![zero_term()], degree: 0, variable: None }),
    {
        let mut expr: Vec<Term> = Vec::new();
        expr.push(Term { coefficient: Scalar::zero_value(), degree: 0 });
        let e = Equation { expr, degree: 0, variable: None };
        assert(e@.expr =~= seq![zero_term()]);
        e
    }

    /// Turns `lhs = rhs` into `lhs - rhs = 0`: the terms of both sides are
    /// added to those the equation holds, like terms are combined, and the
    /// degree and the variable are recorded. After a failure the equation is
    /// as it was.
    pub fn make_equation<F: Fn(Query) -> Answer>(
        &mut self,
        lhs: &BinaryTree<Element>,
        rhs: &BinaryTree<Element>,
        fl: &F,
    ) -> (res: Result<(), String>)
        requires
            tree_wf(*lhs),
            tree_wf(*rhs),
            lawful(fl),
        ensures
            match equation_of(floats_of(fl), old(self).expr@, lhs@, rhs@) {
                Ok(e) => res is Ok && final(self)@ == e,
                Err(m) => res is Err && res->Err_0@ == m && *final(self) == *old(self),
            },
    {
        let mut start: Vec<Term> = Vec::new();
        let mut i: usize = 0;
        while i < self.expr.len()
            invariant
                0 <= i <= self.expr.len(),
                start@ == self.expr@.subrange(0, i as int),
            decreases self.expr.len() - i,
        {
            start.push(self.expr[i]);
            i += 1;
            assert(start@ =~= self.expr@.subrange(0, i as int));
        }
        assert(start@ =~= self.expr@);
        let (terms, variable) = match Self::set_one_tree(start, lhs, false, None, fl) {
            Ok(f) => f,
            Err(e) => {
                return Err(e);
            },
        };
        let (terms, variable) = match Self::set_one_tree(terms, rhs, true, variable, fl) {
            Ok(f) => f,
            Err(e) => {
                return Err(e);
            },
        };
        let mut expr = match Self::sort_expr(&terms, fl) {
            Ok(s) => s,
            Err(e) => {
                return Err(e);
            },
        };
        if expr.len() == 0 {
            expr.push(Term { coefficient: Scalar::zero_value(), degree: 0 });
            assert(expr@ =~= seq![zero_term()]);
        }
        self.degree = expr[expr.len() - 1].degree;
        self.expr = expr;
        self.variable = variable;
        Ok(())
    }

    fn set_one_tree<F: Fn(Query) -> Answer>(
        acc: Vec<Term>,
        tree: &BinaryTree<Element>,
        right_side: bool,
        variable: Option<String>,
        fl: &F,
    ) -> (res: Result<(Vec<Term>, Option<String>), String>)
        requires
            tree_wf(*tree),
            lawful(fl),
        ensures
            flat_match(res, sum_of(floats_of(fl), acc@, tree@, right_side, name_of(variable))),
        decreases *tree, 1nat,
    {
        match tree {
            BinaryTree::Empty => Err(text("syntax error")),
            BinaryTree::NonEmpty(node_box) => {
                match &node_box.element {
                    Element::Dummy | Element::Func(_) => Err(text("syntax error")),
                    Element::Operator(Operator::Plus) => {
                        match Self::set_one_tree(acc, &node_box.left, right_side, variable, fl) {
                            Err(e) => Err(e),
                            Ok((terms, variable)) => Self::set_one_tree(
                                terms,
                                &node_box.right,
                                right_side,
                                variable,
                                fl,
                            ),
                        }
                    },
                    Element::Operator(Operator::Minus) => {
                        match Self::set_one_tree(acc, &node_box.left, right_side, variable, fl) {
                            Err(e) => Err(e),
                            Ok((terms, variable)) => Self::set_one_tree(
                                terms,
                                &node_box.right,
                                !right_side,
                                variable,
                                fl,
                            ),
                        }
                    },
                    _ => Self::set_one_terms(acc, tree, right_side, variable, fl),
                }
            },
        }
    }

    fn set_one_terms<F: Fn(Query) -> Answer>(
        acc: Vec<Term>,
        tree: &BinaryTree<Element>,
        right_side: bool,
        variable: Option<String>,
        fl: &F,
    ) -> (res: Result<(Vec<Term>, Option<String>), String>)
        requires
            tree_wf(*tree),
            lawful(fl),
        ensures
            match term_of(floats_of(fl), tree@, name_of(variable)) {
                Err(m) => res is Err && res->Err_0@ == m,
                Ok(f) => res is Ok && res->Ok_0.0@ == acc@ + signed(
                    floats_of(fl),
                    f.terms,
                    right_side,
                ) && name_of(res->Ok_0.1) == f.variable,
            },
        decreases *tree, 0nat, 1nat,
    {
        let (expr, variable) = match Self::set_one_term(tree, variable, fl) {
            Ok(f) => f,
            Err(e) => {
                return Err(e);
            },
        };
        let ghost f = floats_of(fl);
        let ghost want = signed(f, expr@, right_side);
        let mut acc = acc;
        let ghost start = acc@;
        let mut i: usize = 0;
        while i < expr.len()
            invariant
                0 <= i <= expr.len(),
                lawful(fl),
                f == floats_of(fl),
                want == signed(f, expr@, right_side),
                acc@ == start + want.subrange(0, i as int),
            decreases expr.len() - i,
        {
            let mut term = expr[i];
            if right_side {
                term.coefficient = apply(
                    fl,
                    FloatOp::Mul,
                    term.coefficient,
                    Scalar { bits: ONE_BITS + SIGN_BIT },
                );
            }
            acc.push(term);
            i += 1;
            assert(acc@ =~= start + want.subrange(0, i as int));
        }
        assert(want.subrange(0, expr.len() as int) =~= want);
        Ok((acc, variable))
    }

    fn set_one_term<F: Fn(Query) -> Answer>(
        tree: &BinaryTree<Element>,
        variable: Option<String>,
        fl: &F,
    ) -> (res: Result<(Vec<Term>, Option<String>), String>)
        requires
            tree_wf(*tree),
            lawful(fl),
        ensures
            flat_match(res, term_of(floats_of(fl), tree@, name_of(variable))),
        decreases *tree, 0nat, 0nat,
    {
        match tree {
            BinaryTree::Empty => Err(text("syntax error")),
            BinaryTree::NonEmpty(node_box) => {
                match &node_box.element {
                    Element::Func(_) => Err(text("syntax error")),
                    Element::Num(n) => {
                        let x = match Self::check_and_get_num_float(n, fl) {
                            Ok(x) => x,
                            Err(e) => {
                                return Err(e);
                            },
                        };
                        let mut terms: Vec<Term> = Vec::new();
                        terms.push(Term::from_coefficient(x));
                        assert(terms@ =~= seq![Term { coefficient: x, degree: 0 }]);
                        Ok((terms, variable))
                    },
                    Element::Dummy => {
                        let mut terms: Vec<Term> = Vec::new();
                        terms.push(Term::from_coefficient(Scalar::zero_value()));
                        assert(terms@ =~= seq![zero_term()]);
                        Ok((terms, variable))
                    },
                    Element::Variable(v) => {
                        let variable = match Self::check_variable(variable, v) {
                            Ok(v) => v,
                            Err(e) => {
                                return Err(e);
                            },
                        };
                        let mut terms: Vec<Term> = Vec::new();
                        terms.push(Term::from_degree(1));
                        assert(terms@ =~= seq![
                            Term { coefficient: Scalar { bits: ONE_BITS }, degree: 1 },
                        ]);
                        Ok((terms, variable))
                    },
                    Element::Operator(op) => {
                        match op {
                            Operator::Plus | Operator::Minus | Operator::RParen => Err(
                                text("syntax error"),
                            ),
                            Operator::MatrixMul => Err(text("Unsupported matrix product error.")),
                            Operator::Paren => {
                                let equation = Equation::new();
                                Self::set_one_tree(
                                    equation.expr,
                                    &node_box.left,
                                    false,
                                    variable,
                                    fl,
                                )
                            },
                            _ => {
                                let (expr_left, variable) = match Self::set_one_term(
                                    &node_box.left,
                                    variable,
                                    fl,
                                ) {
                                    Ok(f) => f,
                                    Err(e) => {
                                        return Err(e);
                                    },
                                };
                                let (expr_right, variable) = match Self::set_one_term(
                                    &node_box.right,
                                    variable,
                                    fl,
                                ) {
                                    Ok(f) => f,
                                    Err(e) => {
                                        return Err(e);
                                    },
                                };
                                let combined = if let Operator::Pow = op {
                                    Self::operate_two_term_pow(&expr_left, &expr_right, fl)
                                } else {
                                    Self::operate_two_expr(&expr_left, &expr_right, op, fl)
                                };
                                match combined {
                                    Ok(terms) => Ok((terms, variable)),
                                    Err(e) => Err(e),
                                }
                            },
                        }
                    },
                }
            },
        }
    }

    fn check_and_get_num_float<F: Fn(Query) -> Answer>(num: &Num, fl: &F) -> (res: Result<
        Scalar,
        String,
    >)
        requires
            num.wf(),
            lawful(fl),
        ensures
            match num@ {
                Value::Float(x) => res == Ok::<Scalar, String>(x),
                _ => res is Err && res->Err_0@ == not_real_message(floats_of(fl), num@),
            },
    {
        match num {
            Num::Float(n) => Ok(*n),
            _ => {
                let mut message = num.to_string(fl);
                message.append(": syntax error: Not a real number.");
                Err(message)
            },
        }
    }

    fn check_variable(variable: Option<String>, new_variable: &String) -> (res: Result<
        Option<String>,
        String,
    >)
        ensures
            match name_of(variable) {
                Some(w) => if w != new_variable@ {
                    res is Err && res->Err_0@ == two_variable_message(w, new_variable@)
                } else {
                    res is Ok && name_of(res->Ok_0) == Some(w)
                },
                None => res is Ok && name_of(res->Ok_0) == Some(new_variable@),
            },
    {
        match variable {
            Some(v) => {
                if v != *new_variable {
                    let mut message = v;
                    message.append(", ");
                    message.append(new_variable.as_str());
                    message.append(": two variable error.");
                    return Err(message);
                }
                Ok(Some(v))
            },
            None => Ok(Some(new_variable.clone())),
        }
    }

    fn cross<F: Fn(Query) -> Answer>(
        expr_left: &Vec<Term>,
        expr_right: &Vec<Term>,
        op: &Operator,
        fl: &F,
    ) -> (res: Result<Vec<Term>, String>)
        requires
            lawful(fl),
        ensures
            terms_match(
                res,
                product(floats_of(fl), *op, expr_left@, 0, expr_right@, Seq::empty()),
            ),
    {
        let ghost f = floats_of(fl);
        let ghost l = expr_left@;
        let ghost r = expr_right@;
        let mut expr: Vec<Term> = Vec::new();
        let mut i: usize = 0;
        while i < expr_left.len()
            invariant
                0 <= i <= expr_left.len(),
                lawful(fl),
                f == floats_of(fl),
                l == expr_left@,
                r == expr_right@,
                product(f, *op, l, i as int, r, expr@) == product(f, *op, l, 0, r, Seq::empty()),
            decreases expr_left.len() - i,
        {
            let left_term = &expr_left[i];
            let mut j: usize = 0;
            let ghost row_start = expr@;
            while j < expr_right.len()
                invariant
                    0 <= j <= expr_right.len(),
                    0 <= i < expr_left.len(),
                    lawful(fl),
                    f == floats_of(fl),
                    l == expr_left@,
                    r == expr_right@,
                    *left_term == l[i as int],
                    row_product(f, *op, l[i as int], r, j as int, expr@) == row_product(
                        f,
                        *op,
                        l[i as int],
                        r,
                        0,
                        row_start,
                    ),
                    product(f, *op, l, i as int, r, row_start) == product(
                        f,
                        *op,
                        l,
                        0,
                        r,
                        Seq::empty(),
                    ),
                decreases expr_right.len() - j,
            {
                let right_term = &expr_right[j];
                let step = match op {
                    Operator::Mul => Self::operate_two_term_mul(left_term, right_term, &mut expr, fl),
                    Operator::Div => Self::operate_two_term_div(left_term, right_term, &mut expr, fl),
                    Operator::Rem => Self::operate_two_term_rem(left_term, right_term, &mut expr, fl),
                    _ => Err(text("syntax error")),
                };
                match step {
                    Err(e) => {
                        return Err(e);
                    },
                    Ok(_) => {},
                }
                j += 1;
            }
            i += 1;
        }
        Ok(expr)
    }

    fn operate_two_expr<F: Fn(Query) -> Answer>(
        expr_left: &Vec<Term>,
        expr_right: &Vec<Term>,
        op: &Operator,
        fl: &F,
    ) -> (res: Result<Vec<Term>, String>)
        requires
            lawful(fl),
        ensures
            terms_match(res, operate_two_expr(floats_of(fl), expr_left@, expr_right@, *op)),
    {
        let a = expr_left.len();
        let b = expr_right.len();
        if a != 0 && b != 0 {
            if a > MAX_TERMS || b > MAX_TERMS {
                assert(a * b > MAX_TERMS) by (nonlinear_arith)
                    requires
                        a >= 1,
                        b >= 1,
                        a > 1000 || b > 1000,
                        MAX_TERMS == 1000,
                ;
                return Err(text("too many terms error"));
            }
            assert(a * b <= 1000 * 1000) by (nonlinear_arith)
                requires
                    a <= 1000,
                    b <= 1000,
            ;
            if a * b > MAX_TERMS {
                return Err(text("too many terms error"));
            }
        } else {
            assert(a * b == 0) by (nonlinear_arith)
                requires
                    a == 0 || b == 0,
            ;
        }
        let mut expr = match Self::cross(expr_left, expr_right, op, fl) {
            Ok(e) => e,
            Err(e) => {
                return Err(e);
            },
        };
        if expr.len() == 0 {
            expr.push(Term { coefficient: Scalar::zero_value(), degree: 0 });
            assert(expr@ =~= seq![zero_term()]);
        }
        Ok(expr)
    }

    fn operate_two_term_mul<F: Fn(Query) -> Answer>(
        left_term: &Term,
        right_term: &Term,
        expr: &mut Vec<Term>,
        fl: &F,
    ) -> (res: Result<(), String>)
        requires
            lawful(fl),
        ensures
            match term_mul(floats_of(fl), *left_term, *right_term) {
                Ok(t) => res is Ok && final(expr)@ == with_term(old(expr)@, t),
                Err(m) => res is Err && res->Err_0@ == m,
            },
    {
        let coefficient = apply(fl, FloatOp::Mul, left_term.coefficient, right_term.coefficient);
        if coefficient.is_zero() {
            return Ok(());
        }
        if !coefficient.is_finite() {
            return Err(not_finite(fl, coefficient));
        }
        let degree = match left_term.degree.checked_add(right_term.degree) {
            None => {
                return Err(text("overflow error"));
            },
            Some(n) => n,
        };
        expr.push(Term { coefficient, degree });
        Ok(())
    }

    fn operate_two_term_div<F: Fn(Query) -> Answer>(
        left_term: &Term,
        right_term: &Term,
        expr: &mut Vec<Term>,
        fl: &F,
    ) -> (res: Result<(), String>)
        requires
            lawful(fl),
        ensures
            match term_div(floats_of(fl), *left_term, *right_term) {
                Ok(t) => res is Ok && final(expr)@ == with_term(old(expr)@, t),
                Err(m) => res is Err && res->Err_0@ == m,
            },
    {
        if right_term.degree > 0 {
            return Err(text("error: cannot be divided by variable"));
        }
        let coefficient = apply(fl, FloatOp::Div, left_term.coefficient, right_term.coefficient);
        push_as_term(coefficient, left_term.degree, expr, fl)
    }

    fn operate_two_term_rem<F: Fn(Query) -> Answer>(
        left_term: &Term,
        right_term: &Term,
        expr: &mut Vec<Term>,
        fl: &F,
    ) -> (res: Result<(), String>)
        requires
            lawful(fl),
        ensures
            match term_rem(floats_of(fl), *left_term, *right_term) {
                Ok(t) => res is Ok && final(expr)@ == with_term(old(expr)@, t),
                Err(m) => res is Err && res->Err_0@ == m,
            },
    {
        if right_term.degree > 0 {
            return Err(text("error: cannot be divided by variable"));
        }
        if left_term.degree > 0 {
            return Err(text("error: variable remainders cannot be calculated"));
        }
        let coefficient = apply(fl, FloatOp::Rem, left_term.coefficient, right_term.coefficient);
        push_as_term(coefficient, 0, expr, fl)
    }

    /// Whether `len` to the power `n` is at most `MAX_TERMS`.
    fn power_fits(len: usize, n: u32) -> (fits: bool)
        requires
            n >= 1,
        ensures
            fits == (pow(len as int, n as nat) <= MAX_TERMS),
    {
        if len <= 1 {
            proof {
                lemma0_pow(n as nat);
                lemma1_pow(n as nat);
            }
            return true;
        }
        if len > MAX_TERMS {
            proof {
                lemma_pow1(len as int);
                lemma_pow_increases(len as nat, 1, n as nat);
            }
            return false;
        }
        let mut p: usize = 1;
        let mut i: u32 = 0;
        proof {
            lemma_pow0(len as int);
        }
        while i < n
            invariant
                0 <= i <= n,
                2 <= len <= MAX_TERMS,
                p == pow(len as int, i as nat),
                1 <= p <= MAX_TERMS,
            decreases n - i,
        {
            proof {
                lemma_pow_adds(len as int, i as nat, 1);
                lemma_pow1(len as int);
                assert(1 <= p * len <= 1000 * 1000) by (nonlinear_arith)
                    requires
                        1 <= p <= 1000,
                        2 <= len <= 1000,
                ;
            }
            p = p * len;
            i += 1;
            if p > MAX_TERMS {
                proof {
                    lemma_pow_increases(len as nat, i as nat, n as nat);
                }
                return false;
            }
        }
        true
    }

    fn operate_two_term_pow<F: Fn(Query) -> Answer>(
        expr_left: &Vec<Term>,
        expr_right: &Vec<Term>,
        fl: &F,
    ) -> (res: Result<Vec<Term>, String>)
        requires
            lawful(fl),
        ensures
            terms_match(res, operate_two_term_pow(floats_of(fl), expr_left@, expr_right@)),
    {
        let ghost f = floats_of(fl);
        let ghost l = expr_left@;
        let mut exponent = match Self::sort_expr(expr_right, fl) {
            Ok(e) => e,
            Err(e) => {
                return Err(e);
            },
        };
        if exponent.len() == 0 {
            exponent.push(Term { coefficient: Scalar::zero_value(), degree: 0 });
            assert(exponent@ =~= seq![zero_term()]);
        }
        if exponent.len() != 1 || exponent[0].degree != 0 {
            return Err(text("error: only integers greater than or equal to 0 are allowed for exponents"));
        }
        let n = match exponent[0].coefficient.to_count() {
            Some(n) => n,
            None => {
                return Err(
                    text("error: only integers greater than or equal to 0 are allowed for exponents"),
                );
            },
        };
        let mut expr: Vec<Term> = Vec::new();
        if n == 0 {
            expr.push(Term { coefficient: Scalar::one(), degree: 0 });
            assert(expr@ =~= seq![one_term()]);
            return Ok(expr);
        }
        if !Self::power_fits(expr_left.len(), n) {
            return Err(text("too many terms error"));
        }
        let mut i: usize = 0;
        while i < expr_left.len()
            invariant
                0 <= i <= expr_left.len(),
                expr@ == expr_left@.subrange(0, i as int),
            decreases expr_left.len() - i,
        {
            expr.push(expr_left[i]);
            i += 1;
            assert(expr@ =~= expr_left@.subrange(0, i as int));
        }
        assert(expr@ =~= l);
        let ghost want = operate_two_term_pow(f, l, expr_right@);
        let mut k: u32 = 1;
        while k < n
            invariant
                1 <= k <= n,
                lawful(fl),
                f == floats_of(fl),
                l == expr_left@,
                repeated(f, expr@, l, (n - k) as nat) == repeated(f, l, l, (n - 1) as nat),
                want == operate_two_term_pow(f, l, expr_right@),
                want == match repeated(f, l, l, (n - 1) as nat) {
                    Err(m) => Err::<Seq<Term>, Seq<char>>(m),
                    Ok(s) => Ok(or_zero(s)),
                },
            decreases n - k,
        {
            expr = match Self::cross(&expr, expr_left, &Operator::Mul, fl) {
                Ok(e) => e,
                Err(e) => {
                    return Err(e);
                },
            };
            k += 1;
        }
        if expr.len() == 0 {
            expr.push(Term { coefficient: Scalar::zero_value(), degree: 0 });
            assert(expr@ =~= seq![zero_term()]);
        }
        Ok(expr)
    }

    /// The terms with like terms combined, in the order of their degrees.
    pub fn sort_expr<F: Fn(Query) -> Answer>(expr: &Vec<Term>, fl: &F) -> (res: Result<
        Vec<Term>,
        String,
    >)
        requires
            lawful(fl),
        ensures
            terms_match(res, combine(floats_of(fl), expr@)),
    {
        let ghost f = floats_of(fl);
        let mut state: Vec<Term> = Vec::new();
        let mut k: usize = 0;
        while k < expr.len()
            invariant
                0 <= k <= expr.len(),
                lawful(fl),
                f == floats_of(fl),
                combine_from(f, expr@, k as int, state@) == combine(f, expr@),
            decreases expr.len() - k,
        {
            let term = expr[k];
            let mut i: usize = 0;
            while i < state.len() && state[i].degree < term.degree
                invariant
                    0 <= i <= state.len(),
                    first_not_below(state@, term.degree as int, i as int) == first_not_below(
                        state@,
                        term.degree as int,
                        0,
                    ),
                decreases state.len() - i,
            {
                i += 1;
            }
            let found = i < state.len() && state[i].degree == term.degree;
            let before = if found {
                state[i].coefficient
            } else {
                Scalar::zero_value()
            };
            let sum = apply(fl, FloatOp::Add, before, term.coefficient);
            if !sum.is_finite() {
                return Err(not_finite(fl, sum));
            }
            let entry = Term { coefficient: sum, degree: term.degree };
            if sum.is_zero() {
                if found {
                    state.remove(i);
                }
            } else if found {
                state.set(i, entry);
            } else {
                state.insert(i, entry);
            }
            k += 1;
        }
        Ok(state)
    }

    /// Whether the value is an integer from `-2^63` to `2^63`.
    pub fn is_int_value(v: Scalar) -> (b: bool)
        ensures
            b == (v.whole() && v.magnitude() <= crate::scalar::TWO_POW_63_BITS),
    {
        v.abs().to_count().is_some()
    }

    /// The variable of the equation.
    pub fn get_variable_string(&self) -> (res: Result<&String, String>)
        ensures
            match self.variable {
                Some(s) => res == Ok::<&String, String>(&s),
                None => res is Err && res->Err_0@ == "error: get variable string"@,
            },
    {
        match &self.variable {
            Some(s) => Ok(s),
            None => Err(text("error: get variable string")),
        }
    }

    /// The polynomial as it is written, from the lowest degree up.
    pub fn to_string<F: Fn(Query) -> Answer>(&self, fl: &F) -> (res: Result<String, String>)
        requires
            lawful(fl),
        ensures
            match equation_text(floats_of(fl), self@) {
                Ok(s) => res is Ok && res->Ok_0@ == s,
                Err(m) => res is Err && res->Err_0@ == m,
            },
    {
        let ghost f = floats_of(fl);
        let mut string = String::new();
        let mut i: usize = 0;
        while i < self.expr.len()
            invariant
                0 <= i <= self.expr.len(),
                lawful(fl),
                f == floats_of(fl),
                terms_text(f, self@, i as nat) == Ok::<Seq<char>, Seq<char>>(string@),
            decreases self.expr.len() - i,
        {
            let term = self.expr[i];
            let written = if term.degree == 0 {
                term_to_string(fl, "", term, i == 0)
            } else {
                match self.get_variable_string() {
                    Ok(v) => term_to_string(fl, v.as_str(), term, i == 0),
                    Err(e) => {
                        proof {
                            lemma_terms_text_fails(f, self@, (i + 1) as nat, self.expr@.len());
                        }
                        return Err(e);
                    },
                }
            };
            string.append(written.as_str());
            i += 1;
        }
        pop_char(&mut string);
        Ok(string)
    }
}

} // verus!

verus! {

/// Terms in canonical order: degrees strictly increasing, every
/// coefficient finite and not zero.
pub open spec fn canonical(terms: Seq<Term>) -> bool {
    &&& forall|i: int, j: int|
        0 <= i < j < terms.len() ==> (#[trigger] terms[i]).degree < (#[trigger] terms[j]).degree
    &&& forall|i: int|
        0 <= i < terms.len() ==> (#[trigger] terms[i]).coefficient.finite()
            && !terms[i].coefficient.zero()
}

/// Where `first_not_below` stops: every term before has a smaller degree,
/// and the term there, if any, has not.
pub proof fn lemma_first_not_below(state: Seq<Term>, d: int, i: int)
    requires
        0 <= i <= state.len(),
    ensures
        i <= first_not_below(state, d, i) <= state.len(),
        forall|j: int| i <= j < first_not_below(state, d, i) ==> (#[trigger] state[j]).degree < d,
        first_not_below(state, d, i) < state.len() ==> state[first_not_below(state, d, i)].degree
            >= d,
    decreases state.len() - i,
{
    if i < state.len() && state[i].degree < d {
        lemma_first_not_below(state, d, i + 1);
    }
}

/// Adding a term to canonical terms leaves them canonical.
pub proof fn lemma_accumulate_canonical(fl: Floats, state: Seq<Term>, t: Term)
    requires
        canonical(state),
    ensures
        accumulate(fl, state, t) matches Ok(next) ==> canonical(next),
{
    let i = first_not_below(state, t.degree as int, 0);
    lemma_first_not_below(state, t.degree as int, 0);
    if let Ok(next) = accumulate(fl, state, t) {
        let found = 0 <= i < state.len() && state[i].degree == t.degree;
        assert forall|x: int, y: int| 0 <= x < y < next.len() implies (#[trigger] next[x]).degree < (
        #[trigger] next[y]).degree by {
            if next.len() == state.len() - 1 {
                let sx = if x < i {
                    x
                } else {
                    x + 1
                };
                let sy = if y < i {
                    y
                } else {
                    y + 1
                };
                assert(next[x] == state[sx]);
                assert(next[y] == state[sy]);
            } else if next.len() == state.len() + 1 {
                if x < i && y > i {
                    assert(next[x] == state[x]);
                    assert(next[y] == state[y - 1]);
                    assert(state[x].degree < state[y - 1].degree || x == y - 1);
                } else if x == i {
                    assert(next[y] == state[y - 1]);
                    assert(state[i].degree <= state[y - 1].degree);
                } else if y == i {
                    assert(next[x] == state[x]);
                } else if y < i {
                    assert(next[x] == state[x]);
                    assert(next[y] == state[y]);
                } else {
                    assert(next[x] == state[x - 1]);
                    assert(next[y] == state[y - 1]);
                }
            } else {
                if found && state.len() == next.len() && next != state {
                    assert(next[x].degree == state[x].degree);
                    assert(next[y].degree == state[y].degree);
                }
            }
        }
        assert forall|x: int| 0 <= x < next.len() implies (#[trigger] next[x]).coefficient.finite()
            && !next[x].coefficient.zero() by {
            if next.len() == state.len() - 1 {
                let sx = if x < i {
                    x
                } else {
                    x + 1
                };
                assert(next[x] == state[sx]);
            } else if next.len() == state.len() + 1 {
                if x < i {
                    assert(next[x] == state[x]);
                } else if x > i {
                    assert(next[x] == state[x - 1]);
                }
            } else {
                if x != i {
                    assert(next[x] == state[x]);
                }
            }
        }
    }
}

/// Adding terms one by one to canonical terms leaves them canonical.
pub proof fn lemma_combine_from_canonical(fl: Floats, terms: Seq<Term>, k: int, state: Seq<Term>)
    requires
        canonical(state),
        0 <= k,
    ensures
        combine_from(fl, terms, k, state) matches Ok(s) ==> canonical(s),
    decreases terms.len() - k,
{
    if k < terms.len() {
        lemma_accumulate_canonical(fl, state, terms[k]);
        if let Ok(next) = accumulate(fl, state, terms[k]) {
            lemma_combine_from_canonical(fl, terms, k + 1, next);
        }
    }
}

/// Combining like terms gives a canonical polynomial: one term per
/// degree, in the order of the degrees, none with a coefficient of zero.
pub proof fn lemma_combine_canonical(fl: Floats, terms: Seq<Term>)
    ensures
        combine(fl, terms) matches Ok(s) ==> canonical(s),
{
    lemma_combine_from_canonical(fl, terms, 0, Seq::empty());
}

/// The polynomial of an equation is canonical, or the single term `0`, and
/// its degree is the largest degree among its terms.
pub proof fn lemma_equation_canonical(fl: Floats, start: Seq<Term>, lhs: Expr, rhs: Expr)
    ensures
        equation_of(fl, start, lhs, rhs) matches Ok(e) ==> (canonical(e.expr) || e.expr
            == seq![zero_term()]) && e.expr.len() > 0 && e.degree == e.expr.last().degree
            && forall|i: int| 0 <= i < e.expr.len() ==> (#[trigger] e.expr[i]).degree <= e.degree,
{
    if let Ok(l) = sum_of(fl, start, lhs, false, None) {
        if let Ok(r) = sum_of(fl, l.terms, rhs, true, l.variable) {
            lemma_combine_canonical(fl, r.terms);
        }
    }
}

} // verus!
