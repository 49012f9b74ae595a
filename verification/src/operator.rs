use vstd::prelude::*;

verus! {

/// The operators that can label an inner node of an expression tree.
///
/// `Paren` is a grouping node and `RParen` the leaf that closes it; neither
/// takes part in precedence.
#[derive(Debug, PartialEq, Eq, Clone, Copy, Structural)]
pub enum Operator {
    Plus,
    Minus,
    Mul,
    Div,
    Rem,
    MatrixMul,
    Pow,
    Paren,
    RParen,
}

impl Operator {
    /// Precedence level of a binary operator: 1 for `+ -`, 2 for
    /// `* / % **`, 3 for `^`, 4 for an opening parenthesis, 0 for the
    /// closing sentinel.
    pub open spec fn level(self) -> int {
        match self {
            Operator::Plus | Operator::Minus => 1,
            Operator::Mul | Operator::Div | Operator::Rem | Operator::MatrixMul => 2,
            Operator::Pow => 3,
            Operator::Paren => 4,
            Operator::RParen => 0,
        }
    }

    /// Whether `rhs` binds strictly tighter than `self`.
    ///
    /// Grouping nodes never yield: with `Paren` or `RParen` on the left the
    /// answer is `false`, and only `^` yields to an opening parenthesis.
    pub open spec fn yields_to(self, rhs: Operator) -> bool {
        match self {
            Operator::Paren | Operator::RParen => false,
            Operator::Pow => rhs == Operator::Paren,
            _ => rhs != Operator::Paren && rhs != Operator::RParen && self.level() < rhs.level(),
        }
    }

    /// The surface form of the operator.
    pub open spec fn symbol(self) -> Seq<char> {
        match self {
            Operator::Plus => "+"@,
            Operator::Minus => "-"@,
            Operator::Mul => "*"@,
            Operator::Div => "/"@,
            Operator::Rem => "%"@,
            Operator::Pow => "^"@,
            Operator::MatrixMul => "**"@,
            Operator::Paren => "("@,
            Operator::RParen => ")"@,
        }
    }

    /// `true` exactly when `rhs` has higher priority than `self`.
    pub fn priority(&self, rhs: &Self) -> (higher: bool)
        ensures
            higher == self.yields_to(*rhs),
    {
        match *self {
            Operator::Plus | Operator::Minus => {
                match rhs {
                    Operator::Mul
                    | Operator::Div
                    | Operator::Rem
                    | Operator::MatrixMul
                    | Operator::Pow => true,
                    _ => false,
                }
            },
            Operator::Mul | Operator::Div | Operator::Rem | Operator::MatrixMul => {
                match rhs {
                    Operator::Pow => true,
                    _ => false,
                }
            },
            Operator::Pow => {
                match rhs {
                    Operator::Paren => true,
                    _ => false,
                }
            },
            _ => false,
        }
    }

    /// The operator as the user writes it.
    pub fn to_string(&self) -> (text: String)
        ensures
            text@ == self.symbol(),
    {
        match self {
            Operator::Plus => String::from_str("+"),
            Operator::Minus => String::from_str("-"),
            Operator::Mul => String::from_str("*"),
            Operator::Div => String::from_str("/"),
            Operator::Rem => String::from_str("%"),
            Operator::Pow => String::from_str("^"),
            Operator::MatrixMul => String::from_str("**"),
            Operator::Paren => String::from_str("("),
            Operator::RParen => String::from_str(")"),
        }
    }
}

/// Precedence is irreflexive and never holds in both directions, so equal
/// levels always associate to the left.
pub proof fn lemma_priority_asymmetric(a: Operator, b: Operator)
    ensures
        !a.yields_to(a),
        a.yields_to(b) ==> !b.yields_to(a),
{
}

} // verus!
