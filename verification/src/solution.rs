use vstd::prelude::*;
use crate::equation::{Equation, EquationView, Term};
use crate::matrix::{not_finite, not_finite_message};
use crate::scalar::{
    apply, display, floats_of, lawful, Answer, FloatOp, Floats, Query, Scalar, FOUR_BITS, ONE_BITS,
    TWO_BITS,
};

verus! {

/// The terms of degree `i` to `degree`, with a zero term for every degree
/// that `terms` skips. `index` is the position of the next term to place.
pub open spec fn padded(terms: Seq<Term>, i: int, index: int, degree: int) -> Seq<Term>
    decreases degree - i + 1,
{
    if i > degree {
        Seq::empty()
    } else if 0 <= index < terms.len() && terms[index].degree == i {
        seq![terms[index]] + padded(terms, i + 1, index + 1, degree)
    } else {
        seq![Term { coefficient: Scalar { bits: 0 }, degree: i as i64 }] + padded(
            terms,
            i + 1,
            index,
            degree,
        )
    }
}

/// The coefficients of a polynomial of degree `degree`, lowest first.
pub open spec fn no_gaps(terms: Seq<Term>, degree: int) -> Seq<Term> {
    padded(terms, 0, 0, degree)
}

/// `a op b`
pub open spec fn ap(fl: Floats, op: FloatOp, a: Scalar, b: Scalar) -> Scalar {
    (fl.apply)(op, a, b)
}

/// `2.0`
pub open spec fn two() -> Scalar {
    Scalar { bits: TWO_BITS }
}

/// `4.0`
pub open spec fn four() -> Scalar {
    Scalar { bits: FOUR_BITS }
}

/// The square root of `x`.
pub open spec fn root(fl: Floats, x: Scalar) -> Scalar {
    (fl.apply)(FloatOp::Sqrt, x, Scalar { bits: 0 })
}

/// The solution of `a x + b = 0`, where `a` and `b` are the coefficients
/// `v[1]` and `v[0]`: the quotient of `-b` by `a`, written as `0` when it
/// is `-0`.
pub open spec fn degree_1_text(fl: Floats, v: Seq<Term>) -> Result<Seq<char>, Seq<char>> {
    let value = ap(fl, FloatOp::Div, v[0].coefficient.negated(), v[1].coefficient);
    if !value.finite() {
        Err(not_finite_message(fl, value))
    } else if value.zero() {
        Ok("Solution:\n"@ + (fl.display)(Scalar { bits: 0 }))
    } else {
        Ok("Solution:\n"@ + (fl.display)(value))
    }
}

/// `b² - 4ac`
pub open spec fn discriminant(fl: Floats, v: Seq<Term>) -> Scalar {
    let c = v[0].coefficient;
    let b = v[1].coefficient;
    let a = v[2].coefficient;
    ap(
        fl,
        FloatOp::Sub,
        ap(fl, FloatOp::Mul, b, b),
        ap(fl, FloatOp::Mul, ap(fl, FloatOp::Mul, four(), a), c),
    )
}

/// `2a`
pub open spec fn twice_a(fl: Floats, v: Seq<Term>) -> Scalar {
    ap(fl, FloatOp::Mul, two(), v[2].coefficient)
}

/// The double root `-b / 2a`.
pub open spec fn one_root_text(fl: Floats, v: Seq<Term>) -> Result<Seq<char>, Seq<char>> {
    let value = ap(fl, FloatOp::Div, v[1].coefficient.negated(), twice_a(fl, v));
    if value.finite() {
        Ok("Only one solution on R:\n"@ + (fl.display)(value))
    } else {
        Err(not_finite_message(fl, value))
    }
}

/// The two real roots `(-b ± √d) / 2a`.
pub open spec fn two_roots_text(fl: Floats, v: Seq<Term>, d: Scalar) -> Result<
    Seq<char>,
    Seq<char>,
> {
    let minus_b = v[1].coefficient.negated();
    let sqrt_d = root(fl, d);
    let value1 = ap(fl, FloatOp::Div, ap(fl, FloatOp::Add, minus_b, sqrt_d), twice_a(fl, v));
    let value2 = ap(fl, FloatOp::Div, ap(fl, FloatOp::Sub, minus_b, sqrt_d), twice_a(fl, v));
    if value1.finite() && value2.finite() {
        Ok("Two solutions on R:\n"@ + (fl.display)(value1) + "\n"@ + (fl.display)(value2))
    } else if value2.finite() {
        Err(not_finite_message(fl, value1))
    } else {
        Err(not_finite_message(fl, value2))
    }
}

/// The two complex roots `-b / 2a ± i √(-d) / 2a`. A real part of zero and
/// an imaginary part of one are not written.
pub open spec fn complex_roots_text(fl: Floats, v: Seq<Term>, d: Scalar) -> Result<
    Seq<char>,
    Seq<char>,
> {
    let sqrt_d = root(fl, d.negated());
    let r = ap(fl, FloatOp::Div, v[1].coefficient.negated(), twice_a(fl, v));
    let z = ap(fl, FloatOp::Div, sqrt_d, twice_a(fl, v)).absolute();
    if r.finite() && z.finite() {
        if r.zero() && z.bits == ONE_BITS {
            Ok("Two solutions on C:\n± i"@)
        } else if r.zero() {
            Ok("Two solutions on C:\n± "@ + (fl.display)(z) + "i"@)
        } else if z.bits == ONE_BITS {
            Ok("Two solutions on C:\n"@ + (fl.display)(r) + " ± i"@)
        } else {
            Ok("Two solutions on C:\n"@ + (fl.display)(r) + " ± "@ + (fl.display)(z) + "i"@)
        }
    } else if z.finite() {
        Err(not_finite_message(fl, r))
    } else {
        Err(not_finite_message(fl, z))
    }
}

/// The solutions of `a x² + b x + c = 0` by the sign of the discriminant.
pub open spec fn degree_2_text(fl: Floats, v: Seq<Term>) -> Result<Seq<char>, Seq<char>> {
    let d = discriminant(fl, v);
    if !d.finite() {
        Err(not_finite_message(fl, d))
    } else if d.zero() {
        one_root_text(fl, v)
    } else if !d.negative() {
        two_roots_text(fl, v, d)
    } else {
        complex_roots_text(fl, v, d)
    }
}

/// What the solver says of an equation: its solutions up to degree two,
/// and why there are none to give otherwise.
pub open spec fn solution_text(fl: Floats, e: EquationView) -> Result<Seq<char>, Seq<char>> {
    if e.expr.len() > 0 && e.expr[0].degree < 0 {
        Ok("Negative integer powers are not supported."@)
    } else if e.degree == 0 {
        if e.expr.len() == 0 || e.expr[0].coefficient.zero() {
            Ok("The solution is an arbitrary real number."@)
        } else {
            Ok("There is no solution."@)
        }
    } else if e.degree == 1 {
        degree_1_text(fl, no_gaps(e.expr, 1))
    } else if e.degree == 2 {
        degree_2_text(fl, no_gaps(e.expr, 2))
    } else {
        Ok("The polynomial degree is strictly greater than 2, I can't solve."@)
    }
}

/// The coefficients of a polynomial are as many as its degree and one.
pub proof fn lemma_padded_len(terms: Seq<Term>, i: int, index: int, degree: int)
    requires
        0 <= i <= degree + 1,
    ensures
        padded(terms, i, index, degree).len() == degree + 1 - i,
    decreases degree - i + 1,
{
    if i <= degree {
        if 0 <= index < terms.len() && terms[index].degree == i {
            lemma_padded_len(terms, i + 1, index + 1, degree);
        } else {
            lemma_padded_len(terms, i + 1, index, degree);
        }
    }
}

fn results<F: Fn(Query) -> Answer>(fl: &F, head: &str, a: Scalar, middle: &str, b: Scalar, tail: &str) -> (s:
    String)
    requires
        lawful(fl),
    ensures
        s@ == head@ + (floats_of(fl).display)(a) + middle@ + (floats_of(fl).display)(b) + tail@,
{
    let mut s = String::from_str(head);
    let x = display(fl, a);
    s.append(x.as_str());
    s.append(middle);
    let y = display(fl, b);
    s.append(y.as_str());
    s.append(tail);
    s
}

fn headed<F: Fn(Query) -> Answer>(fl: &F, head: &str, a: Scalar) -> (s: String)
    requires
        lawful(fl),
    ensures
        s@ == head@ + (floats_of(fl).display)(a),
{
    let mut s = String::from_str(head);
    let x = display(fl, a);
    s.append(x.as_str());
    s
}

fn pair<F: Fn(Query) -> Answer>(fl: &F, head: &str, a: Scalar, middle: &str, b: Scalar) -> (s: String)
    requires
        lawful(fl),
    ensures
        s@ == head@ + (floats_of(fl).display)(a) + middle@ + (floats_of(fl).display)(b),
{
    let mut s = headed(fl, head, a);
    s.append(middle);
    let y = display(fl, b);
    s.append(y.as_str());
    s
}

fn result<F: Fn(Query) -> Answer>(fl: &F, head: &str, a: Scalar, tail: &str) -> (s: String)
    requires
        lawful(fl),
    ensures
        s@ == head@ + (floats_of(fl).display)(a) + tail@,
{
    let mut s = String::from_str(head);
    let x = display(fl, a);
    s.append(x.as_str());
    s.append(tail);
    s
}

impl Equation {
    /// What the solver says of the equation.
    pub fn solution<F: Fn(Query) -> Answer>(&self, fl: &F) -> (res: Result<String, String>)
        requires
            lawful(fl),
        ensures
            match solution_text(floats_of(fl), self@) {
                Ok(s) => res is Ok && res->Ok_0@ == s,
                Err(m) => res is Err && res->Err_0@ == m,
            },
    {
        if self.expr.len() > 0 && self.expr[0].degree < 0 {
            return Ok(String::from_str("Negative integer powers are not supported."));
        }
        if self.degree == 0 {
            Ok(self.degree_0_solution())
        } else if self.degree == 1 {
            self.degree_1_solution(fl)
        } else if self.degree == 2 {
            self.degree_2_solution(fl)
        } else {
            Ok(
                String::from_str(
                    "The polynomial degree is strictly greater than 2, I can't solve.",
                ),
            )
        }
    }

    fn degree_0_solution(&self) -> (s: String)
        ensures
            s@ == if self.expr@.len() == 0 || self.expr@[0].coefficient.zero() {
                "The solution is an arbitrary real number."@
            } else {
                "There is no solution."@
            },
    {
        if self.expr.len() == 0 || self.expr[0].coefficient.is_zero() {
            String::from_str("The solution is an arbitrary real number.")
        } else {
            String::from_str("There is no solution.")
        }
    }

    /// The coefficients of a polynomial of degree `degree`, lowest first,
    /// with zero for every degree that `terms` skips.
    pub fn make_terms_no_gaps(terms: &Vec<Term>, degree: i64) -> (vec: Vec<Term>)
        requires
            degree < i64::MAX,
        ensures
            vec@ == no_gaps(terms@, degree as int),
            degree >= 0 ==> vec@.len() == degree + 1,
    {
        let mut vec: Vec<Term> = Vec::new();
        let mut index: usize = 0;
        let mut i: i64 = 0;
        while i <= degree
            invariant
                0 <= i,
                i <= degree + 1 || degree < 0,
                degree < i64::MAX,
                index <= terms.len(),
                vec@ + padded(terms@, i as int, index as int, degree as int) == no_gaps(
                    terms@,
                    degree as int,
                ),
            decreases degree - i + 1,
        {
            let ghost before = vec@;
            let ghost rest = padded(terms@, i as int, index as int, degree as int);
            if index < terms.len() && terms[index].degree == i {
                vec.push(terms[index]);
                index += 1;
            } else {
                vec.push(Term { coefficient: Scalar::zero_value(), degree: i });
            }
            i += 1;
            assert(vec@ + padded(terms@, i as int, index as int, degree as int) =~= before + rest);
        }
        proof {
            if degree >= 0 {
                lemma_padded_len(terms@, 0, 0, degree as int);
            }
            assert(vec@ + Seq::<Term>::empty() =~= vec@);
        }
        vec
    }

    fn degree_1_solution<F: Fn(Query) -> Answer>(&self, fl: &F) -> (res: Result<String, String>)
        requires
            lawful(fl),
        ensures
            match degree_1_text(floats_of(fl), no_gaps(self.expr@, 1)) {
                Ok(s) => res is Ok && res->Ok_0@ == s,
                Err(m) => res is Err && res->Err_0@ == m,
            },
    {
        let vec = Self::make_terms_no_gaps(&self.expr, 1);
        let a = vec[1].coefficient;
        let b = vec[0].coefficient.neg();
        let mut value = apply(fl, FloatOp::Div, b, a);
        if !value.is_finite() {
            Err(not_finite(fl, value))
        } else {
            if value.is_zero() {
                value = Scalar::zero_value();
            }
            Ok(headed(fl, "Solution:\n", value))
        }
    }

    fn degree_2_solution<F: Fn(Query) -> Answer>(&self, fl: &F) -> (res: Result<String, String>)
        requires
            lawful(fl),
        ensures
            match degree_2_text(floats_of(fl), no_gaps(self.expr@, 2)) {
                Ok(s) => res is Ok && res->Ok_0@ == s,
                Err(m) => res is Err && res->Err_0@ == m,
            },
    {
        let vec = Self::make_terms_no_gaps(&self.expr, 2);
        let discriminant = match Self::degree_2_discriminant(&vec, fl) {
            Ok(d) => d,
            Err(e) => {
                return Err(e);
            },
        };
        if discriminant.is_zero() {
            Self::degree_2_solution_one(&vec, fl)
        } else if discriminant.is_sign_positive() {
            Self::degree_2_solution_two(&vec, discriminant, fl)
        } else {
            Self::degree_2_solution_complex(&vec, discriminant, fl)
        }
    }

    fn degree_2_discriminant<F: Fn(Query) -> Answer>(terms: &Vec<Term>, fl: &F) -> (res: Result<
        Scalar,
        String,
    >)
        requires
            terms@.len() == 3,
            lawful(fl),
        ensures
            discriminant(floats_of(fl), terms@).finite() ==> res == Ok::<Scalar, String>(
                discriminant(floats_of(fl), terms@),
            ),
            !discriminant(floats_of(fl), terms@).finite() ==> res is Err && res->Err_0@
                == not_finite_message(floats_of(fl), discriminant(floats_of(fl), terms@)),
    {
        let c = terms[0].coefficient;
        let b = terms[1].coefficient;
        let a = terms[2].coefficient;
        let bb = apply(fl, FloatOp::Mul, b, b);
        let four_a = apply(fl, FloatOp::Mul, Scalar::four(), a);
        let four_ac = apply(fl, FloatOp::Mul, four_a, c);
        let value = apply(fl, FloatOp::Sub, bb, four_ac);
        if value.is_finite() {
            Ok(value)
        } else {
            Err(not_finite(fl, value))
        }
    }

    fn degree_2_solution_one<F: Fn(Query) -> Answer>(terms: &Vec<Term>, fl: &F) -> (res: Result<
        String,
        String,
    >)
        requires
            terms@.len() == 3,
            lawful(fl),
        ensures
            match one_root_text(floats_of(fl), terms@) {
                Ok(s) => res is Ok && res->Ok_0@ == s,
                Err(m) => res is Err && res->Err_0@ == m,
            },
    {
        let b = terms[1].coefficient;
        let a = terms[2].coefficient;
        let two_a = apply(fl, FloatOp::Mul, Scalar::two(), a);
        let value = apply(fl, FloatOp::Div, b.neg(), two_a);
        if value.is_finite() {
            Ok(headed(fl, "Only one solution on R:\n", value))
        } else {
            Err(not_finite(fl, value))
        }
    }

    fn degree_2_solution_two<F: Fn(Query) -> Answer>(
        terms: &Vec<Term>,
        discriminant: Scalar,
        fl: &F,
    ) -> (res: Result<String, String>)
        requires
            terms@.len() == 3,
            lawful(fl),
        ensures
            match two_roots_text(floats_of(fl), terms@, discriminant) {
                Ok(s) => res is Ok && res->Ok_0@ == s,
                Err(m) => res is Err && res->Err_0@ == m,
            },
    {
        let b = terms[1].coefficient;
        let a = terms[2].coefficient;
        let sqrt_d = apply(fl, FloatOp::Sqrt, discriminant, Scalar::zero_value());
        let two_a = apply(fl, FloatOp::Mul, Scalar::two(), a);
        let plus = apply(fl, FloatOp::Add, b.neg(), sqrt_d);
        let minus = apply(fl, FloatOp::Sub, b.neg(), sqrt_d);
        let value1 = apply(fl, FloatOp::Div, plus, two_a);
        let value2 = apply(fl, FloatOp::Div, minus, two_a);
        if value1.is_finite() && value2.is_finite() {
            Ok(pair(fl, "Two solutions on R:\n", value1, "\n", value2))
        } else if value2.is_finite() {
            Err(not_finite(fl, value1))
        } else {
            Err(not_finite(fl, value2))
        }
    }

    fn degree_2_solution_complex<F: Fn(Query) -> Answer>(
        terms: &Vec<Term>,
        discriminant: Scalar,
        fl: &F,
    ) -> (res: Result<String, String>)
        requires
            terms@.len() == 3,
            lawful(fl),
        ensures
            match complex_roots_text(floats_of(fl), terms@, discriminant) {
                Ok(s) => res is Ok && res->Ok_0@ == s,
                Err(m) => res is Err && res->Err_0@ == m,
            },
    {
        let b = terms[1].coefficient;
        let a = terms[2].coefficient;
        let sqrt_d = apply(fl, FloatOp::Sqrt, discriminant.neg(), Scalar::zero_value());
        let two_a = apply(fl, FloatOp::Mul, Scalar::two(), a);
        let r_value = apply(fl, FloatOp::Div, b.neg(), two_a);
        let z_value = apply(fl, FloatOp::Div, sqrt_d, two_a).abs();
        if r_value.is_finite() && z_value.is_finite() {
            if r_value.is_zero() && z_value.is_one() {
                Ok(String::from_str("Two solutions on C:\n± i"))
            } else if r_value.is_zero() {
                Ok(result(fl, "Two solutions on C:\n± ", z_value, "i"))
            } else if z_value.is_one() {
                Ok(result(fl, "Two solutions on C:\n", r_value, " ± i"))
            } else {
                Ok(results(fl, "Two solutions on C:\n", r_value, " ± ", z_value, "i"))
            }
        } else if z_value.is_finite() {
            Err(not_finite(fl, r_value))
        } else {
            Err(not_finite(fl, z_value))
        }
    }
}

} // verus!
