use vstd::prelude::*;
pub use crate::matrix::Matrix;
use crate::matrix::{
    first_bad, grid_negated, grid_pairwise, grid_product, grid_rich_text, grid_text, grid_wf,
    grid_with_scalar, grid_of, not_finite, not_finite_message, same_size, Grid,
};
use crate::scalar::{
    apply, display, floats_of, lawful, parse, Answer, FloatOp, Floats, Query, Scalar, ONE_BITS,
    SIGN_BIT,
};

verus! {

/// A complex number with real part `r` and imaginary part `z`.
#[derive(Debug, PartialEq, Clone, Copy)]
pub struct Complex {
    pub r: Scalar,
    pub z: Scalar,
}

/// A number of the calculator: a real, a complex number or a real matrix.
#[derive(Debug, PartialEq)]
pub enum Num {
    Float(Scalar),
    Complex(Box<Complex>),
    Matrix(Box<Matrix>),
}

/// A number as a mathematical value.
pub enum Value {
    Float(Scalar),
    Complex(Scalar, Scalar),
    Matrix(Grid),
}

impl View for Num {
    type V = Value;

    open spec fn view(&self) -> Value {
        match self {
            Num::Float(n) => Value::Float(*n),
            Num::Complex(c) => Value::Complex(c.r, c.z),
            Num::Matrix(m) => Value::Matrix(m@),
        }
    }
}

impl Value {
    /// A matrix has at least one entry and rows of one length.
    pub open spec fn wf(self) -> bool {
        match self {
            Value::Matrix(g) => grid_wf(g),
            _ => true,
        }
    }

    /// The first component, in reading order, that is infinite or NaN.
    pub open spec fn first_bad(self) -> Option<Scalar> {
        match self {
            Value::Float(n) => if n.finite() {
                None
            } else {
                Some(n)
            },
            Value::Complex(r, z) => if !r.finite() {
                Some(r)
            } else if !z.finite() {
                Some(z)
            } else {
                None
            },
            Value::Matrix(g) => first_bad(g, 0),
        }
    }

    /// A real with its sign bit set; a complex number whose real part has
    /// it set, or whose real part is zero and whose imaginary part has it
    /// set.
    pub open spec fn needs_sign_reverse(self) -> bool {
        match self {
            Value::Float(n) => n.negative(),
            Value::Complex(r, z) => (r.zero() && z.negative()) || r.negative(),
            Value::Matrix(_) => false,
        }
    }

    /// What has to stand in parentheses beside an operator: what needs its
    /// sign reversed, and a complex number with both parts non-zero.
    pub open spec fn needs_paren(self) -> bool {
        self.needs_sign_reverse() || match self {
            Value::Complex(r, z) => !r.same(Scalar { bits: 0 }) && !z.same(Scalar { bits: 0 }),
            _ => false,
        }
    }

    /// The value with every sign flipped; a complex number whose imaginary
    /// part is zero becomes a real.
    pub open spec fn sign_reversed(self) -> Value {
        match self {
            Value::Float(n) => Value::Float(n.negated()),
            Value::Complex(r, z) => collapse(r.negated(), z.negated()),
            Value::Matrix(g) => Value::Matrix(grid_negated(g)),
        }
    }
}

/// The number `r + z i`: a real when `z` is `0.0` or `-0.0`, complex
/// otherwise.
pub open spec fn collapse(r: Scalar, z: Scalar) -> Value {
    if z.zero() {
        Value::Float(r)
    } else {
        Value::Complex(r, z)
    }
}

/// A complex number as text: `a + bi`, `a - bi`, `a`, `bi`, `i`, `-i` or
/// `0`, by which parts are zero, one or negative.
pub open spec fn complex_text(fl: Floats, r: Scalar, z: Scalar) -> Seq<char> {
    let d = fl.display;
    if r.zero() && z.zero() {
        "0"@
    } else if !z.negative() {
        if r.zero() && z.bits == ONE_BITS {
            "i"@
        } else if r.zero() {
            d(z) + "i"@
        } else if z.zero() {
            d(r)
        } else if z.bits == ONE_BITS {
            d(r) + " + i"@
        } else {
            d(r) + " + "@ + d(z) + "i"@
        }
    } else {
        if r.zero() && z.bits == ONE_BITS + SIGN_BIT {
            "-i"@
        } else if r.zero() {
            d(z) + "i"@
        } else if z.zero() {
            d(r)
        } else if z.bits == ONE_BITS + SIGN_BIT {
            d(r) + " - i"@
        } else {
            d(r) + " - "@ + d(z.negated()) + "i"@
        }
    }
}

/// A number on one line.
pub open spec fn value_text(fl: Floats, v: Value) -> Seq<char> {
    match v {
        Value::Float(n) => (fl.display)(n),
        Value::Complex(r, z) => complex_text(fl, r, z),
        Value::Matrix(g) => grid_text(fl, g),
    }
}

/// A number as it is displayed: scalars after two spaces, a matrix row by
/// row.
pub open spec fn value_show_text(fl: Floats, v: Value) -> Seq<char> {
    match v {
        Value::Matrix(g) => grid_rich_text(fl, g),
        _ => "  "@ + value_text(fl, v),
    }
}

/// `head`, the left operand, `sign`, the right operand; with both operands
/// in parentheses if `parens`.
pub open spec fn operands_message(
    fl: Floats,
    head: Seq<char>,
    l: Value,
    sign: Seq<char>,
    r: Value,
    parens: bool,
) -> Seq<char> {
    if parens {
        head + "("@ + value_text(fl, l) + ") "@ + sign + " ("@ + value_text(fl, r) + ")"@
    } else {
        head + value_text(fl, l) + " "@ + sign + " "@ + value_text(fl, r)
    }
}

/// The message for operands that an operator does not take.
pub open spec fn unsupported(fl: Floats, l: Value, sign: Seq<char>, r: Value, parens: bool) -> Seq<
    char,
> {
    operands_message(fl, "Unsupported operator "@, l, sign, r, parens)
}

/// The message for matrices whose sizes do not fit an elementwise operator.
pub open spec fn different_sizes(fl: Floats, l: Value, sign: Seq<char>, r: Value) -> Seq<char> {
    operands_message(fl, "Unsupported different sizes operator "@, l, sign, r, false)
}

/// `l + r`: on reals and complex numbers in any mix, and on matrices of one
/// size, entry by entry.
pub open spec fn add_value(fl: Floats, l: Value, r: Value) -> Result<Value, Seq<char>> {
    let f = fl.apply;
    match (l, r) {
        (Value::Float(a), Value::Float(b)) => Ok(Value::Float(f(FloatOp::Add, a, b))),
        (Value::Float(a), Value::Complex(br, bz)) => Ok(collapse(f(FloatOp::Add, a, br), bz)),
        (Value::Complex(ar, az), Value::Float(b)) => Ok(collapse(f(FloatOp::Add, ar, b), az)),
        (Value::Complex(ar, az), Value::Complex(br, bz)) => Ok(
            collapse(f(FloatOp::Add, ar, br), f(FloatOp::Add, az, bz)),
        ),
        (Value::Matrix(a), Value::Matrix(b)) => if same_size(a, b) {
            Ok(Value::Matrix(grid_pairwise(fl, a, b, FloatOp::Add)))
        } else {
            Err(different_sizes(fl, l, "+"@, r))
        },
        _ => Err(unsupported(fl, l, "+"@, r, false)),
    }
}

/// `l - r`, on the operands that `+` takes.
pub open spec fn sub_value(fl: Floats, l: Value, r: Value) -> Result<Value, Seq<char>> {
    let f = fl.apply;
    match (l, r) {
        (Value::Float(a), Value::Float(b)) => Ok(Value::Float(f(FloatOp::Sub, a, b))),
        (Value::Float(a), Value::Complex(br, bz)) => Ok(
            collapse(f(FloatOp::Sub, a, br), bz.negated()),
        ),
        (Value::Complex(ar, az), Value::Float(b)) => Ok(collapse(f(FloatOp::Sub, ar, b), az)),
        (Value::Complex(ar, az), Value::Complex(br, bz)) => Ok(
            collapse(f(FloatOp::Sub, ar, br), f(FloatOp::Sub, az, bz)),
        ),
        (Value::Matrix(a), Value::Matrix(b)) => if same_size(a, b) {
            Ok(Value::Matrix(grid_pairwise(fl, a, b, FloatOp::Sub)))
        } else {
            Err(different_sizes(fl, l, "-"@, r))
        },
        _ => Err(unsupported(fl, l, "-"@, r, true)),
    }
}

/// `l * r`: on reals and complex numbers in any mix, on a matrix and a
/// real, entry by entry, and on matrices of one size, entry by entry.
pub open spec fn mul_value(fl: Floats, l: Value, r: Value) -> Result<Value, Seq<char>> {
    let f = fl.apply;
    match (l, r) {
        (Value::Float(a), Value::Float(b)) => Ok(Value::Float(f(FloatOp::Mul, a, b))),
        (Value::Float(a), Value::Complex(br, bz)) => Ok(
            collapse(f(FloatOp::Mul, a, br), f(FloatOp::Mul, a, bz)),
        ),
        (Value::Complex(ar, az), Value::Float(b)) => Ok(
            collapse(f(FloatOp::Mul, ar, b), f(FloatOp::Mul, az, b)),
        ),
        (Value::Complex(ar, az), Value::Complex(br, bz)) => Ok(
            collapse(
                f(FloatOp::Sub, f(FloatOp::Mul, ar, br), f(FloatOp::Mul, az, bz)),
                f(FloatOp::Add, f(FloatOp::Mul, ar, bz), f(FloatOp::Mul, az, br)),
            ),
        ),
        (Value::Float(a), Value::Matrix(b)) => Ok(
            Value::Matrix(grid_with_scalar(fl, b, FloatOp::Mul, a, true)),
        ),
        (Value::Matrix(a), Value::Float(b)) => Ok(
            Value::Matrix(grid_with_scalar(fl, a, FloatOp::Mul, b, false)),
        ),
        (Value::Matrix(a), Value::Matrix(b)) => if same_size(a, b) {
            Ok(Value::Matrix(grid_pairwise(fl, a, b, FloatOp::Mul)))
        } else {
            Err(different_sizes(fl, l, "*"@, r))
        },
        _ => Err(unsupported(fl, l, "*"@, r, true)),
    }
}

/// `br² + bz²`
pub open spec fn norm_squared(fl: Floats, br: Scalar, bz: Scalar) -> Scalar {
    (fl.apply)(FloatOp::Add, (fl.apply)(FloatOp::Mul, br, br), (fl.apply)(FloatOp::Mul, bz, bz))
}

/// A real or complex number divided by the real `v`, part by part.
pub open spec fn div_by_real(fl: Floats, l: Value, v: Scalar) -> Value {
    match l {
        Value::Float(a) => Value::Float((fl.apply)(FloatOp::Div, a, v)),
        Value::Complex(ar, az) => collapse(
            (fl.apply)(FloatOp::Div, ar, v),
            (fl.apply)(FloatOp::Div, az, v),
        ),
        Value::Matrix(_) => l,
    }
}

/// `l / r`, on the operands that `*` takes. A complex number is divided by
/// a complex number by multiplying with the conjugate and dividing by the
/// squared norm.
pub open spec fn div_value(fl: Floats, l: Value, r: Value) -> Result<Value, Seq<char>> {
    let f = fl.apply;
    match (l, r) {
        (Value::Float(a), Value::Float(b)) => Ok(Value::Float(f(FloatOp::Div, a, b))),
        (Value::Float(a), Value::Complex(br, bz)) => {
            let v = norm_squared(fl, br, bz);
            Ok(
                collapse(
                    f(FloatOp::Div, f(FloatOp::Mul, a, br), v),
                    f(FloatOp::Div, f(FloatOp::Mul, a.negated(), bz), v),
                ),
            )
        },
        (Value::Complex(ar, az), Value::Float(b)) => Ok(div_by_real(fl, l, b)),
        (Value::Complex(ar, az), Value::Complex(br, bz)) => Ok(
            div_by_real(
                fl,
                mul_value(fl, l, collapse(br, bz.negated()))->Ok_0,
                norm_squared(fl, br, bz),
            ),
        ),
        (Value::Float(a), Value::Matrix(b)) => Ok(
            Value::Matrix(grid_with_scalar(fl, b, FloatOp::Div, a, true)),
        ),
        (Value::Matrix(a), Value::Float(b)) => Ok(
            Value::Matrix(grid_with_scalar(fl, a, FloatOp::Div, b, false)),
        ),
        (Value::Matrix(a), Value::Matrix(b)) => if same_size(a, b) {
            Ok(Value::Matrix(grid_pairwise(fl, a, b, FloatOp::Div)))
        } else {
            Err(different_sizes(fl, l, "/"@, r))
        },
        _ => Err(unsupported(fl, l, "/"@, r, true)),
    }
}

/// `l % r`: the least non-negative remainder of a real, or of each part of
/// a complex number, by a real.
pub open spec fn rem_value(fl: Floats, l: Value, r: Value) -> Result<Value, Seq<char>> {
    let f = fl.apply;
    match (l, r) {
        (Value::Float(a), Value::Float(b)) => Ok(Value::Float(f(FloatOp::Rem, a, b))),
        (Value::Complex(ar, az), Value::Float(b)) => Ok(
            collapse(f(FloatOp::Rem, ar, b), f(FloatOp::Rem, az, b)),
        ),
        _ => Err(unsupported(fl, l, "%"@, r, true)),
    }
}

/// `l ^ r`, on reals only.
pub open spec fn pow_value(fl: Floats, l: Value, r: Value) -> Result<Value, Seq<char>> {
    match (l, r) {
        (Value::Float(a), Value::Float(b)) => Ok(Value::Float((fl.apply)(FloatOp::Pow, a, b))),
        _ => Err(unsupported(fl, l, "^"@, r, true)),
    }
}

/// `l ** r`: the matrix product, where `l` has as many columns as `r` has
/// rows.
pub open spec fn matrix_mul_value(fl: Floats, l: Value, r: Value) -> Result<Value, Seq<char>> {
    match (l, r) {
        (Value::Matrix(a), Value::Matrix(b)) => if a[0].len() == b.len() {
            Ok(Value::Matrix(grid_product(fl, a, b)))
        } else {
            Err(operands_message(fl, "Unsupported sizes operator "@, l, "**"@, r, false))
        },
        _ => Err(unsupported(fl, l, "**"@, r, true)),
    }
}

/// The outcome of the finiteness check.
pub open spec fn checked(fl: Floats, v: Value) -> Result<Value, Seq<char>> {
    match v.first_bad() {
        None => Ok(v),
        Some(x) => Err(not_finite_message(fl, x)),
    }
}

impl Clone for Num {
    fn clone(&self) -> (res: Num)
        ensures
            res@ == self@,
            res.wf() == self.wf(),
    {
        match self {
            Num::Float(n) => Num::Float(*n),
            Num::Complex(c) => Num::Complex(Box::new(Complex { r: c.r, z: c.z })),
            Num::Matrix(m) => {
                let copy = (**m).clone();
                Num::Matrix(Box::new(copy))
            },
        }
    }
}

impl Num {
    /// A matrix holds rows of one length and records their size.
    pub open spec fn wf(&self) -> bool {
        match self {
            Num::Matrix(m) => m.wf(),
            _ => true,
        }
    }

    /// The real that a decimal literal denotes.
    pub fn from_string_to_float<F: Fn(Query) -> Answer>(string: &String, fl: &F) -> (res: Result<
        Num,
        String,
    >)
        requires
            lawful(fl),
        ensures
            match (floats_of(fl).parse)(string@) {
                Some(n) => res is Ok && res->Ok_0@ == Value::Float(n),
                None => res is Err && res->Err_0@ == "Conversion Failure"@,
            },
    {
        match parse(fl, string.as_str()) {
            Some(n) => Ok(Num::Float(n)),
            None => Err(String::from_str("Conversion Failure")),
        }
    }

    /// The number `r + z i`, as a real when `z` is zero.
    pub fn from_two_float(r: Scalar, z: Scalar) -> (num: Num)
        ensures
            num@ == collapse(r, z),
            num.wf(),
    {
        if z.is_zero() {
            Num::Float(r)
        } else {
            Self::from_two_float_to_complex(r, z)
        }
    }

    /// The complex number `r + z i`, whatever `z` is.
    pub fn from_two_float_to_complex(r: Scalar, z: Scalar) -> (num: Num)
        ensures
            num@ == Value::Complex(r, z),
            num.wf(),
    {
        Num::Complex(Box::new(Complex::from_two_float(r, z)))
    }

    /// The imaginary unit.
    pub fn new_complex() -> (num: Num)
        ensures
            num@ == Value::Complex(Scalar { bits: 0 }, Scalar { bits: ONE_BITS }),
            num.wf(),
    {
        Self::from_two_float_to_complex(Scalar::zero_value(), Scalar::one())
    }

    /// The matrix with the given rows.
    pub fn from_vec(elem: Vec<Vec<Scalar>>) -> (res: Result<Num, String>)
        ensures
            grid_wf(grid_of(elem@)) ==> res is Ok && res->Ok_0@ == Value::Matrix(grid_of(elem@))
                && res->Ok_0.wf(),
            !grid_wf(grid_of(elem@)) ==> res is Err && res->Err_0@ == "Conversion Failure"@,
    {
        match Matrix::from_vec(elem) {
            Some(m) => Ok(Num::Matrix(Box::new(m))),
            None => Err(String::from_str("Conversion Failure")),
        }
    }

    /// The number itself when every component is finite; otherwise the
    /// message that names the first component that is not.
    pub fn checked_value<F: Fn(Query) -> Answer>(&self, fl: &F) -> (res: Result<&Num, String>)
        requires
            self.wf(),
            lawful(fl),
        ensures
            match self@.first_bad() {
                None => res == Ok::<&Num, String>(self),
                Some(x) => res is Err && res->Err_0@ == not_finite_message(floats_of(fl), x),
            },
    {
        match self {
            Num::Float(n) => {
                if n.is_finite() {
                    Ok(self)
                } else {
                    Err(not_finite(fl, *n))
                }
            },
            Num::Complex(b) => {
                if !b.r.is_finite() {
                    Err(not_finite(fl, b.r))
                } else if !b.z.is_finite() {
                    Err(not_finite(fl, b.z))
                } else {
                    Ok(self)
                }
            },
            Num::Matrix(b) => {
                match b.checked_value(fl) {
                    Ok(_) => Ok(self),
                    Err(e) => Err(e),
                }
            },
        }
    }

    /// `self + rhs`
    pub fn supported_add<F: Fn(Query) -> Answer>(&self, rhs: &Num, fl: &F) -> (res: Result<
        Num,
        String,
    >)
        requires
            self.wf(),
            rhs.wf(),
            lawful(fl),
        ensures
            result_matches(res, add_value(floats_of(fl), self@, rhs@)),
    {
        match (self, rhs) {
            (Num::Float(l), Num::Float(r)) => Ok(Num::Float(apply(fl, FloatOp::Add, *l, *r))),
            (Num::Float(l), Num::Complex(r)) => Ok(
                Num::from_two_float(apply(fl, FloatOp::Add, *l, r.r), r.z),
            ),
            (Num::Complex(l), Num::Float(r)) => Ok(
                Num::from_two_float(apply(fl, FloatOp::Add, l.r, *r), l.z),
            ),
            (Num::Complex(l), Num::Complex(r)) => Ok(
                Num::from_two_float(
                    apply(fl, FloatOp::Add, l.r, r.r),
                    apply(fl, FloatOp::Add, l.z, r.z),
                ),
            ),
            (Num::Matrix(l), Num::Matrix(r)) => {
                match l.pairwise(r, fl, FloatOp::Add) {
                    None => Err(
                        operands(fl, "Unsupported different sizes operator ", self, "+", rhs, false),
                    ),
                    Some(m) => Ok(Num::Matrix(Box::new(m))),
                }
            },
            _ => Err(operands(fl, "Unsupported operator ", self, "+", rhs, false)),
        }
    }

    /// `self - rhs`
    pub fn supported_sub<F: Fn(Query) -> Answer>(&self, rhs: &Num, fl: &F) -> (res: Result<
        Num,
        String,
    >)
        requires
            self.wf(),
            rhs.wf(),
            lawful(fl),
        ensures
            result_matches(res, sub_value(floats_of(fl), self@, rhs@)),
    {
        match (self, rhs) {
            (Num::Float(l), Num::Float(r)) => Ok(Num::Float(apply(fl, FloatOp::Sub, *l, *r))),
            (Num::Float(l), Num::Complex(r)) => Ok(
                Num::from_two_float(apply(fl, FloatOp::Sub, *l, r.r), r.z.neg()),
            ),
            (Num::Complex(l), Num::Float(r)) => Ok(
                Num::from_two_float(apply(fl, FloatOp::Sub, l.r, *r), l.z),
            ),
            (Num::Complex(l), Num::Complex(r)) => Ok(
                Num::from_two_float(
                    apply(fl, FloatOp::Sub, l.r, r.r),
                    apply(fl, FloatOp::Sub, l.z, r.z),
                ),
            ),
            (Num::Matrix(l), Num::Matrix(r)) => {
                match l.pairwise(r, fl, FloatOp::Sub) {
                    None => Err(
                        operands(fl, "Unsupported different sizes operator ", self, "-", rhs, false),
                    ),
                    Some(m) => Ok(Num::Matrix(Box::new(m))),
                }
            },
            _ => Err(operands(fl, "Unsupported operator ", self, "-", rhs, true)),
        }
    }

    /// `self * rhs`
    pub fn supported_mul<F: Fn(Query) -> Answer>(&self, rhs: &Num, fl: &F) -> (res: Result<
        Num,
        String,
    >)
        requires
            self.wf(),
            rhs.wf(),
            lawful(fl),
        ensures
            result_matches(res, mul_value(floats_of(fl), self@, rhs@)),
    {
        match (self, rhs) {
            (Num::Float(l), Num::Float(r)) => Ok(Num::Float(apply(fl, FloatOp::Mul, *l, *r))),
            (Num::Float(l), Num::Complex(r)) => Ok(
                Num::from_two_float(
                    apply(fl, FloatOp::Mul, *l, r.r),
                    apply(fl, FloatOp::Mul, *l, r.z),
                ),
            ),
            (Num::Complex(l), Num::Float(r)) => Ok(
                Num::from_two_float(
                    apply(fl, FloatOp::Mul, l.r, *r),
                    apply(fl, FloatOp::Mul, l.z, *r),
                ),
            ),
            (Num::Complex(l), Num::Complex(r)) => {
                let rr = apply(fl, FloatOp::Mul, l.r, r.r);
                let zz = apply(fl, FloatOp::Mul, l.z, r.z);
                let rz = apply(fl, FloatOp::Mul, l.r, r.z);
                let zr = apply(fl, FloatOp::Mul, l.z, r.r);
                Ok(
                    Num::from_two_float(
                        apply(fl, FloatOp::Sub, rr, zz),
                        apply(fl, FloatOp::Add, rz, zr),
                    ),
                )
            },
            (Num::Float(l), Num::Matrix(r)) => Ok(
                Num::Matrix(Box::new(r.with_scalar(fl, FloatOp::Mul, *l, true))),
            ),
            (Num::Matrix(l), Num::Float(r)) => Ok(
                Num::Matrix(Box::new(l.with_scalar(fl, FloatOp::Mul, *r, false))),
            ),
            (Num::Matrix(l), Num::Matrix(r)) => {
                match l.pairwise(r, fl, FloatOp::Mul) {
                    None => Err(
                        operands(fl, "Unsupported different sizes operator ", self, "*", rhs, false),
                    ),
                    Some(m) => Ok(Num::Matrix(Box::new(m))),
                }
            },
            _ => Err(operands(fl, "Unsupported operator ", self, "*", rhs, true)),
        }
    }

    /// `self / rhs`
    pub fn supported_div<F: Fn(Query) -> Answer>(&self, rhs: &Num, fl: &F) -> (res: Result<
        Num,
        String,
    >)
        requires
            self.wf(),
            rhs.wf(),
            lawful(fl),
        ensures
            result_matches(res, div_value(floats_of(fl), self@, rhs@)),
    {
        match (self, rhs) {
            (Num::Float(l), Num::Float(r)) => Ok(Num::Float(apply(fl, FloatOp::Div, *l, *r))),
            (Num::Float(l), Num::Complex(r)) => {
                let v = squared_norm(fl, r.r, r.z);
                let re = apply(fl, FloatOp::Mul, *l, r.r);
                let im = apply(fl, FloatOp::Mul, l.neg(), r.z);
                Ok(
                    Num::from_two_float(
                        apply(fl, FloatOp::Div, re, v),
                        apply(fl, FloatOp::Div, im, v),
                    ),
                )
            },
            (Num::Complex(l), Num::Float(r)) => Ok(divided_by_real(fl, self, *r)),
            (Num::Complex(_), Num::Complex(r)) => {
                let v = squared_norm(fl, r.r, r.z);
                let conjugate = Num::from_two_float(r.r, r.z.neg());
                match self.supported_mul(&conjugate, fl) {
                    Ok(product) => Ok(divided_by_real(fl, &product, v)),
                    Err(e) => Err(e),
                }
            },
            (Num::Float(l), Num::Matrix(r)) => Ok(
                Num::Matrix(Box::new(r.with_scalar(fl, FloatOp::Div, *l, true))),
            ),
            (Num::Matrix(l), Num::Float(r)) => Ok(
                Num::Matrix(Box::new(l.with_scalar(fl, FloatOp::Div, *r, false))),
            ),
            (Num::Matrix(l), Num::Matrix(r)) => {
                match l.pairwise(r, fl, FloatOp::Div) {
                    None => Err(
                        operands(fl, "Unsupported different sizes operator ", self, "/", rhs, false),
                    ),
                    Some(m) => Ok(Num::Matrix(Box::new(m))),
                }
            },
            _ => Err(operands(fl, "Unsupported operator ", self, "/", rhs, true)),
        }
    }

    /// `self % rhs`
    pub fn supported_rem<F: Fn(Query) -> Answer>(&self, rhs: &Num, fl: &F) -> (res: Result<
        Num,
        String,
    >)
        requires
            self.wf(),
            rhs.wf(),
            lawful(fl),
        ensures
            result_matches(res, rem_value(floats_of(fl), self@, rhs@)),
    {
        match (self, rhs) {
            (Num::Float(l), Num::Float(r)) => Ok(Num::Float(apply(fl, FloatOp::Rem, *l, *r))),
            (Num::Complex(l), Num::Float(r)) => Ok(
                Num::from_two_float(
                    apply(fl, FloatOp::Rem, l.r, *r),
                    apply(fl, FloatOp::Rem, l.z, *r),
                ),
            ),
            _ => Err(operands(fl, "Unsupported operator ", self, "%", rhs, true)),
        }
    }

    /// `self ^ rhs`
    pub fn supported_pow<F: Fn(Query) -> Answer>(&self, rhs: &Num, fl: &F) -> (res: Result<
        Num,
        String,
    >)
        requires
            self.wf(),
            rhs.wf(),
            lawful(fl),
        ensures
            result_matches(res, pow_value(floats_of(fl), self@, rhs@)),
    {
        match (self, rhs) {
            (Num::Float(l), Num::Float(r)) => Ok(Num::Float(apply(fl, FloatOp::Pow, *l, *r))),
            _ => Err(operands(fl, "Unsupported operator ", self, "^", rhs, true)),
        }
    }

    /// `self ** rhs`
    pub fn supported_matrix_mul<F: Fn(Query) -> Answer>(&self, rhs: &Num, fl: &F) -> (res: Result<
        Num,
        String,
    >)
        requires
            self.wf(),
            rhs.wf(),
            lawful(fl),
        ensures
            result_matches(res, matrix_mul_value(floats_of(fl), self@, rhs@)),
    {
        match (self, rhs) {
            (Num::Matrix(l), Num::Matrix(r)) => {
                match l.matrix_mul(r, fl) {
                    Some(m) => Ok(Num::Matrix(Box::new(m))),
                    None => Err(operands(fl, "Unsupported sizes operator ", self, "**", rhs, false)),
                }
            },
            _ => Err(operands(fl, "Unsupported operator ", self, "**", rhs, true)),
        }
    }

    /// Whether the number is written with a leading minus.
    pub fn is_need_sign_reverse(&self) -> (b: bool)
        ensures
            b == self@.needs_sign_reverse(),
    {
        match self {
            Num::Float(n) => n.is_sign_negative(),
            Num::Complex(n) => (n.r.is_zero() && n.z.is_sign_negative()) || n.r.is_sign_negative(),
            Num::Matrix(_) => false,
        }
    }

    /// Whether the number has to stand in parentheses beside an operator.
    pub fn is_need_paren_to_display(&self) -> (b: bool)
        ensures
            b == self@.needs_paren(),
    {
        if self.is_need_sign_reverse() {
            true
        } else {
            match &self {
                Num::Float(_) => false,
                Num::Complex(n) => n.r != Scalar::zero_value() && n.z != Scalar::zero_value(),
                Num::Matrix(_) => false,
            }
        }
    }

    /// The number with every sign flipped.
    pub fn reverse_sign(&self) -> (num: Num)
        requires
            self.wf(),
        ensures
            num@ == self@.sign_reversed(),
            num.wf(),
    {
        match &self {
            Num::Float(n) => Num::Float(n.neg()),
            Num::Complex(n) => Num::from_two_float(n.r.neg(), n.z.neg()),
            Num::Matrix(n) => Num::Matrix(Box::new(n.negated())),
        }
    }

    /// The number on one line.
    pub fn to_string<F: Fn(Query) -> Answer>(&self, fl: &F) -> (text: String)
        requires
            self.wf(),
            lawful(fl),
        ensures
            text@ == value_text(floats_of(fl), self@),
    {
        match self {
            Num::Float(n) => display(fl, *n),
            Num::Complex(c) => c.to_string(fl),
            Num::Matrix(m) => m.to_string(fl),
        }
    }

    /// The number as it is displayed to the user.
    pub fn to_show_value_string<F: Fn(Query) -> Answer>(&self, fl: &F) -> (text: String)
        requires
            self.wf(),
            lawful(fl),
        ensures
            text@ == value_show_text(floats_of(fl), self@),
    {
        match self {
            Num::Matrix(m) => m.to_string_rich(fl),
            _ => {
                let mut text = String::from_str("  ");
                let s = self.to_string(fl);
                text.append(s.as_str());
                text
            },
        }
    }
}

/// `res` is the exec form of `model`: the same number, well formed, or the
/// same message.
pub open spec fn result_matches(res: Result<Num, String>, model: Result<Value, Seq<char>>) -> bool {
    match model {
        Ok(v) => res is Ok && res->Ok_0@ == v && res->Ok_0.wf(),
        Err(m) => res is Err && res->Err_0@ == m,
    }
}

fn squared_norm<F: Fn(Query) -> Answer>(fl: &F, r: Scalar, z: Scalar) -> (v: Scalar)
    requires
        lawful(fl),
    ensures
        v == norm_squared(floats_of(fl), r, z),
{
    let rr = apply(fl, FloatOp::Mul, r, r);
    let zz = apply(fl, FloatOp::Mul, z, z);
    apply(fl, FloatOp::Add, rr, zz)
}

fn divided_by_real<F: Fn(Query) -> Answer>(fl: &F, l: &Num, v: Scalar) -> (res: Num)
    requires
        lawful(fl),
        !(l@ is Matrix),
    ensures
        res@ == div_by_real(floats_of(fl), l@, v),
        res.wf(),
{
    match l {
        Num::Float(a) => Num::Float(apply(fl, FloatOp::Div, *a, v)),
        Num::Complex(c) => Num::from_two_float(
            apply(fl, FloatOp::Div, c.r, v),
            apply(fl, FloatOp::Div, c.z, v),
        ),
        Num::Matrix(_) => Num::Float(v),
    }
}

impl Complex {
    /// The complex number `r + z i`.
    pub fn from_two_float(r: Scalar, z: Scalar) -> (c: Complex)
        ensures
            c.r == r,
            c.z == z,
    {
        Complex { r, z }
    }

    /// The number as text: `a + bi`, `a - bi`, `a`, `bi`, `i`, `-i` or `0`.
    pub fn to_string<F: Fn(Query) -> Answer>(&self, fl: &F) -> (text: String)
        requires
            lawful(fl),
        ensures
            text@ == complex_text(floats_of(fl), self.r, self.z),
    {
        complex_to_string(fl, self.r, self.z)
    }
}

fn complex_to_string<F: Fn(Query) -> Answer>(fl: &F, r: Scalar, z: Scalar) -> (text: String)
    requires
        lawful(fl),
    ensures
        text@ == complex_text(floats_of(fl), r, z),
{
    if r.is_zero() && z.is_zero() {
        return String::from_str("0");
    }
    if z.is_sign_positive() {
        if r.is_zero() && z.is_one() {
            String::from_str("i")
        } else if r.is_zero() {
            let mut text = display(fl, z);
            text.append("i");
            text
        } else if z.is_zero() {
            display(fl, r)
        } else if z.is_one() {
            let mut text = display(fl, r);
            text.append(" + i");
            text
        } else {
            let mut text = display(fl, r);
            text.append(" + ");
            let im = display(fl, z);
            text.append(im.as_str());
            text.append("i");
            text
        }
    } else {
        if r.is_zero() && z.is_minus_one() {
            String::from_str("-i")
        } else if r.is_zero() {
            let mut text = display(fl, z);
            text.append("i");
            text
        } else if z.is_zero() {
            display(fl, r)
        } else if z.is_minus_one() {
            let mut text = display(fl, r);
            text.append(" - i");
            text
        } else {
            let mut text = display(fl, r);
            text.append(" - ");
            let im = display(fl, z.neg());
            text.append(im.as_str());
            text.append("i");
            text
        }
    }
}

fn operands<F: Fn(Query) -> Answer>(
    fl: &F,
    head: &str,
    l: &Num,
    sign: &str,
    r: &Num,
    parens: bool,
) -> (text: String)
    requires
        lawful(fl),
        l.wf(),
        r.wf(),
    ensures
        text@ == operands_message(floats_of(fl), head@, l@, sign@, r@, parens),
{
    let mut text = String::from_str(head);
    let left = l.to_string(fl);
    let right = r.to_string(fl);
    if parens {
        text.append("(");
        text.append(left.as_str());
        text.append(") ");
        text.append(sign);
        text.append(" (");
        text.append(right.as_str());
        text.append(")");
    } else {
        text.append(left.as_str());
        text.append(" ");
        text.append(sign);
        text.append(" ");
        text.append(right.as_str());
    }
    text
}

} // verus!

verus! {

/// A complex number whose imaginary part is zero, of either sign, is the
/// real number of its real part.
pub proof fn lemma_collapse(r: Scalar, z: Scalar)
    ensures
        z.zero() ==> collapse(r, z) == Value::Float(r),
        !z.zero() ==> collapse(r, z) == Value::Complex(r, z),
        collapse(r, Scalar { bits: 0 }) == Value::Float(r),
        collapse(r, Scalar { bits: SIGN_BIT }) == Value::Float(r),
{
}

/// Reversing the sign of `0 + 0i` gives the real number zero.
pub proof fn lemma_reverse_zero()
    ensures
        Value::Complex(Scalar { bits: 0 }, Scalar { bits: 0 }).sign_reversed() matches Value::Float(
            x,
        ) && x.same(Scalar { bits: 0 }),
{
}

/// No result of the normalising factory is a complex number with an
/// imaginary part of zero.
pub proof fn lemma_collapse_normal(r: Scalar, z: Scalar)
    ensures
        collapse(r, z) matches Value::Complex(_, im) ==> !im.zero(),
{
}

} // verus!
