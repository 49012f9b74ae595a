use vstd::arithmetic::power2::{
    lemma2_to64, lemma2_to64_rest, lemma_pow2_strictly_increases, lemma_pow2_unfold, pow2,
};
use vstd::prelude::*;

verus! {

/// The bit that holds the sign of a binary64 value.
pub const SIGN_BIT: u64 = 0x8000_0000_0000_0000;

/// The bit pattern of positive infinity: every exponent bit set, no fraction
/// bit set.
pub const INFINITY_BITS: u64 = 0x7ff0_0000_0000_0000;

/// The bit pattern of `1.0`.
pub const ONE_BITS: u64 = 0x3ff0_0000_0000_0000;

/// The bit pattern of `2.0`.
pub const TWO_BITS: u64 = 0x4000_0000_0000_0000;

/// The bit pattern of `4.0`.
pub const FOUR_BITS: u64 = 0x4010_0000_0000_0000;

/// The value of the lowest exponent bit: two to the power 52.
pub const EXPONENT_UNIT: u64 = 0x10_0000_0000_0000;

/// The bit pattern of two to the power 32.
pub const TWO_POW_32_BITS: u64 = 0x41f0_0000_0000_0000;

/// The bit pattern of two to the power 63.
pub const TWO_POW_63_BITS: u64 = 0x43e0_0000_0000_0000;

/// A number in IEEE 754 binary64, held by its bit pattern: one sign
/// bit, eleven exponent bits, fifty-two fraction bits.
///
/// What can be read off the bits is decided here: sign, zero, infinity, NaN,
/// negation, absolute value and equality. Rounding arithmetic is not; it is
/// asked of a [`Query`] answerer.
#[derive(Clone, Copy, Debug)]
pub struct Scalar {
    pub bits: u64,
}

impl Scalar {
    /// The bits without the sign.
    pub open spec fn magnitude(self) -> int {
        if self.bits >= SIGN_BIT {
            self.bits - SIGN_BIT
        } else {
            self.bits as int
        }
    }

    /// The sign bit is set. True of `-0.0` and of NaNs with the bit set.
    pub open spec fn negative(self) -> bool {
        self.bits >= SIGN_BIT
    }

    /// Neither infinite nor NaN.
    pub open spec fn finite(self) -> bool {
        self.magnitude() < INFINITY_BITS
    }

    /// Not a number.
    pub open spec fn nan(self) -> bool {
        self.magnitude() > INFINITY_BITS
    }

    /// `0.0` or `-0.0`.
    pub open spec fn zero(self) -> bool {
        self.magnitude() == 0
    }

    /// The value with its sign bit flipped.
    pub open spec fn negated(self) -> Scalar {
        if self.bits >= SIGN_BIT {
            Scalar { bits: (self.bits - SIGN_BIT) as u64 }
        } else {
            Scalar { bits: (self.bits + SIGN_BIT) as u64 }
        }
    }

    /// The value with its sign bit cleared.
    pub open spec fn absolute(self) -> Scalar {
        Scalar { bits: self.magnitude() as u64 }
    }

    /// Equality of the numbers held: a NaN equals nothing, the two zeros
    /// equal each other, and any other value equals only itself.
    pub open spec fn same(self, other: Scalar) -> bool {
        !self.nan() && !other.nan() && (self.bits == other.bits || (self.zero() && other.zero()))
    }

    /// The exponent field: 0 for zeros and subnormal values, 1023 for
    /// values from one up to two, 2047 for infinities and NaNs.
    pub open spec fn exponent_field(self) -> int {
        self.magnitude() / (EXPONENT_UNIT as int)
    }

    /// The value is an integer: zero, or at least one in magnitude with no
    /// fraction bit set below the binary point.
    pub open spec fn whole(self) -> bool {
        self.zero() || (self.finite() && self.magnitude() >= ONE_BITS && (self.exponent_field()
            >= 1075 || self.magnitude() % (pow2((1075 - self.exponent_field()) as nat) as int)
            == 0))
    }

    /// The value can count repetitions: an integer from zero to two to the
    /// power 63, where `-0.0` counts as zero. Among values that are not
    /// negative, the order of the values is the order of their bits.
    pub open spec fn countable(self) -> bool {
        self.whole() && self.magnitude() <= TWO_POW_63_BITS && (!self.negative() || self.zero())
    }

    /// The count that a countable value stands for: the value itself below
    /// two to the power 32, and `u32::MAX` from there on.
    pub open spec fn count(self) -> int {
        if self.zero() {
            0
        } else if self.magnitude() >= TWO_POW_32_BITS {
            u32::MAX as int
        } else {
            (EXPONENT_UNIT + self.magnitude() % (EXPONENT_UNIT as int)) / (pow2(
                (1075 - self.exponent_field()) as nat,
            ) as int)
        }
    }

    /// The count that the value stands for, if it can count.
    pub fn to_count(&self) -> (n: Option<u32>)
        ensures
            self.countable() ==> n == Some(self.count() as u32) && 0 <= self.count() <= u32::MAX,
            !self.countable() ==> n is None,
    {
        let m = self.magnitude_bits();
        if m == 0 {
            return Some(0);
        }
        if self.bits >= SIGN_BIT || m < ONE_BITS || m > TWO_POW_63_BITS {
            return None;
        }
        let e = m / EXPONENT_UNIT;
        assert(1023 <= e <= 1086);
        if e >= 1075 {
            return Some(u32::MAX);
        }
        let k: u64 = 1075 - e;
        let mut p: u64 = 1;
        let mut i: u64 = 0;
        proof {
            lemma2_to64();
        }
        while i < k
            invariant
                0 <= i <= k <= 52,
                p == pow2(i as nat),
                0 < p <= EXPONENT_UNIT,
            decreases k - i,
        {
            proof {
                lemma_pow2_unfold((i + 1) as nat);
                lemma2_to64_rest();
                if i + 1 < 52 {
                    lemma_pow2_strictly_increases((i + 1) as nat, 52);
                }
            }
            p = p * 2;
            i += 1;
        }
        if m % p != 0 {
            return None;
        }
        let q = (EXPONENT_UNIT + m % EXPONENT_UNIT) / p;
        if m >= TWO_POW_32_BITS {
            Some(u32::MAX)
        } else {
            proof {
                assert(e <= 1054);
                assert(k >= 21);
                lemma2_to64();
                if k > 21 {
                    lemma_pow2_strictly_increases(21, k as nat);
                }
                assert(p >= 0x200000);
                assert(EXPONENT_UNIT + m % EXPONENT_UNIT < 2 * EXPONENT_UNIT);
                let top: int = EXPONENT_UNIT + m % EXPONENT_UNIT;
                let div: int = p as int;
                assert(top / div <= 0xffff_ffff) by (nonlinear_arith)
                    requires
                        div >= 0x200000,
                        0 <= top < 0x20_0000_0000_0000,
                ;
            }
            Some(q as u32)
        }
    }

    /// The value with the given bit pattern.
    pub fn from_bits(bits: u64) -> (r: Scalar)
        ensures
            r.bits == bits,
    {
        Scalar { bits }
    }

    /// The bit pattern of the value.
    pub fn to_bits(&self) -> (bits: u64)
        ensures
            bits == self.bits,
    {
        self.bits
    }

    /// `0.0`
    pub fn zero_value() -> (r: Scalar)
        ensures
            r.bits == 0,
    {
        Scalar { bits: 0 }
    }

    /// `1.0`
    pub fn one() -> (r: Scalar)
        ensures
            r.bits == ONE_BITS,
    {
        Scalar { bits: ONE_BITS }
    }

    /// `2.0`
    pub fn two() -> (r: Scalar)
        ensures
            r.bits == TWO_BITS,
    {
        Scalar { bits: TWO_BITS }
    }

    /// `4.0`
    pub fn four() -> (r: Scalar)
        ensures
            r.bits == FOUR_BITS,
    {
        Scalar { bits: FOUR_BITS }
    }

    fn magnitude_bits(&self) -> (m: u64)
        ensures
            m == self.magnitude(),
    {
        if self.bits >= SIGN_BIT {
            self.bits - SIGN_BIT
        } else {
            self.bits
        }
    }

    /// Whether the sign bit is set.
    pub fn is_sign_negative(&self) -> (b: bool)
        ensures
            b == self.negative(),
    {
        self.bits >= SIGN_BIT
    }

    /// Whether the sign bit is clear.
    pub fn is_sign_positive(&self) -> (b: bool)
        ensures
            b == !self.negative(),
    {
        self.bits < SIGN_BIT
    }

    /// Whether the value is neither infinite nor NaN.
    pub fn is_finite(&self) -> (b: bool)
        ensures
            b == self.finite(),
    {
        self.magnitude_bits() < INFINITY_BITS
    }

    /// Whether the value is NaN.
    pub fn is_nan(&self) -> (b: bool)
        ensures
            b == self.nan(),
    {
        self.magnitude_bits() > INFINITY_BITS
    }

    /// Whether the value equals `0.0`.
    pub fn is_zero(&self) -> (b: bool)
        ensures
            b == self.zero(),
    {
        self.magnitude_bits() == 0
    }

    /// Whether the value equals `1.0`.
    pub fn is_one(&self) -> (b: bool)
        ensures
            b == (self.bits == ONE_BITS),
    {
        self.bits == ONE_BITS
    }

    /// Whether the value equals `-1.0`.
    pub fn is_minus_one(&self) -> (b: bool)
        ensures
            b == (self.bits == ONE_BITS + SIGN_BIT),
    {
        self.bits == ONE_BITS + SIGN_BIT
    }

    /// `-self`
    pub fn neg(&self) -> (r: Scalar)
        ensures
            r == self.negated(),
    {
        if self.bits >= SIGN_BIT {
            Scalar { bits: self.bits - SIGN_BIT }
        } else {
            Scalar { bits: self.bits + SIGN_BIT }
        }
    }

    /// `|self|`
    pub fn abs(&self) -> (r: Scalar)
        ensures
            r == self.absolute(),
    {
        Scalar { bits: self.magnitude_bits() }
    }
}

impl PartialEq for Scalar {
    fn eq(&self, other: &Scalar) -> (b: bool) {
        !self.is_nan() && !other.is_nan() && (self.bits == other.bits || (self.is_zero()
            && other.is_zero()))
    }
}

impl vstd::std_specs::cmp::PartialEqSpecImpl for Scalar {
    open spec fn obeys_eq_spec() -> bool {
        true
    }

    open spec fn eq_spec(&self, other: &Scalar) -> bool {
        self.same(*other)
    }
}

/// Negation flips the sign and nothing else; applied twice it gives the
/// value back, and it keeps zero, finiteness and NaN.
pub proof fn lemma_negated(r: Scalar)
    ensures
        r.negated().negated() == r,
        r.negated().negative() == !r.negative(),
        r.negated().magnitude() == r.magnitude(),
        r.absolute().magnitude() == r.magnitude(),
        !r.absolute().negative(),
{
}

/// The arithmetic that is asked for.
#[derive(Clone, Copy, Debug, PartialEq, Eq, Structural)]
pub enum FloatOp {
    /// `a + b`
    Add,
    /// `a - b`
    Sub,
    /// `a * b`
    Mul,
    /// `a / b`
    Div,
    /// The least non-negative remainder of `a / b`.
    Rem,
    /// `a` raised to the power `b`.
    Pow,
    /// The square root of `a`.
    Sqrt,
    /// `e` raised to the power `a`.
    Exp,
    Sin,
    Cos,
    Tan,
}

/// A question about binary64 values that the bits alone do not settle.
pub enum Query {
    /// The rounded result of an operation. Operations of one operand ignore
    /// the second.
    Apply(FloatOp, Scalar, Scalar),
    /// The value that a decimal literal denotes.
    Parse(String),
    /// The shortest decimal text that denotes the value.
    Display(Scalar),
    /// As `Display`, but always with a fractional part.
    Debug(Scalar),
}

/// The reply to a [`Query`].
pub enum Answer {
    Value(Scalar),
    Text(String),
    /// The question has no answer: the text is no number.
    Nothing,
}

/// A query with its text as a sequence of characters.
pub enum QueryView {
    Apply(FloatOp, Scalar, Scalar),
    Parse(Seq<char>),
    Display(Scalar),
    Debug(Scalar),
}

/// An answer with its text as a sequence of characters.
pub enum AnswerView {
    Value(Scalar),
    Text(Seq<char>),
    Nothing,
}

impl View for Query {
    type V = QueryView;

    open spec fn view(&self) -> QueryView {
        match self {
            Query::Apply(op, a, b) => QueryView::Apply(*op, *a, *b),
            Query::Parse(s) => QueryView::Parse(s@),
            Query::Display(r) => QueryView::Display(*r),
            Query::Debug(r) => QueryView::Debug(*r),
        }
    }
}

impl View for Answer {
    type V = AnswerView;

    open spec fn view(&self) -> AnswerView {
        match self {
            Answer::Value(r) => AnswerView::Value(*r),
            Answer::Text(s) => AnswerView::Text(s@),
            Answer::Nothing => AnswerView::Nothing,
        }
    }
}

/// `fl` can be asked anything, and equal questions get equal answers.
pub open spec fn lawful<F: Fn(Query) -> Answer>(fl: &F) -> bool {
    &&& forall|q: Query| #[trigger] fl.requires((q,))
    &&& forall|q1: Query, a1: Answer, q2: Query, a2: Answer|
        #[trigger] fl.ensures((q1,), a1) && #[trigger] fl.ensures((q2,), a2) && q1@ == q2@ ==> a1@
            == a2@
}

/// Some query with view `q` can get an answer with view `a`.
pub open spec fn may_answer<F: Fn(Query) -> Answer>(fl: &F, q: QueryView, a: AnswerView) -> bool {
    exists|query: Query, answer: Answer|
        query@ == q && answer@ == a && #[trigger] fl.ensures((query,), answer)
}

/// The answer that `fl` gives to `q`.
pub open spec fn answer_of<F: Fn(Query) -> Answer>(fl: &F, q: QueryView) -> AnswerView {
    choose|a: AnswerView| may_answer(fl, q, a)
}

/// Binary64 arithmetic as a mathematical object: what each operation, each
/// literal and each value comes to.
pub struct Floats {
    pub apply: spec_fn(FloatOp, Scalar, Scalar) -> Scalar,
    pub parse: spec_fn(Seq<char>) -> Option<Scalar>,
    pub display: spec_fn(Scalar) -> Seq<char>,
    pub debug: spec_fn(Scalar) -> Seq<char>,
}

/// The arithmetic that `fl` performs. An answer of the wrong kind counts as
/// NaN, as no number, or as the empty text.
pub open spec fn floats_of<F: Fn(Query) -> Answer>(fl: &F) -> Floats {
    Floats {
        apply: |op: FloatOp, a: Scalar, b: Scalar|
            match answer_of(fl, QueryView::Apply(op, a, b)) {
                AnswerView::Value(r) => r,
                _ => Scalar { bits: (INFINITY_BITS + 1) as u64 },
            },
        parse: |s: Seq<char>|
            match answer_of(fl, QueryView::Parse(s)) {
                AnswerView::Value(r) => Some(r),
                _ => None,
            },
        display: |r: Scalar|
            match answer_of(fl, QueryView::Display(r)) {
                AnswerView::Text(s) => s,
                _ => Seq::empty(),
            },
        debug: |r: Scalar|
            match answer_of(fl, QueryView::Debug(r)) {
                AnswerView::Text(s) => s,
                _ => Seq::empty(),
            },
    }
}

/// Puts a question to `fl`.
pub fn ask<F: Fn(Query) -> Answer>(fl: &F, query: Query) -> (answer: Answer)
    requires
        lawful(fl),
    ensures
        answer@ == answer_of(fl, query@),
{
    let ghost q = query@;
    let ghost asked = query;
    let answer = fl(query);
    proof {
        assert(fl.ensures((asked,), answer));
        assert(may_answer(fl, q, answer@));
        let chosen = answer_of(fl, q);
        assert(may_answer(fl, q, chosen));
        let (q2, a2) = choose|q2: Query, a2: Answer|
            q2@ == q && a2@ == chosen && #[trigger] fl.ensures((q2,), a2);
        assert(a2@ == answer@);
    }
    answer
}

/// The rounded result of `op` on `a` and `b`.
pub fn apply<F: Fn(Query) -> Answer>(fl: &F, op: FloatOp, a: Scalar, b: Scalar) -> (r: Scalar)
    requires
        lawful(fl),
    ensures
        r == (floats_of(fl).apply)(op, a, b),
{
    match ask(fl, Query::Apply(op, a, b)) {
        Answer::Value(r) => r,
        _ => Scalar { bits: INFINITY_BITS + 1 },
    }
}

/// The value of a decimal literal, if it is one.
pub fn parse<F: Fn(Query) -> Answer>(fl: &F, text: &str) -> (r: Option<Scalar>)
    requires
        lawful(fl),
    ensures
        r == (floats_of(fl).parse)(text@),
{
    match ask(fl, Query::Parse(String::from_str(text))) {
        Answer::Value(r) => Some(r),
        _ => None,
    }
}

/// The value as the calculator prints it.
pub fn display<F: Fn(Query) -> Answer>(fl: &F, r: Scalar) -> (text: String)
    requires
        lawful(fl),
    ensures
        text@ == (floats_of(fl).display)(r),
{
    match ask(fl, Query::Display(r)) {
        Answer::Text(s) => s,
        _ => String::new(),
    }
}

/// The value as it is printed for inspection.
pub fn debug<F: Fn(Query) -> Answer>(fl: &F, r: Scalar) -> (text: String)
    requires
        lawful(fl),
    ensures
        text@ == (floats_of(fl).debug)(r),
{
    match ask(fl, Query::Debug(r)) {
        Answer::Text(s) => s,
        _ => String::new(),
    }
}

} // verus!
