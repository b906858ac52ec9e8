//! Numbers of the language: IEEE-754 doubles, held as bit patterns.
//!
//! What can be decided on the bit pattern is decided here: sign, order,
//! equality, the integer part. Rounding arithmetic and the conversion from
//! and to decimal text are the work of a number kernel that the caller
//! supplies; the library states its results through the kernel's model.

use vstd::prelude::*;

verus! {

/// A number of the language, as the bit pattern of an IEEE-754 double.
#[derive(Debug, Clone, Copy, PartialEq, Eq, Structural)]
pub struct Number {
    pub bits: u64,
}

impl Number {
    /// The biased exponent of the double.
    pub open spec fn exponent(self) -> u64 {
        (self.bits >> 52) & 0x7ff
    }

    /// The fraction bits of the double.
    pub open spec fn fraction(self) -> u64 {
        self.bits & 0xf_ffff_ffff_ffff
    }

    /// Whether the sign bit is set.
    pub open spec fn is_negative(self) -> bool {
        self.bits >> 63 == 1
    }

    /// Whether the double is a NaN.
    pub open spec fn is_nan(self) -> bool {
        self.exponent() == 0x7ff && self.fraction() != 0
    }

    /// The integer part of the double as an index: zero for a NaN and for
    /// anything below one, the greatest index for anything of 2^64 or
    /// more, and else the significand shifted by the exponent, or the
    /// greatest index if that is less.
    pub open spec fn integer_part(self) -> usize {
        let significand = self.fraction() | 0x10_0000_0000_0000;
        if self.is_negative() || self.is_nan() || self.exponent() < 1023 {
            0
        } else if self.exponent() >= 1087 {
            usize::MAX
        } else if self.exponent() <= 1075 {
            clip(significand >> ((1075 - self.exponent()) as u64))
        } else {
            clip(significand << ((self.exponent() - 1075) as u64))
        }
    }

    /// The integer part of the double as an index.
    pub fn to_index(&self) -> (i: usize)
        ensures
            i == self.integer_part(),
    {
        let bits = self.bits;
        let exponent = (bits >> 52) & 0x7ff;
        let fraction = bits & 0xf_ffff_ffff_ffff;
        let significand = fraction | 0x10_0000_0000_0000;
        if bits >> 63 == 1 || (exponent == 0x7ff && fraction != 0) || exponent < 1023 {
            return 0;
        }
        if exponent >= 1087 {
            return usize::MAX;
        }
        if exponent <= 1075 {
            let shift = 1075 - exponent;
            assert(shift < 64);
            clipped(significand >> shift)
        } else {
            let shift = exponent - 1075;
            assert(shift < 64);
            clipped(significand << shift)
        }
    }
}

impl Number {
    /// The bits of the double without its sign.
    pub open spec fn magnitude(self) -> u64 {
        self.bits & 0x7fff_ffff_ffff_ffff
    }

    /// Where the double stands in the order of doubles: its magnitude,
    /// negated if the sign is set. The two zeros stand at the same place.
    pub open spec fn place(self) -> int {
        if self.is_negative() {
            -(self.magnitude() as int)
        } else {
            self.magnitude() as int
        }
    }

    /// IEEE-754 `<`: false if either is a NaN.
    pub open spec fn less_than(self, other: Number) -> bool {
        !self.is_nan() && !other.is_nan() && self.place() < other.place()
    }

    /// IEEE-754 `==`: false if either is a NaN; the two zeros are equal.
    pub open spec fn same_as(self, other: Number) -> bool {
        !self.is_nan() && !other.is_nan() && self.place() == other.place()
    }

    /// The double with the sign flipped.
    pub open spec fn negated(self) -> Number {
        Number { bits: self.bits ^ 0x8000_0000_0000_0000 }
    }

    /// Whether the double is a zero of either sign.
    pub open spec fn is_zero(self) -> bool {
        self.magnitude() == 0
    }

    fn nan(&self) -> (b: bool)
        ensures
            b == self.is_nan(),
    {
        (self.bits >> 52) & 0x7ff == 0x7ff && self.bits & 0xf_ffff_ffff_ffff != 0
    }

    /// IEEE-754 `<`.
    pub fn lt(&self, other: &Number) -> (b: bool)
        ensures
            b == self.less_than(*other),
    {
        if self.nan() || other.nan() {
            return false;
        }
        let a = self.bits & 0x7fff_ffff_ffff_ffff;
        let b = other.bits & 0x7fff_ffff_ffff_ffff;
        let a_negative = self.bits >> 63 == 1;
        let b_negative = other.bits >> 63 == 1;
        if a_negative {
            if b_negative {
                a > b
            } else {
                !(a == 0 && b == 0)
            }
        } else {
            if b_negative {
                false
            } else {
                a < b
            }
        }
    }

    /// IEEE-754 `==`.
    pub fn eq_number(&self, other: &Number) -> (b: bool)
        ensures
            b == self.same_as(*other),
    {
        if self.nan() || other.nan() {
            return false;
        }
        let a = self.bits & 0x7fff_ffff_ffff_ffff;
        let b = other.bits & 0x7fff_ffff_ffff_ffff;
        if a == 0 && b == 0 {
            return true;
        }
        a == b && (self.bits >> 63 == 1) == (other.bits >> 63 == 1)
    }

    /// The double with the sign flipped.
    pub fn negate(&self) -> (n: Number)
        ensures
            n == self.negated(),
    {
        Number { bits: self.bits ^ 0x8000_0000_0000_0000 }
    }

    /// Whether the double is a zero of either sign.
    pub fn zero(&self) -> (b: bool)
        ensures
            b == self.is_zero(),
    {
        self.bits & 0x7fff_ffff_ffff_ffff == 0
    }

    /// Whether the double is a whole number: a zero, or a finite double
    /// whose fraction bits below the binary point are all clear.
    pub open spec fn is_integral(self) -> bool {
        if self.is_zero() {
            true
        } else if self.exponent() == 0x7ff || self.exponent() < 1023 {
            false
        } else if self.exponent() >= 1075 {
            true
        } else {
            self.fraction() & low_mask((1075 - self.exponent()) as u64) == 0
        }
    }

    /// Whether the double is a whole number.
    pub fn integral(&self) -> (b: bool)
        ensures
            b == self.is_integral(),
    {
        let exponent = (self.bits >> 52) & 0x7ff;
        let fraction = self.bits & 0xf_ffff_ffff_ffff;
        if self.bits & 0x7fff_ffff_ffff_ffff == 0 {
            true
        } else if exponent == 0x7ff || exponent < 1023 {
            false
        } else if exponent >= 1075 {
            true
        } else {
            let low: u64 = 1075 - exponent;
            assert(low < 64);
            fraction & !(0xffff_ffff_ffff_ffffu64 << low) == 0
        }
    }

    /// The double of a small count: exact for counts below 2^53.
    pub open spec fn of_count(n: u64) -> Number
        recommends
            n < 0x20_0000_0000_0000,
    {
        if n == 0 {
            Number { bits: 0 }
        } else {
            let top = top_bit(n, 52);
            Number {
                bits: (((1023 + top) as u64) << 52) | ((n << ((52 - top) as u64))
                    & 0xf_ffff_ffff_ffff),
            }
        }
    }

    /// The double of the count `n`, which must be below 2^53 for the
    /// double to be exact.
    pub fn from_count(n: u64) -> (r: Number)
        requires
            n < 0x20_0000_0000_0000,
        ensures
            r == Number::of_count(n),
    {
        if n == 0 {
            return Number { bits: 0 };
        }
        let mut top: u64 = 52;
        while top > 0 && (n >> top) & 1 == 0
            invariant
                top <= 52,
                top_bit(n, 52) == top_bit(n, top as nat),
            decreases top,
        {
            top = top - 1;
        }
        let shift: u64 = 52 - top;
        let exponent: u64 = 1023 + top;
        assert(exponent << 52 == ((1023 + top) as u64) << 52);
        Number { bits: (exponent << 52) | ((n << shift) & 0xf_ffff_ffff_ffff) }
    }
}

/// The `n` lowest bits set, for `n` below 64.
pub open spec fn low_mask(n: u64) -> u64 {
    !(0xffff_ffff_ffff_ffffu64 << n)
}

/// The place of the highest bit of `n` that is set, looking down from
/// the bit `from`; zero if there is none.
pub open spec fn top_bit(n: u64, from: nat) -> nat
    decreases from,
{
    if from == 0 || (n >> (from as u64)) & 1 != 0 {
        from
    } else {
        top_bit(n, (from - 1) as nat)
    }
}

/// `n`, or the greatest index if `n` is greater.
pub open spec fn clip(n: u64) -> usize {
    if n > usize::MAX {
        usize::MAX
    } else {
        n as usize
    }
}

fn clipped(n: u64) -> (i: usize)
    ensures
        i == clip(n),
{
    if n > usize::MAX as u64 {
        usize::MAX
    } else {
        n as usize
    }
}

/// The rounding operations on two numbers.
#[derive(Debug, Clone, Copy, PartialEq, Eq, Structural)]
pub enum NumberOp {
    Add,
    Subtract,
    Multiply,
    Divide,
    Remainder,
}

/// What the library asks of the number kernel.
#[derive(Debug, Clone, PartialEq)]
pub enum NumberRequest {
    /// The number that a literal written as this text denotes.
    Parse(String),
    /// The shortest decimal text that denotes this number.
    Format(Number),
    /// The rounded result of an operation.
    Binary(NumberOp, Number, Number),
}

/// The mathematical value of a [`NumberRequest`].
pub enum NumberRequestView {
    Parse(Seq<char>),
    Format(Number),
    Binary(NumberOp, Number, Number),
}

impl View for NumberRequest {
    type V = NumberRequestView;

    open spec fn view(&self) -> NumberRequestView {
        match self {
            NumberRequest::Parse(s) => NumberRequestView::Parse(s@),
            NumberRequest::Format(n) => NumberRequestView::Format(*n),
            NumberRequest::Binary(op, a, b) => NumberRequestView::Binary(*op, *a, *b),
        }
    }
}

/// The kernel's answer: `number` for `Parse` and `Binary`, `text` for
/// `Format`. The other field is not looked at.
#[derive(Debug, Clone, PartialEq)]
pub struct NumberReply {
    pub number: Number,
    pub text: String,
}

/// The arithmetic that a number kernel computes, as functions.
pub struct Arithmetic {
    pub parse: spec_fn(Seq<char>) -> Number,
    pub format: spec_fn(Number) -> Seq<char>,
    pub binary: spec_fn(NumberOp, Number, Number) -> Number,
}

/// Whether `reply` is the answer of `arithmetic` to `request`.
pub open spec fn answers(
    arithmetic: Arithmetic,
    request: NumberRequestView,
    reply: NumberReply,
) -> bool {
    match request {
        NumberRequestView::Parse(s) => reply.number == (arithmetic.parse)(s),
        NumberRequestView::Format(n) => reply.text@ == (arithmetic.format)(n),
        NumberRequestView::Binary(op, a, b) => reply.number == (arithmetic.binary)(op, a, b),
    }
}

/// Whether the kernel `k` accepts every request and computes `arithmetic`.
pub open spec fn follows<K: Fn(NumberRequest) -> NumberReply>(k: &K, arithmetic: Arithmetic) -> bool {
    &&& forall|request: NumberRequest| #[trigger] call_requires(k, (request,))
    &&& forall|request: NumberRequest, reply: NumberReply| #[trigger]
        call_ensures(k, (request,), reply) ==> answers(arithmetic, request@, reply)
}

/// The arithmetic that the kernel `k` computes, if it computes one.
pub open spec fn model_of<K: Fn(NumberRequest) -> NumberReply>(k: &K) -> Arithmetic {
    choose|arithmetic: Arithmetic| follows(k, arithmetic)
}

/// Whether `k` is a number kernel: it accepts every request, and what it
/// answers depends on the request alone.
pub open spec fn lawful<K: Fn(NumberRequest) -> NumberReply>(k: &K) -> bool {
    follows(k, model_of(k))
}

/// Asks the kernel for the number that `text` denotes.
pub fn parse_number<K: Fn(NumberRequest) -> NumberReply>(k: &K, text: &str) -> (n: Number)
    requires
        lawful(k),
    ensures
        n == (model_of(k).parse)(text@),
{
    let request = NumberRequest::Parse(String::from_str(text));
    let ghost asked = request;
    let reply = k(request);
    assert(call_ensures(k, (asked,), reply));
    reply.number
}

/// Asks the kernel for the decimal text of `n`.
pub fn format_number<K: Fn(NumberRequest) -> NumberReply>(k: &K, n: Number) -> (text: String)
    requires
        lawful(k),
    ensures
        text@ == (model_of(k).format)(n),
{
    let request = NumberRequest::Format(n);
    let ghost asked = request;
    let reply = k(request);
    assert(call_ensures(k, (asked,), reply));
    reply.text
}

/// Asks the kernel for the rounded result of `op` on `a` and `b`.
pub fn compute<K: Fn(NumberRequest) -> NumberReply>(k: &K, op: NumberOp, a: Number, b: Number) -> (n:
    Number)
    requires
        lawful(k),
    ensures
        n == (model_of(k).binary)(op, a, b),
{
    let request = NumberRequest::Binary(op, a, b);
    let ghost asked = request;
    let reply = k(request);
    assert(call_ensures(k, (asked,), reply));
    reply.number
}

} // verus!
