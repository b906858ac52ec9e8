use lox_interpreter::number::{
    compute, format_number, parse_number, Number, NumberOp, NumberReply, NumberRequest,
};
use lox_interpreter::text::{chars_of, decimal_string, push_chars, push_decimal, string_of};

fn kernel(request: NumberRequest) -> NumberReply {
    match request {
        NumberRequest::Parse(text) => NumberReply {
            number: Number { bits: text.parse::<f64>().unwrap_or(f64::NAN).to_bits() },
            text: String::new(),
        },
        NumberRequest::Format(n) => {
            NumberReply { number: n, text: format!("{}", f64::from_bits(n.bits)) }
        }
        NumberRequest::Binary(op, a, b) => {
            let (x, y) = (f64::from_bits(a.bits), f64::from_bits(b.bits));
            let r = match op {
                NumberOp::Add => x + y,
                NumberOp::Subtract => x - y,
                NumberOp::Multiply => x * y,
                NumberOp::Divide => x / y,
                NumberOp::Remainder => x % y,
            };
            NumberReply { number: Number { bits: r.to_bits() }, text: String::new() }
        }
    }
}

fn of(value: f64) -> Number {
    Number { bits: value.to_bits() }
}

fn samples() -> Vec<f64> {
    vec![
        0.0,
        -0.0,
        1.0,
        -1.0,
        0.5,
        -0.5,
        1.5,
        2.0,
        3.75,
        10.0,
        255.0,
        1e10,
        -1e10,
        4503599627370496.0,
        9007199254740991.0,
        9007199254740992.0,
        1e19,
        1.8446744073709552e19,
        1e300,
        -1e300,
        5e-324,
        -5e-324,
        f64::MIN_POSITIVE,
        f64::MAX,
        f64::MIN,
        f64::INFINITY,
        f64::NEG_INFINITY,
        f64::NAN,
    ]
}

#[test]
fn order_is_that_of_the_doubles() {
    for a in samples() {
        for b in samples() {
            assert_eq!(of(a).lt(&of(b)), a < b, "{} < {}", a, b);
        }
    }
}

#[test]
fn equality_is_that_of_the_doubles() {
    for a in samples() {
        for b in samples() {
            assert_eq!(of(a).eq_number(&of(b)), a == b, "{} == {}", a, b);
        }
    }
}

#[test]
fn negation_flips_the_sign() {
    for a in samples() {
        assert_eq!(of(a).negate().bits, (-a).to_bits(), "{}", a);
    }
}

#[test]
fn zero_is_either_zero() {
    for a in samples() {
        assert_eq!(of(a).zero(), a == 0.0, "{}", a);
    }
}

#[test]
fn integral_means_no_fractional_part() {
    for a in samples() {
        assert_eq!(of(a).integral(), a.is_finite() && a.fract() == 0.0, "{}", a);
    }
}

#[test]
fn integer_part_saturates() {
    for a in samples() {
        assert_eq!(of(a).to_index(), a as usize, "{}", a);
    }
    assert_eq!(of(3.75).to_index(), 3);
    assert_eq!(of(-3.75).to_index(), 0);
    assert_eq!(of(f64::NAN).to_index(), 0);
    assert_eq!(of(1e300).to_index(), usize::MAX);
}

#[test]
fn counts_become_exact_doubles() {
    let counts: Vec<u64> =
        vec![0, 1, 2, 3, 7, 8, 120, 255, 256, 65535, 1 << 32, (1 << 52) + 1, (1 << 53) - 1];
    for n in counts {
        assert_eq!(Number::from_count(n).bits, (n as f64).to_bits(), "{}", n);
    }
}

#[test]
fn the_kernel_is_asked_for_what_rounds() {
    assert_eq!(parse_number(&kernel, "10"), of(10.0));
    assert_eq!(parse_number(&kernel, "3.25"), of(3.25));
    assert_eq!(format_number(&kernel, of(7.0)), "7");
    assert_eq!(format_number(&kernel, of(2.5)), "2.5");
    assert_eq!(compute(&kernel, NumberOp::Add, of(1.0), of(2.0)), of(3.0));
    assert_eq!(compute(&kernel, NumberOp::Subtract, of(1.0), of(2.0)), of(-1.0));
    assert_eq!(compute(&kernel, NumberOp::Multiply, of(3.0), of(2.0)), of(6.0));
    assert_eq!(compute(&kernel, NumberOp::Divide, of(1.0), of(4.0)), of(0.25));
    assert_eq!(compute(&kernel, NumberOp::Remainder, of(7.0), of(4.0)), of(3.0));
}

#[test]
fn decimals_are_written_without_leading_zeros() {
    assert_eq!(decimal_string(0), "0");
    assert_eq!(decimal_string(7), "7");
    assert_eq!(decimal_string(10), "10");
    assert_eq!(decimal_string(1234567890), "1234567890");
    assert_eq!(decimal_string(u128::MAX), "340282366920938463463374607431768211455");
    let mut out = String::from("n = ");
    push_decimal(&mut out, 42);
    assert_eq!(out, "n = 42");
}

#[test]
fn characters_go_in_and_out_of_strings() {
    let chars = chars_of("héllo");
    assert_eq!(chars, vec!['h', 'é', 'l', 'l', 'o']);
    assert_eq!(string_of(&chars, 1, 4), "éll");
    assert_eq!(string_of(&chars, 2, 2), "");
    let mut out = String::from(">");
    push_chars(&mut out, &chars, 0, 5);
    assert_eq!(out, ">héllo");
}
