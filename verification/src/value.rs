//! The dynamically typed value space of a request and the tagged scalar
//! representation handed to the invocation target, with the marshaling rules
//! between the two.

use vstd::arithmetic::div_mod::{
    lemma_fundamental_div_mod, lemma_mod_add_multiples_vanish, lemma_mod_multiples_vanish,
    lemma_small_mod,
};
use vstd::prelude::*;

verus! {

/// A dynamically typed value decoded from the request document.
///
/// Numbers are split the way the decoder classifies them: `Integer` holds a
/// number that is integral and representable in a signed 64-bit value,
/// `Float` holds the decimal text of a number that has a fractional
/// component, and `BigNumber` holds the decimal text of a number that fits
/// neither form. Carrying the text keeps the value exact while the bridge
/// itself never computes with it; the adapter that talks to the host turns
/// the text into the host's floating-point slot.
#[derive(Debug, PartialEq)]
pub enum DynamicValue {
    Text(String),
    Integer(i64),
    Float(String),
    BigNumber(String),
    Boolean(bool),
    Null,
    Array(Vec<DynamicValue>),
    Object(Vec<(String, DynamicValue)>),
}

/// The tagged scalar representation handed to the invocation target.
///
/// `Empty` is the explicit "no value" kind: the marshaling rules degrade
/// every value without a defined scalar form to it rather than failing.
/// `FloatText` carries the decimal text of the number.
#[derive(Debug, Clone, PartialEq)]
pub enum MarshaledValue {
    Text(String),
    Int32(i32),
    FloatText(String),
    Boolean(bool),
    Empty,
}

/// The value of `i` reduced to the range of a signed 32-bit integer the way
/// a two's-complement narrowing conversion reduces it.
pub open spec fn wrap_i32(i: int) -> int {
    let m = i % 0x1_0000_0000;
    if m >= 0x8000_0000 {
        m - 0x1_0000_0000
    } else {
        m
    }
}

/// Narrowing keeps every value that already lies in the 32-bit range.
pub proof fn lemma_wrap_i32_in_range(i: int)
    requires
        -0x8000_0000 <= i < 0x8000_0000,
    ensures
        wrap_i32(i) == i,
{
    if i >= 0 {
        lemma_small_mod(i as nat, 0x1_0000_0000 as nat);
    } else {
        lemma_mod_add_multiples_vanish(i, 0x1_0000_0000);
        lemma_small_mod((i + 0x1_0000_0000) as nat, 0x1_0000_0000 as nat);
    }
}

/// The explicitly lossy narrowing of a 64-bit integer to the 32-bit slot the
/// target accepts.
pub fn narrow_to_i32(i: i64) -> (r: i32)
    ensures
        r as int == wrap_i32(i as int),
{
    let m: u64 = if i >= 0 {
        (i as u64) % 0x1_0000_0000
    } else {
        let neg: i64 = -(i + 1);
        let nu: u64 = (neg as u64) + 1;
        let rem: u64 = nu % 0x1_0000_0000;
        proof {
            lemma_fundamental_div_mod(nu as int, 0x1_0000_0000);
            lemma_mod_multiples_vanish(-((nu as int) / 0x1_0000_0000), -(rem as int), 0x1_0000_0000);
            if rem == 0 {
                lemma_small_mod(0nat, 0x1_0000_0000 as nat);
            } else {
                lemma_mod_add_multiples_vanish(-(rem as int), 0x1_0000_0000);
                lemma_small_mod((0x1_0000_0000 - rem) as nat, 0x1_0000_0000 as nat);
            }
        }
        if rem == 0 {
            0
        } else {
            0x1_0000_0000 - rem
        }
    };
    if m >= 0x8000_0000 {
        ((m as i64) - 0x1_0000_0000) as i32
    } else {
        m as i32
    }
}

/// The marshaling rules: strings, booleans and in-range pieces of numbers
/// keep their kind; an integer is narrowed to 32 bits; everything without a
/// defined scalar form degrades to `Empty`.
pub open spec fn spec_marshal(v: DynamicValue) -> MarshaledValue {
    match v {
        DynamicValue::Text(s) => MarshaledValue::Text(s),
        DynamicValue::Integer(i) => MarshaledValue::Int32(wrap_i32(i as int) as i32),
        DynamicValue::Float(t) => MarshaledValue::FloatText(t),
        DynamicValue::Boolean(b) => MarshaledValue::Boolean(b),
        DynamicValue::BigNumber(_) => MarshaledValue::Empty,
        DynamicValue::Null => MarshaledValue::Empty,
        DynamicValue::Array(_) => MarshaledValue::Empty,
        DynamicValue::Object(_) => MarshaledValue::Empty,
    }
}

/// The kinds that have no defined scalar form and therefore marshal to
/// `Empty` with a diagnostic.
pub open spec fn marshal_unsupported(v: DynamicValue) -> bool {
    match v {
        DynamicValue::BigNumber(_) => true,
        DynamicValue::Null => true,
        DynamicValue::Array(_) => true,
        DynamicValue::Object(_) => true,
        _ => false,
    }
}

/// Converts one property value into the tagged scalar form the target
/// accepts. Total: a value without a defined scalar form becomes `Empty`
/// rather than an error.
pub fn marshal(v: &DynamicValue) -> (r: MarshaledValue)
    ensures
        r == spec_marshal(*v),
{
    match v {
        DynamicValue::Text(s) => MarshaledValue::Text(s.clone()),
        DynamicValue::Integer(i) => MarshaledValue::Int32(narrow_to_i32(*i)),
        DynamicValue::Float(t) => MarshaledValue::FloatText(t.clone()),
        DynamicValue::Boolean(b) => MarshaledValue::Boolean(*b),
        DynamicValue::BigNumber(_) => MarshaledValue::Empty,
        DynamicValue::Null => MarshaledValue::Empty,
        DynamicValue::Array(_) => MarshaledValue::Empty,
        DynamicValue::Object(_) => MarshaledValue::Empty,
    }
}

/// Relies on `<[&str]>::concat` joining the two pieces in order.
#[verifier::external_body]
fn str_concat(a: &str, b: &str) -> (r: String)
    ensures
        r@ == a@ + b@,
{
    [a, b].concat()
}

/// What the diagnostic for one value must be: present exactly for the
/// kinds without a defined scalar form, with a fixed message per kind —
/// and for an unsupported number, a message that names the number.
pub open spec fn warning_matches(v: DynamicValue, r: Option<String>) -> bool {
    &&& (r is Some <==> marshal_unsupported(v))
    &&& (v matches DynamicValue::BigNumber(t) ==> (r matches Some(s)
        && s@ == "unsupported number, no scalar form; passing an empty value: "@ + t@))
    &&& (v is Null ==> (r matches Some(s)
        && s@ == "null has no scalar form; passing an empty value"@))
    &&& (v is Array ==> (r matches Some(s)
        && s@ == "an array has no single scalar form; passing an empty value"@))
    &&& (v is Object ==> (r matches Some(s)
        && s@ == "an object has no single scalar form; passing an empty value"@))
}

/// The diagnostic that accompanies marshaling, for the operator-visible
/// error channel: exactly the kinds without a defined scalar form produce
/// one, each kind with its own message, the unsupported number's naming
/// the offending value.
pub fn marshal_warning(v: &DynamicValue) -> (r: Option<String>)
    ensures
        warning_matches(*v, r),
{
    match v {
        DynamicValue::BigNumber(t) => Some(
            str_concat(
                "unsupported number, no scalar form; passing an empty value: ",
                t.as_str(),
            ),
        ),
        DynamicValue::Null => Some("null has no scalar form; passing an empty value".to_owned()),
        DynamicValue::Array(_) => Some(
            "an array has no single scalar form; passing an empty value".to_owned(),
        ),
        DynamicValue::Object(_) => Some(
            "an object has no single scalar form; passing an empty value".to_owned(),
        ),
        _ => None,
    }
}

/// Values of the kinds without a defined scalar form are never forwarded:
/// they always marshal to the explicit `Empty` kind, and they are exactly
/// the values that carry a diagnostic.
pub proof fn lemma_unsupported_marshals_empty(v: DynamicValue)
    requires
        v is Null || v is Array || v is Object || v is BigNumber,
    ensures
        spec_marshal(v) == MarshaledValue::Empty,
        marshal_unsupported(v),
{
}

/// The character for one decimal digit.
pub open spec fn digit_char(d: int) -> char {
    ((0x30 + d) as u8) as char
}

/// The decimal digits of a non-negative number, most significant first;
/// empty for zero.
pub open spec fn digit_seq(n: int) -> Seq<char>
    decreases n,
{
    if n <= 0 {
        Seq::empty()
    } else {
        digit_seq(n / 10).push(digit_char(n % 10))
    }
}

/// The decimal text of an integer.
pub open spec fn dec_str(i: int) -> Seq<char> {
    if i == 0 {
        seq!['0']
    } else if i < 0 {
        seq!['-'] + digit_seq(-i)
    } else {
        digit_seq(i)
    }
}

/// Relies on `core::iter::Iterator::collect` building a `String` from its
/// characters in order.
#[verifier::external_body]
fn chars_to_string(cs: &Vec<char>) -> (r: String)
    ensures
        r@ == cs@,
{
    cs.iter().collect()
}

/// The decimal text of a signed 32-bit value.
pub fn i32_to_decimal(i: i32) -> (r: String)
    ensures
        r@ == dec_str(i as int),
{
    let neg = i < 0;
    let mag: u32 = if i < 0 {
        ((-(i + 1)) as u32) + 1
    } else {
        i as u32
    };
    assert(mag as int == if i < 0 { -(i as int) } else { i as int });
    let mut digits: Vec<char> = Vec::new();
    if mag == 0 {
        digits.push('0');
    } else {
        let mut n: u32 = mag;
        while n > 0
            invariant
                n <= mag,
                digit_seq(mag as int) =~= digit_seq(n as int) + digits@,
            decreases n,
        {
            let d: u8 = (n % 10) as u8;
            let c: char = (0x30 + d) as char;
            let ghost pre = digits@;
            digits.insert(0, c);
            proof {
                assert(c == digit_char(n as int % 10));
                assert(digits@ =~= seq![c] + pre);
                assert(digit_seq(n as int / 10) + (seq![c] + pre) =~= digit_seq(n as int / 10).push(
                    c,
                ) + pre);
                assert(digit_seq(n as int) =~= digit_seq(n as int / 10).push(c));
            }
            n = n / 10;
        }
        assert(digit_seq(mag as int) =~= digits@);
    }
    if neg {
        digits.insert(0, '-');
    }
    chars_to_string(&digits)
}

/// The status text for one returned scalar: strings and float text pass
/// through, a 32-bit integer prints in decimal, a boolean prints as `true`
/// or `false`, and the empty kind prints as the empty string. Every kind
/// has a text form, so the conversion is total.
pub open spec fn spec_unmarshal(m: MarshaledValue) -> Seq<char> {
    match m {
        MarshaledValue::Text(s) => s@,
        MarshaledValue::Int32(i) => dec_str(i as int),
        MarshaledValue::FloatText(t) => t@,
        MarshaledValue::Boolean(b) => if b {
            "true"@
        } else {
            "false"@
        },
        MarshaledValue::Empty => Seq::empty(),
    }
}

/// Converts whatever scalar the target returned into a human-readable
/// string for the status read.
pub fn unmarshal(m: &MarshaledValue) -> (r: String)
    ensures
        r@ == spec_unmarshal(*m),
{
    match m {
        MarshaledValue::Text(s) => s.clone(),
        MarshaledValue::Int32(i) => i32_to_decimal(*i),
        MarshaledValue::FloatText(t) => t.clone(),
        MarshaledValue::Boolean(b) => if *b {
            "true".to_owned()
        } else {
            "false".to_owned()
        },
        MarshaledValue::Empty => String::new(),
    }
}

/// An integer that fits the 32-bit slot survives marshaling and the status
/// read unchanged: unmarshaling its marshaled form gives exactly its decimal
/// text.
pub proof fn lemma_int32_round_trip(i: i64)
    requires
        -0x8000_0000 <= i < 0x8000_0000,
    ensures
        spec_unmarshal(spec_marshal(DynamicValue::Integer(i))) == dec_str(i as int),
{
    lemma_wrap_i32_in_range(i as int);
}

} // verus!
