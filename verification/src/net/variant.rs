//! The values that the store holds.

use vstd::prelude::*;
use crate::net::text::{bool_text, int_text, render_bool, render_i32};

verus! {

broadcast use vstd::layout::layout_of_primitives;

/// What a [`Variant`] holds, as a mathematical value.
pub enum Value {
    Int(i32),
    /// A single-precision number, by its IEEE 754 bit pattern.
    Float(u32),
    Bool(bool),
    String(Seq<char>),
}

/// The bit pattern without its sign bit.
pub open spec fn float_magnitude(bits: u32) -> int {
    bits as int % 0x8000_0000
}

/// The bit pattern is not a number: all exponent bits set and a mantissa that is not zero.
pub open spec fn float_is_nan(bits: u32) -> bool {
    float_magnitude(bits) > 0x7f80_0000
}

/// Two bit patterns stand for equal numbers: neither is a NaN, and they are the
/// same pattern or the two zeros.
pub open spec fn float_equal(a: u32, b: u32) -> bool {
    &&& !float_is_nan(a)
    &&& !float_is_nan(b)
    &&& (a == b || (float_magnitude(a) == 0 && float_magnitude(b) == 0))
}

/// Two values are equal: the same kind, and equal payloads. Numbers of the
/// float kind compare as numbers, so a NaN equals nothing and the two zeros
/// are equal.
pub open spec fn value_equal(a: Value, b: Value) -> bool {
    match (a, b) {
        (Value::Int(x), Value::Int(y)) => x == y,
        (Value::Float(x), Value::Float(y)) => float_equal(x, y),
        (Value::Bool(x), Value::Bool(y)) => x == y,
        (Value::String(x), Value::String(y)) => x == y,
        _ => false,
    }
}

/// The one-character tag of a value's kind on the wire.
pub open spec fn kind_of(v: Value) -> char {
    match v {
        Value::Int(_) => 'i',
        Value::Float(_) => 'f',
        Value::Bool(_) => 'b',
        Value::String(_) => 's',
    }
}

/// The number of bytes that a value's payload takes in memory.
pub open spec fn size_of_value(v: Value) -> nat {
    match v {
        Value::Int(_) => 4,
        Value::Float(_) => 4,
        Value::Bool(_) => 1,
        Value::String(_) => vstd::layout::size_of::<String>(),
    }
}

/// The text that a value travels as. A float has none here: its text is the
/// host's rendering of the number.
pub open spec fn value_text(v: Value) -> Option<Seq<char>> {
    match v {
        Value::Int(i) => Some(int_text(i as int)),
        Value::Float(_) => None,
        Value::Bool(b) => Some(bool_text(b)),
        Value::String(s) => Some(s),
    }
}

/// Whether two float bit patterns stand for equal numbers.
pub fn float_bits_equal(a: u32, b: u32) -> (r: bool)
    ensures
        r == float_equal(a, b),
{
    let ma: u32 = a % 0x8000_0000;
    let mb: u32 = b % 0x8000_0000;
    ma <= 0x7f80_0000 && mb <= 0x7f80_0000 && (a == b || (ma == 0 && mb == 0))
}

/// One value of a small fixed set of kinds. A float is held by its IEEE 754
/// single-precision bit pattern.
#[derive(Debug)]
pub enum Variant {
    Int(i32),
    Float(u32),
    Bool(bool),
    String(String),
}

impl View for Variant {
    type V = Value;

    open spec fn view(&self) -> Value {
        match self {
            Variant::Int(i) => Value::Int(*i),
            Variant::Float(bits) => Value::Float(*bits),
            Variant::Bool(b) => Value::Bool(*b),
            Variant::String(s) => Value::String(s@),
        }
    }
}

impl Variant {
    /// The number of bytes that the payload takes in memory. For a string this
    /// is the size of the string's handle, not of its text.
    pub fn size(&self) -> (n: usize)
        ensures
            n == size_of_value(self@),
    {
        match self {
            Variant::Int(_) => core::mem::size_of::<i32>(),
            Variant::Float(_) => core::mem::size_of::<u32>(),
            Variant::Bool(_) => core::mem::size_of::<bool>(),
            Variant::String(_) => core::mem::size_of::<String>(),
        }
    }

    /// The one-character tag of the kind: `i`, `f`, `b` or `s`.
    pub fn kind(&self) -> (k: &'static str)
        ensures
            k@ == seq![kind_of(self@)],
    {
        proof {
            reveal_strlit("i");
            reveal_strlit("f");
            reveal_strlit("b");
            reveal_strlit("s");
        }
        let k = match self {
            Variant::Int(_) => "i",
            Variant::Float(_) => "f",
            Variant::Bool(_) => "b",
            Variant::String(_) => "s",
        };
        proof {
            assert(k@ =~= seq![kind_of(self@)]);
        }
        k
    }
}

impl Variant {
    /// The payload as text: a number in decimal, `true` or `false`, a string
    /// as it is. `None` for a float, whose text only the host can give.
    pub fn to_text(&self) -> (r: Option<String>)
        ensures
            match r {
                Some(s) => value_text(self@) == Some(s@),
                None => value_text(self@) is None,
            },
    {
        match self {
            Variant::Int(i) => Some(render_i32(*i)),
            Variant::Float(_) => None,
            Variant::Bool(b) => Some(render_bool(*b)),
            Variant::String(s) => Some(s.clone()),
        }
    }
}

impl Clone for Variant {
    fn clone(&self) -> (r: Self)
        ensures
            r@ == self@,
    {
        match self {
            Variant::Int(i) => Variant::Int(*i),
            Variant::Float(bits) => Variant::Float(*bits),
            Variant::Bool(b) => Variant::Bool(*b),
            Variant::String(s) => Variant::String(s.clone()),
        }
    }
}

impl PartialEq for Variant {
    fn eq(&self, other: &Self) -> (r: bool) {
        match (self, other) {
            (Variant::Int(a), Variant::Int(b)) => *a == *b,
            (Variant::Float(a), Variant::Float(b)) => float_bits_equal(*a, *b),
            (Variant::Bool(a), Variant::Bool(b)) => *a == *b,
            (Variant::String(a), Variant::String(b)) => *a == *b,
            _ => false,
        }
    }
}

impl vstd::std_specs::cmp::PartialEqSpecImpl for Variant {
    open spec fn obeys_eq_spec() -> bool {
        true
    }

    open spec fn eq_spec(&self, other: &Self) -> bool {
        value_equal(self@, other@)
    }
}

impl From<i32> for Variant {
    fn from(v: i32) -> (r: Self) {
        Variant::Int(v)
    }
}

impl vstd::std_specs::convert::FromSpecImpl<i32> for Variant {
    open spec fn obeys_from_spec() -> bool {
        true
    }

    open spec fn from_spec(v: i32) -> Self {
        Variant::Int(v)
    }
}

impl From<bool> for Variant {
    fn from(v: bool) -> (r: Self) {
        Variant::Bool(v)
    }
}

impl vstd::std_specs::convert::FromSpecImpl<bool> for Variant {
    open spec fn obeys_from_spec() -> bool {
        true
    }

    open spec fn from_spec(v: bool) -> Self {
        Variant::Bool(v)
    }
}

impl From<String> for Variant {
    fn from(v: String) -> (r: Self) {
        Variant::String(v)
    }
}

impl vstd::std_specs::convert::FromSpecImpl<String> for Variant {
    open spec fn obeys_from_spec() -> bool {
        true
    }

    open spec fn from_spec(v: String) -> Self {
        Variant::String(v)
    }
}

} // verus!
