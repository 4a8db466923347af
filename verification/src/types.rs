//! The values and metadata every simulator backend hands out.
use vstd::prelude::*;
use crate::text::{append_signed_decimal, digit_char, push_char, signed_decimal};

verus! {

/// A typed telemetry reading: scalars and fixed-length arrays.
///
/// iRacing uses `Char` / `String` / `Text` for different kinds of character
/// data; other sims map their string fields directly to `String` or `Text`.
///
/// Floating-point readings are carried as their IEEE 754 bit patterns
/// (`f32::to_bits` / `f64::to_bits`), so the library can move them around
/// and compare them exactly; `f32::from_bits` gives the number back.
#[derive(Debug, Clone, PartialEq)]
pub enum TelemetryValue {
    /// A single raw byte from a `char`-typed iRacing variable (not a Unicode scalar).
    Char(u8),
    /// A null-terminated CP-1252 string from a fixed-size `char[N]` iRacing buffer,
    /// decoded to UTF-8. Also used for arbitrary string fields in other sims.
    String(String),
    /// Free-form text (e.g. iRacing session YAML snippets, car/track names).
    /// Semantically the same storage as `String` but signals the value is human-readable prose.
    Text(String),
    /// `bool` scalar.
    Bool(bool),
    /// Signed 32-bit integer.
    Int(i32),
    /// Unsigned 32-bit bitmask: use bitwise ops to test individual flags.
    BitField(u32),
    /// 32-bit float (most iRacing channels: speed, RPM, temperatures, ...), as its bits.
    Float(u32),
    /// 64-bit float (high-precision channels), as its bits.
    Double(u64),
    /// Array of `bool` values (e.g. per-wheel ABS active flags).
    BoolArray(Vec<bool>),
    /// Array of `i32` values (e.g. per-car lap counts).
    IntArray(Vec<i32>),
    /// Array of 32-bit floats (e.g. per-tyre temperatures), as their bits.
    FloatArray(Vec<u32>),
    /// Array of 64-bit floats, as their bits.
    DoubleArray(Vec<u64>),
}

impl From<i32> for TelemetryValue {
    fn from(v: i32) -> (r: TelemetryValue) {
        TelemetryValue::Int(v)
    }
}

impl vstd::std_specs::convert::FromSpecImpl<i32> for TelemetryValue {
    open spec fn obeys_from_spec() -> bool {
        true
    }

    open spec fn from_spec(v: i32) -> TelemetryValue {
        TelemetryValue::Int(v)
    }
}

impl From<u32> for TelemetryValue {
    fn from(v: u32) -> (r: TelemetryValue) {
        TelemetryValue::BitField(v)
    }
}

impl vstd::std_specs::convert::FromSpecImpl<u32> for TelemetryValue {
    open spec fn obeys_from_spec() -> bool {
        true
    }

    open spec fn from_spec(v: u32) -> TelemetryValue {
        TelemetryValue::BitField(v)
    }
}

impl From<u8> for TelemetryValue {
    fn from(v: u8) -> (r: TelemetryValue) {
        TelemetryValue::Int(v as i32)
    }
}

impl vstd::std_specs::convert::FromSpecImpl<u8> for TelemetryValue {
    open spec fn obeys_from_spec() -> bool {
        true
    }

    open spec fn from_spec(v: u8) -> TelemetryValue {
        TelemetryValue::Int(v as i32)
    }
}

impl From<i8> for TelemetryValue {
    fn from(v: i8) -> (r: TelemetryValue) {
        TelemetryValue::Int(v as i32)
    }
}

impl vstd::std_specs::convert::FromSpecImpl<i8> for TelemetryValue {
    open spec fn obeys_from_spec() -> bool {
        true
    }

    open spec fn from_spec(v: i8) -> TelemetryValue {
        TelemetryValue::Int(v as i32)
    }
}

impl From<u16> for TelemetryValue {
    fn from(v: u16) -> (r: TelemetryValue) {
        TelemetryValue::Int(v as i32)
    }
}

impl vstd::std_specs::convert::FromSpecImpl<u16> for TelemetryValue {
    open spec fn obeys_from_spec() -> bool {
        true
    }

    open spec fn from_spec(v: u16) -> TelemetryValue {
        TelemetryValue::Int(v as i32)
    }
}

impl From<i16> for TelemetryValue {
    fn from(v: i16) -> (r: TelemetryValue) {
        TelemetryValue::Int(v as i32)
    }
}

impl vstd::std_specs::convert::FromSpecImpl<i16> for TelemetryValue {
    open spec fn obeys_from_spec() -> bool {
        true
    }

    open spec fn from_spec(v: i16) -> TelemetryValue {
        TelemetryValue::Int(v as i32)
    }
}

impl From<bool> for TelemetryValue {
    fn from(v: bool) -> (r: TelemetryValue) {
        TelemetryValue::Bool(v)
    }
}

impl vstd::std_specs::convert::FromSpecImpl<bool> for TelemetryValue {
    open spec fn obeys_from_spec() -> bool {
        true
    }

    open spec fn from_spec(v: bool) -> TelemetryValue {
        TelemetryValue::Bool(v)
    }
}

/// An uppercase hexadecimal digit.
pub open spec fn hex_digit_char(d: int) -> char {
    if d < 10 {
        digit_char(d)
    } else if d == 10 {
        'A'
    } else if d == 11 {
        'B'
    } else if d == 12 {
        'C'
    } else if d == 13 {
        'D'
    } else if d == 14 {
        'E'
    } else {
        'F'
    }
}

/// The last `k` hexadecimal digits of `n`, zero-padded, most significant first.
pub open spec fn hex_digits(n: nat, k: nat) -> Seq<char>
    decreases k,
{
    if k == 0 {
        seq![]
    } else {
        hex_digits(n / 16, (k - 1) as nat).push(hex_digit_char((n % 16) as int))
    }
}

/// `true` or `false`.
pub open spec fn bool_text(b: bool) -> Seq<char> {
    if b {
        "true"@
    } else {
        "false"@
    }
}

/// The items separated by `, `.
pub open spec fn comma_joined(items: Seq<Seq<char>>) -> Seq<char>
    decreases items.len(),
{
    if items.len() == 0 {
        seq![]
    } else if items.len() == 1 {
        items[0]
    } else {
        comma_joined(items.drop_last()) + ", "@ + items.last()
    }
}

/// A list written as `[a, b, c]`, the way `Debug` writes a slice.
pub open spec fn list_text(items: Seq<Seq<char>>) -> Seq<char> {
    "["@ + comma_joined(items) + "]"@
}

/// The display text of a value, for every variant that holds no
/// floating-point number; `None` for the float variants.
pub open spec fn value_text(v: TelemetryValue) -> Option<Seq<char>> {
    match v {
        TelemetryValue::Char(c) => Some(seq!['\'', c as char, '\'']),
        TelemetryValue::String(s) => Some(s@),
        TelemetryValue::Text(s) => Some(s@),
        TelemetryValue::Bool(b) => Some(bool_text(b)),
        TelemetryValue::Int(i) => Some(signed_decimal(i as int)),
        TelemetryValue::BitField(u) => Some("0x"@ + hex_digits(u as nat, 8)),
        TelemetryValue::BoolArray(a) => Some(list_text(a@.map_values(|b: bool| bool_text(b)))),
        TelemetryValue::IntArray(a) => Some(
            list_text(a@.map_values(|i: i32| signed_decimal(i as int))),
        ),
        _ => None,
    }
}

fn hex_digit(d: u32) -> (c: char)
    requires
        d < 16,
    ensures
        c == hex_digit_char(d as int),
{
    match d {
        0 => '0',
        1 => '1',
        2 => '2',
        3 => '3',
        4 => '4',
        5 => '5',
        6 => '6',
        7 => '7',
        8 => '8',
        9 => '9',
        10 => 'A',
        11 => 'B',
        12 => 'C',
        13 => 'D',
        14 => 'E',
        _ => 'F',
    }
}

fn append_hex_digits(s: &mut String, n: u32, k: u32)
    ensures
        final(s)@ == old(s)@ + hex_digits(n as nat, k as nat),
    decreases k,
{
    if k > 0 {
        append_hex_digits(s, n / 16, k - 1);
        push_char(s, hex_digit(n % 16));
    }
}

fn append_bool(s: &mut String, b: bool)
    ensures
        final(s)@ == old(s)@ + bool_text(b),
{
    if b {
        s.append("true");
    } else {
        s.append("false");
    }
}

fn bool_list(a: &Vec<bool>) -> (r: String)
    ensures
        r@ == list_text(a@.map_values(|b: bool| bool_text(b))),
{
    let ghost items = a@.map_values(|b: bool| bool_text(b));
    let mut s = String::from_str("[");
    let mut i: usize = 0;
    while i < a.len()
        invariant
            i <= a.len(),
            items == a@.map_values(|b: bool| bool_text(b)),
            s@ == "["@ + comma_joined(items.take(i as int)),
        decreases a.len() - i,
    {
        if i > 0 {
            s.append(", ");
        }
        append_bool(&mut s, a[i]);
        proof {
            let t = items.take(i as int + 1);
            assert(t.drop_last() =~= items.take(i as int));
            assert(t.last() == items[i as int]);
            if i == 0 {
                assert(items.take(0) =~= Seq::<Seq<char>>::empty());
            }
            assert(s@ =~= "["@ + comma_joined(t));
        }
        i = i + 1;
    }
    s.append("]");
    assert(items.take(a.len() as int) =~= items);
    s
}

fn int_list(a: &Vec<i32>) -> (r: String)
    ensures
        r@ == list_text(a@.map_values(|i: i32| signed_decimal(i as int))),
{
    let ghost items = a@.map_values(|i: i32| signed_decimal(i as int));
    let mut s = String::from_str("[");
    let mut i: usize = 0;
    while i < a.len()
        invariant
            i <= a.len(),
            items == a@.map_values(|i: i32| signed_decimal(i as int)),
            s@ == "["@ + comma_joined(items.take(i as int)),
        decreases a.len() - i,
    {
        if i > 0 {
            s.append(", ");
        }
        append_signed_decimal(&mut s, a[i]);
        proof {
            let t = items.take(i as int + 1);
            assert(t.drop_last() =~= items.take(i as int));
            assert(t.last() == items[i as int]);
            if i == 0 {
                assert(items.take(0) =~= Seq::<Seq<char>>::empty());
            }
            assert(s@ =~= "["@ + comma_joined(t));
        }
        i = i + 1;
    }
    s.append("]");
    assert(items.take(a.len() as int) =~= items);
    s
}

impl TelemetryValue {
    /// The value as text, the way it is displayed (see [`value_text`]):
    /// `None` for the float variants, whose decimal rendering is not this
    /// crate's to compute.
    pub fn display_text(&self) -> (r: Option<String>)
        ensures
            match value_text(*self) {
                Some(t) => r is Some && r->0@ == t,
                None => r is None,
            },
    {
        match self {
            TelemetryValue::Char(c) => {
                let mut s = String::new();
                push_char(&mut s, '\'');
                push_char(&mut s, *c as char);
                push_char(&mut s, '\'');
                Some(s)
            },
            TelemetryValue::String(t) => Some(t.clone()),
            TelemetryValue::Text(t) => Some(t.clone()),
            TelemetryValue::Bool(b) => {
                let mut s = String::new();
                append_bool(&mut s, *b);
                Some(s)
            },
            TelemetryValue::Int(i) => {
                let mut s = String::new();
                append_signed_decimal(&mut s, *i);
                Some(s)
            },
            TelemetryValue::BitField(u) => {
                let mut s = String::from_str("0x");
                append_hex_digits(&mut s, *u, 8);
                Some(s)
            },
            TelemetryValue::BoolArray(a) => Some(bool_list(a)),
            TelemetryValue::IntArray(a) => Some(int_list(a)),
            _ => None,
        }
    }
}

/// Metadata for a single telemetry variable.
#[derive(Debug, Clone)]
pub struct VarMeta {
    /// Sim-native variable name (e.g. `"Speed"`, `"RPM"`).
    pub name: String,
    /// Type name as a string: `"float"`, `"int"`, `"bool"`, `"bitfield"`, `"double"`, `"char"`.
    pub type_str: &'static str,
    /// Physical unit string from the sim (e.g. `"m/s"`, `"rpm"`, `""` if dimensionless).
    pub unit: String,
    /// Human-readable description from the sim (e.g. `"Lap distance percentage"`).
    pub desc: String,
    /// Number of elements: `1` for scalars, `>1` for fixed-length arrays (e.g. `4` for per-tyre data).
    pub count: u32,
}

/// A [`VarMeta`] as plain values.
pub struct VarMetaView {
    pub name: Seq<char>,
    pub type_str: Seq<char>,
    pub unit: Seq<char>,
    pub desc: Seq<char>,
    pub count: u32,
}

impl View for VarMeta {
    type V = VarMetaView;

    open spec fn view(&self) -> VarMetaView {
        VarMetaView {
            name: self.name@,
            type_str: self.type_str@,
            unit: self.unit@,
            desc: self.desc@,
            count: self.count,
        }
    }
}

} // verus!
