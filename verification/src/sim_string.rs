//! Fixed-length strings as the sims lay them out in shared memory.
use vstd::prelude::*;
use crate::text::{push_char, str_equal};
use crate::utils::{c_str_text, parse_c_str};

verus! {

/// Fixed-length ASCII/CP-1252 string read from simulator shared memory.
///
/// Stores the bytes inline; the text is the bytes before the first NUL,
/// decoded as cp1252. Used for byte-string fields in LMU and iRacing
/// shared-memory layouts.
#[derive(Debug, Clone, Copy)]
pub struct SimString<const N: usize>(pub [u8; N]);

impl<const N: usize> SimString<N> {
    /// Wrap a fixed-size byte array from shared memory (by reference).
    pub fn from_bytes(src: &[u8; N]) -> (r: SimString<N>)
        ensures
            r.0 == *src,
    {
        SimString(*src)
    }

    /// Wrap a fixed-size byte array passed by value.
    ///
    /// Used when copying fields out of packed structs to avoid taking an
    /// unaligned reference.
    pub fn from_u8_array(src: [u8; N]) -> (r: SimString<N>)
        ensures
            r.0 == src,
    {
        SimString(src)
    }

    /// The text the string holds: its bytes before the first NUL, decoded as cp1252.
    pub open spec fn text(&self) -> Seq<char> {
        c_str_text(self.0@)
    }

    /// Decode to an owned `String` (CP-1252, truncated at the first NUL byte).
    pub fn to_string_lossy(&self) -> (r: String)
        ensures
            r@ == self.text(),
    {
        parse_c_str(self.0.as_slice())
    }
}

/// Wraps a fixed-size byte array from a shared-memory record as a [`SimString`].
pub fn to_str<const N: usize>(bytes: [u8; N]) -> (r: SimString<N>)
    ensures
        r == SimString(bytes),
{
    SimString::from_u8_array(bytes)
}

impl<'a, const N: usize> PartialEq<&'a str> for SimString<N> {
    fn eq(&self, other: &&'a str) -> (r: bool) {
        let s = self.to_string_lossy();
        str_equal(s.as_str(), *other)
    }
}

impl<'a, const N: usize> vstd::std_specs::cmp::PartialEqSpecImpl<&'a str> for SimString<N> {
    open spec fn obeys_eq_spec() -> bool {
        true
    }

    open spec fn eq_spec(&self, other: &&'a str) -> bool {
        self.text() == (*other)@
    }
}

impl<const N: usize> Default for SimString<N> {
    fn default() -> (r: SimString<N>)
        ensures
            forall|i: int| 0 <= i < N ==> r.0@[i] == 0,
    {
        SimString(vstd::array::array_fill_for_copy_types(0u8))
    }
}

// ---------------------------------------------------------------------------
/// Whether `u` is a UTF-16 surrogate code unit.
pub open spec fn is_surrogate(u: u16) -> bool {
    0xD800 <= u <= 0xDFFF
}

/// The code point a surrogate pair stands for.
pub open spec fn pair_code_point(hi: u16, lo: u16) -> int {
    0x10000 + (hi - 0xD800) * 0x400 + (lo - 0xDC00)
}

/// UTF-16 decoding with every unpaired surrogate replaced by U+FFFD: a unit
/// outside the surrogate range is its own character, a high surrogate
/// followed by a low one is the pair's character, and any other surrogate
/// (the unit after it is then decoded on its own) is U+FFFD.
pub open spec fn utf16_lossy(units: Seq<u16>) -> Seq<char>
    decreases units.len(),
{
    if units.len() == 0 {
        seq![]
    } else if !is_surrogate(units[0]) {
        seq![units[0] as char] + utf16_lossy(units.skip(1))
    } else if units[0] <= 0xDBFF && units.len() >= 2 && 0xDC00 <= units[1] <= 0xDFFF {
        seq![pair_code_point(units[0], units[1]) as char] + utf16_lossy(units.skip(2))
    } else {
        seq!['\u{FFFD}'] + utf16_lossy(units.skip(1))
    }
}

/// `char::from_u32`: the character with code point `v`, if `v` is a Unicode
/// scalar value (below 0x110000 and outside the surrogate range).
#[verifier::external_body]
fn char_from_u32(v: u32) -> (r: Option<char>)
    ensures
        (v < 0xD800 || (0xE000 <= v < 0x110000)) ==> r == Some(v as char),
{
    char::from_u32(v)
}

/// How many code units come before the first NUL (all of them if there is none).
pub open spec fn units_len(units: Seq<u16>) -> int
    decreases units.len(),
{
    if units.len() == 0 {
        0
    } else if units_len(units.drop_last()) < units.len() - 1 {
        units_len(units.drop_last())
    } else if units.last() == 0 {
        units.len() - 1
    } else {
        units.len() as int
    }
}

proof fn lemma_units_len_prefix(units: Seq<u16>, n: int)
    requires
        0 <= n <= units.len(),
        units_len(units.take(n)) < n,
    ensures
        units_len(units) == units_len(units.take(n)),
    decreases units.len() - n,
{
    if n < units.len() {
        assert(units.take(n + 1).drop_last() =~= units.take(n));
        lemma_units_len_prefix(units, n + 1);
    } else {
        assert(units.take(n) =~= units);
    }
}

fn units_end(units: &[u16]) -> (n: usize)
    ensures
        n == units_len(units@),
        n <= units.len(),
{
    let mut i: usize = 0;
    while i < units.len()
        invariant
            i <= units.len(),
            units_len(units@.take(i as int)) == i,
        decreases units.len() - i,
    {
        proof {
            assert(units@.take(i + 1).drop_last() =~= units@.take(i as int));
        }
        if units[i] == 0 {
            proof {
                lemma_units_len_prefix(units@, i as int + 1);
            }
            return i;
        }
        i = i + 1;
    }
    proof {
        assert(units@.take(units.len() as int) =~= units@);
    }
    i
}

/// Decodes `units[..n]` as UTF-16, replacing unpaired surrogates.
fn decode_utf16_lossy(units: &[u16], n: usize) -> (r: String)
    requires
        n <= units.len(),
    ensures
        r@ == utf16_lossy(units@.take(n as int)),
{
    let ghost all = units@.take(n as int);
    let mut out = String::new();
    let mut i: usize = 0;
    proof {
        assert(all.skip(0) =~= all);
    }
    while i < n
        invariant
            i <= n <= units.len(),
            all == units@.take(n as int),
            out@ + utf16_lossy(all.skip(i as int)) == utf16_lossy(all),
        decreases n - i,
    {
        let u = units[i];
        let ghost rest = all.skip(i as int);
        proof {
            assert(rest[0] == u);
        }
        if u < 0xD800 || u > 0xDFFF {
            let c = char_from_u32(u as u32).unwrap();
            push_char(&mut out, c);
            proof {
                assert(rest.skip(1) =~= all.skip(i + 1));
                assert(out@ + utf16_lossy(all.skip(i + 1)) =~= utf16_lossy(all));
            }
            i = i + 1;
        } else if u <= 0xDBFF && i + 1 < n && 0xDC00 <= units[i + 1] && units[i + 1] <= 0xDFFF {
            let lo = units[i + 1];
            let cp: u32 = 0x10000 + ((u as u32) - 0xD800) * 0x400 + ((lo as u32) - 0xDC00);
            let c = char_from_u32(cp).unwrap();
            push_char(&mut out, c);
            proof {
                assert(rest[1] == lo);
                assert(rest.skip(2) =~= all.skip(i + 2));
                assert(out@ + utf16_lossy(all.skip(i + 2)) =~= utf16_lossy(all));
            }
            i = i + 2;
        } else {
            push_char(&mut out, '\u{FFFD}');
            proof {
                assert(rest.skip(1) =~= all.skip(i + 1));
                assert(out@ + utf16_lossy(all.skip(i + 1)) =~= utf16_lossy(all));
            }
            i = i + 1;
        }
    }
    proof {
        assert(all.skip(n as int) =~= Seq::<u16>::empty());
        assert(out@ + utf16_lossy(all.skip(n as int)) =~= out@);
    }
    out
}

/// Fixed-length UTF-16 LE string read from simulator shared memory.
///
/// Stores the code units inline; the text is the units before the first
/// NUL, decoded with unpaired surrogates replaced. Used for string fields in
/// Assetto Corsa and AC Evo shared-memory pages.
#[derive(Debug, Clone, Copy)]
pub struct SimStringU16<const N: usize>(pub [u16; N]);

impl<const N: usize> SimStringU16<N> {
    /// Wrap a fixed-size UTF-16 array from shared memory (by reference).
    pub fn from_u16(src: &[u16; N]) -> (r: SimStringU16<N>)
        ensures
            r.0 == *src,
    {
        SimStringU16(*src)
    }

    /// Wrap a fixed-size UTF-16 array passed by value.
    ///
    /// Used when copying fields out of packed structs to avoid taking an
    /// unaligned reference.
    pub fn from_u16_array(src: [u16; N]) -> (r: SimStringU16<N>)
        ensures
            r.0 == src,
    {
        SimStringU16(src)
    }

    /// The text the string holds: its units before the first NUL, decoded.
    pub open spec fn text(&self) -> Seq<char> {
        utf16_lossy(self.0@.take(units_len(self.0@)))
    }

    /// Decode to an owned `String` (UTF-16 LE, truncated at the first NUL code unit).
    pub fn to_string_lossy(&self) -> (r: String)
        ensures
            r@ == self.text(),
    {
        let units = self.0.as_slice();
        let n = units_end(units);
        decode_utf16_lossy(units, n)
    }
}

impl<'a, const N: usize> PartialEq<&'a str> for SimStringU16<N> {
    fn eq(&self, other: &&'a str) -> (r: bool) {
        let s = self.to_string_lossy();
        str_equal(s.as_str(), *other)
    }
}

impl<'a, const N: usize> vstd::std_specs::cmp::PartialEqSpecImpl<&'a str> for SimStringU16<N> {
    open spec fn obeys_eq_spec() -> bool {
        true
    }

    open spec fn eq_spec(&self, other: &&'a str) -> bool {
        self.text() == (*other)@
    }
}

impl<const N: usize> Default for SimStringU16<N> {
    fn default() -> (r: SimStringU16<N>)
        ensures
            forall|i: int| 0 <= i < N ==> r.0@[i] == 0,
    {
        SimStringU16(vstd::array::array_fill_for_copy_types(0u16))
    }
}

/// The UTF-16 code units of one character: itself below U+10000, a
/// surrogate pair above.
pub open spec fn utf16_units(c: char) -> Seq<u16> {
    let v = (c as u32) as int;
    if v < 0x10000 {
        seq![v as u16]
    } else {
        seq![(0xD800 + (v - 0x10000) / 0x400) as u16, (0xDC00 + (v - 0x10000) % 0x400) as u16]
    }
}

/// The UTF-16 encoding of a text.
pub open spec fn utf16_encode(s: Seq<char>) -> Seq<u16>
    decreases s.len(),
{
    if s.len() == 0 {
        seq![]
    } else {
        utf16_units(s[0]) + utf16_encode(s.skip(1))
    }
}

/// Decoding gives back any text written as UTF-16: nothing is replaced,
/// supplementary characters included.
pub proof fn lemma_utf16_round_trip(s: Seq<char>)
    ensures
        utf16_lossy(utf16_encode(s)) == s,
    decreases s.len(),
{
    if s.len() > 0 {
        let c = s[0];
        let v = (c as u32) as int;
        vstd::utf8::char_is_scalar(c);
        vstd::utf8::char_u32_cast(c, c as u32);
        let u = utf16_units(c);
        let rest = utf16_encode(s.skip(1));
        let e = utf16_encode(s);
        assert(e == u + rest);
        lemma_utf16_round_trip(s.skip(1));
        if v < 0x10000 {
            assert(0 <= v);
            assert(v < 0xD800 || v >= 0xE000);
            assert(e[0] == v as u16);
            assert((v as u16) as int == v);
            assert(!is_surrogate(e[0]));
            assert(e.skip(1) =~= rest);
            assert((e[0] as char) == c);
        } else {
            let d = v - 0x10000;
            assert(0 <= d <= 0xFFFFF);
            let hi = 0xD800 + d / 0x400;
            let lo = 0xDC00 + d % 0x400;
            assert(0 <= d / 0x400 <= 0x3FF && 0 <= d % 0x400 < 0x400 && d == (d / 0x400) * 0x400 + d
                % 0x400) by (nonlinear_arith)
                requires
                    0 <= d <= 0xFFFFF,
            ;
            assert(e[0] == hi as u16);
            assert(e[1] == lo as u16);
            assert((hi as u16) as int == hi);
            assert((lo as u16) as int == lo);
            assert(pair_code_point(e[0], e[1]) == v);
            assert(e.skip(2) =~= rest);
            assert((pair_code_point(e[0], e[1]) as char) == c);
        }
        assert(seq![c] + s.skip(1) =~= s);
    }
}

} // verus!
