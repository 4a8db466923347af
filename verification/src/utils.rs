//! Decoding the single-byte text the sims write into shared memory.
use vstd::prelude::*;
use crate::sorting::{sort_by_name, stably_sorted_by_name, views, Named};
use crate::text::{append_decimal, chars_of, decimal, push_char};
use crate::types::{TelemetryValue, VarMeta, VarMetaView};

verus! {

/// The text `encoding_rs` decodes from `bytes` read as windows-1252 (with its
/// BOM sniffing: a leading UTF-8 or UTF-16 byte order mark switches the
/// decoder to that encoding).
pub uninterp spec fn windows_1252_decode(bytes: Seq<u8>) -> Seq<char>;

/// Whether `bytes` opens with a byte order mark the decoder sniffs: UTF-8
/// (`EF BB BF`), UTF-16LE (`FF FE`) or UTF-16BE (`FE FF`).
pub open spec fn has_bom(bytes: Seq<u8>) -> bool {
    ||| (bytes.len() >= 3 && bytes[0] == 0xEF && bytes[1] == 0xBB && bytes[2] == 0xBF)
    ||| (bytes.len() >= 2 && bytes[0] == 0xFF && bytes[1] == 0xFE)
    ||| (bytes.len() >= 2 && bytes[0] == 0xFE && bytes[1] == 0xFF)
}

/// Whether `text` reads `bytes` one character per byte, each ASCII byte as
/// the character it encodes.
pub open spec fn one_char_per_byte(bytes: Seq<u8>, text: Seq<char>) -> bool {
    &&& text.len() == bytes.len()
    &&& forall|i: int| 0 <= i < bytes.len() && bytes[i] < 0x80 ==> #[trigger] text[i] == bytes[i] as char
}

/// The character windows-1252 gives a byte in 0x80..0x9F (the WHATWG
/// index: the five positions the code page leaves undefined keep the
/// control character of that code point).
pub open spec fn cp1252_high(b: u8) -> char {
    if b == 0x80 { '\u{20AC}' }
    else if b == 0x82 { '\u{201A}' }
    else if b == 0x83 { '\u{0192}' }
    else if b == 0x84 { '\u{201E}' }
    else if b == 0x85 { '\u{2026}' }
    else if b == 0x86 { '\u{2020}' }
    else if b == 0x87 { '\u{2021}' }
    else if b == 0x88 { '\u{02C6}' }
    else if b == 0x89 { '\u{2030}' }
    else if b == 0x8A { '\u{0160}' }
    else if b == 0x8B { '\u{2039}' }
    else if b == 0x8C { '\u{0152}' }
    else if b == 0x8E { '\u{017D}' }
    else if b == 0x91 { '\u{2018}' }
    else if b == 0x92 { '\u{2019}' }
    else if b == 0x93 { '\u{201C}' }
    else if b == 0x94 { '\u{201D}' }
    else if b == 0x95 { '\u{2022}' }
    else if b == 0x96 { '\u{2013}' }
    else if b == 0x97 { '\u{2014}' }
    else if b == 0x98 { '\u{02DC}' }
    else if b == 0x99 { '\u{2122}' }
    else if b == 0x9A { '\u{0161}' }
    else if b == 0x9B { '\u{203A}' }
    else if b == 0x9C { '\u{0153}' }
    else if b == 0x9E { '\u{017E}' }
    else if b == 0x9F { '\u{0178}' }
    else { b as char }
}

/// The character windows-1252 gives a byte: below 0x80 and from 0xA0 on the
/// character with that code point, in 0x80..0x9F the table above.
pub open spec fn cp1252_char(b: u8) -> char {
    if 0x80 <= b < 0xA0 {
        cp1252_high(b)
    } else {
        b as char
    }
}

/// Bytes read as windows-1252, one character each.
pub open spec fn cp1252_chars(bytes: Seq<u8>) -> Seq<char> {
    bytes.map_values(|b: u8| cp1252_char(b))
}

/// `encoding_rs::WINDOWS_1252.decode`, keeping the decoded text only.
/// The result is named: it is whatever `encoding_rs` makes of these bytes,
/// and depends on them alone. Without a byte order mark the single-byte
/// decoder writes one character per byte, looked up in its windows-1252
/// table, which maps every byte ([`cp1252_char`]); with one, it decodes the
/// rest as UTF-8 or UTF-16, which is left unsaid.
#[verifier::external_body]
fn decode_windows_1252(bytes: &[u8]) -> (r: String)
    ensures
        r@ == windows_1252_decode(bytes@),
        !has_bom(bytes@) ==> r@ == cp1252_chars(bytes@),
{
    let (decoded, _, _) = encoding_rs::WINDOWS_1252.decode(bytes);
    decoded.into_owned()
}

/// Whether every byte is ASCII.
pub open spec fn all_ascii(bytes: Seq<u8>) -> bool {
    forall|i: int| 0 <= i < bytes.len() ==> bytes[i] < 0x80
}

/// ASCII bytes read as the characters they encode.
pub open spec fn ascii_chars(bytes: Seq<u8>) -> Seq<char> {
    bytes.map_values(|b: u8| b as char)
}

/// The text a sim's single-byte string stands for: ASCII as itself, anything
/// else through the windows-1252 decoder.
pub open spec fn cp1252_text(bytes: Seq<u8>) -> Seq<char> {
    if all_ascii(bytes) {
        ascii_chars(bytes)
    } else {
        windows_1252_decode(bytes)
    }
}

/// Decode a byte slice written by a sim in the fixed single-byte encoding its
/// SDK specifies.
///
/// That encoding does not depend on the reader's Windows locale. iRacing
/// documents its non-UTF-8 session string as iso-8859-1 and selects it with
/// `irsdkUTF8SessionStr=0`; cp1252 is used here because it is identical to
/// iso-8859-1 except in the 0x80-0x9F range, where iso-8859-1 has unusable
/// control codes and the sim writes the printable characters cp1252 defines
/// there (curly quotes, dashes, ellipsis).
///
/// Non-Latin characters never reach this function: the sim substitutes them
/// before writing.
pub fn decode_cp1252(bytes: &[u8]) -> (r: String)
    ensures
        r@ == cp1252_text(bytes@),
        !has_bom(bytes@) ==> r@ == cp1252_chars(bytes@),
        !has_bom(bytes@) ==> one_char_per_byte(bytes@, r@),
{
    let mut s = String::new();
    let mut i: usize = 0;
    while i < bytes.len()
        invariant
            i <= bytes.len(),
            all_ascii(bytes@.take(i as int)),
            s@ == ascii_chars(bytes@.take(i as int)),
        decreases bytes.len() - i,
    {
        let b = bytes[i];
        if b >= 0x80 {
            return decode_windows_1252(bytes);
        }
        push_char(&mut s, b as char);
        proof {
            assert(bytes@.take(i + 1) =~= bytes@.take(i as int).push(b));
            assert(s@ =~= ascii_chars(bytes@.take(i + 1)));
        }
        i = i + 1;
    }
    proof {
        assert(bytes@.take(bytes.len() as int) =~= bytes@);
    }
    s
}

/// How many bytes come before the first NUL (all of them if there is none).
pub open spec fn c_str_len(bytes: Seq<u8>) -> int
    decreases bytes.len(),
{
    if bytes.len() == 0 {
        0
    } else if c_str_len(bytes.drop_last()) < bytes.len() - 1 {
        c_str_len(bytes.drop_last())
    } else if bytes.last() == 0 {
        bytes.len() - 1
    } else {
        bytes.len() as int
    }
}

/// The position of the first NUL byte, or the length when there is none.
pub fn c_str_end(bytes: &[u8]) -> (n: usize)
    ensures
        n == c_str_len(bytes@),
        n <= bytes.len(),
        forall|i: int| 0 <= i < n ==> bytes@[i] != 0,
        n < bytes.len() ==> bytes@[n as int] == 0,
{
    let mut i: usize = 0;
    while i < bytes.len()
        invariant
            i <= bytes.len(),
            c_str_len(bytes@.take(i as int)) == i,
            forall|j: int| 0 <= j < i ==> bytes@[j] != 0,
        decreases bytes.len() - i,
    {
        proof {
            assert(bytes@.take(i + 1).drop_last() =~= bytes@.take(i as int));
        }
        if bytes[i] == 0 {
            proof {
                lemma_c_str_len_prefix(bytes@, i as int + 1);
            }
            return i;
        }
        i = i + 1;
    }
    proof {
        assert(bytes@.take(bytes.len() as int) =~= bytes@);
    }
    i
}

/// Once a prefix holds a NUL, the whole sequence ends its string at the same place.
proof fn lemma_c_str_len_prefix(bytes: Seq<u8>, n: int)
    requires
        0 <= n <= bytes.len(),
        c_str_len(bytes.take(n)) < n,
    ensures
        c_str_len(bytes) == c_str_len(bytes.take(n)),
    decreases bytes.len() - n,
{
    if n < bytes.len() {
        assert(bytes.take(n + 1).drop_last() =~= bytes.take(n));
        lemma_c_str_len_prefix(bytes, n + 1);
    } else {
        assert(bytes.take(n) =~= bytes);
    }
}

/// The text of a NUL-terminated single-byte string: the bytes before the
/// first NUL, decoded.
pub open spec fn c_str_text(bytes: Seq<u8>) -> Seq<char> {
    cp1252_text(bytes.take(c_str_len(bytes)))
}

/// Decode a NUL-padded cp1252 buffer into a `String`: iRacing stores all
/// strings in shared memory as fixed-size, NUL-padded buffers.
pub fn parse_c_str(bytes: &[u8]) -> (r: String)
    ensures
        r@ == c_str_text(bytes@),
{
    let len = c_str_end(bytes);
    let v = slice_prefix(bytes, len);
    decode_cp1252(v.as_slice())
}

/// The first `n` bytes of `bytes`, copied.
pub fn slice_prefix(bytes: &[u8], n: usize) -> (v: Vec<u8>)
    requires
        n <= bytes.len(),
    ensures
        v@ == bytes@.take(n as int),
{
    let mut v: Vec<u8> = Vec::new();
    let mut i: usize = 0;
    while i < n
        invariant
            i <= n <= bytes.len(),
            v@ == bytes@.take(i as int),
        decreases n - i,
    {
        v.push(bytes[i]);
        proof {
            assert(bytes@.take(i + 1) =~= bytes@.take(i as int).push(bytes@[i as int]));
        }
        i = i + 1;
    }
    v
}

/// Implemented by every connection type that can produce a telemetry snapshot,
/// so the snapshot helpers accept any connection directly.
pub trait HasSnapshot {
    /// Whether `snap` is a snapshot this source may hand out. What the sim
    /// holds changes from one read to the next, so a source says which maps
    /// it can give rather than which one it gives; one that says nothing
    /// may give any.
    open spec fn gives_snapshot(&self, snap: std::collections::HashMap<String, TelemetryValue>) -> bool {
        true
    }

    /// Whether `vars` is a variable list this source may hand out; a source
    /// that says nothing may give any.
    open spec fn gives_var_list(&self, vars: Seq<VarMeta>) -> bool {
        true
    }

    /// Capture all current telemetry variables as a `name -> value` map.
    ///
    /// Variable names are sim-native (e.g. `"Speed"` for iRacing, `"speedKmh"` for AC Evo).
    fn telemetry_snapshot(&self) -> (r: std::collections::HashMap<String, TelemetryValue>)
        ensures
            self.gives_snapshot(r),
    ;

    /// Return metadata for every telemetry variable the sim currently exposes.
    ///
    /// Includes name, type, unit, description, and array count for each variable.
    fn var_list_snapshot(&self) -> (r: Vec<VarMeta>)
        ensures
            self.gives_var_list(r@),
    ;
}

impl Named for VarMeta {
    open spec fn name_of(v: VarMetaView) -> Seq<char> {
        v.name
    }

    fn name_str(&self) -> (r: &str) {
        self.name.as_str()
    }
}

/// `n` spaces.
pub open spec fn spaces(n: nat) -> Seq<char> {
    Seq::new(n, |i: int| ' ')
}

/// `s` padded with spaces on the right to at least `width` characters.
pub open spec fn pad_right(s: Seq<char>, width: nat) -> Seq<char> {
    if s.len() < width {
        s + spaces((width - s.len()) as nat)
    } else {
        s
    }
}

/// The element count shown after a type: `[n]` for arrays, nothing for scalars.
pub open spec fn count_label(count: u32) -> Seq<char> {
    if count > 1 {
        seq!['['] + decimal(count as nat) + seq![']']
    } else {
        seq![]
    }
}

/// One line of the variable list: name, type with count, unit, description,
/// in columns.
pub open spec fn var_line(v: VarMetaView) -> Seq<char> {
    pad_right(v.name, 32) + seq![' '] + v.type_str + pad_right(count_label(v.count), 12) + seq![' ']
        + pad_right(v.unit, 16) + seq![' '] + v.desc + seq!['\n']
}

/// The lines of a variable list, concatenated.
pub open spec fn var_lines(vars: Seq<VarMetaView>) -> Seq<char>
    decreases vars.len(),
{
    if vars.len() == 0 {
        seq![]
    } else {
        var_lines(vars.drop_last()) + var_line(vars.last())
    }
}

fn append_padded(out: &mut String, s: &str, width: usize)
    ensures
        final(out)@ == old(out)@ + pad_right(s@, width as nat),
{
    out.append(s);
    proof {
        assert(spaces(0) =~= Seq::<char>::empty());
        assert(out@ =~= old(out)@ + s@ + spaces(0));
    }
    let n = chars_of(s).len();
    let mut k = n;
    while k < width
        invariant
            n == s@.len(),
            n <= k,
            k <= width || n >= width,
            n >= width ==> k == n,
            out@ == old(out)@ + s@ + spaces((k - n) as nat),
        decreases width - k,
    {
        push_char(out, ' ');
        proof {
            assert(spaces((k + 1 - n) as nat) =~= spaces((k - n) as nat).push(' '));
        }
        k = k + 1;
    }
    proof {
        if n < width {
            assert(k == width);
            assert(old(out)@ + s@ + spaces((k - n) as nat) =~= old(out)@ + (s@ + spaces(
                (width - n) as nat,
            )));
        } else {
            assert(k == n);
            assert(spaces(0) =~= Seq::<char>::empty());
            assert(old(out)@ + s@ + spaces(0) =~= old(out)@ + s@);
        }
        assert(out@ =~= old(out)@ + pad_right(s@, width as nat));
    }
}

fn append_var_line(out: &mut String, v: &VarMeta)
    ensures
        final(out)@ == old(out)@ + var_line(v@),
{
    append_padded(out, v.name.as_str(), 32);
    push_char(out, ' ');
    out.append(v.type_str);
    let mut count = String::new();
    if v.count > 1 {
        push_char(&mut count, '[');
        append_decimal(&mut count, v.count as u64);
        push_char(&mut count, ']');
    }
    proof {
        assert(count@ =~= count_label(v.count));
    }
    append_padded(out, count.as_str(), 12);
    push_char(out, ' ');
    append_padded(out, v.unit.as_str(), 16);
    push_char(out, ' ');
    out.append(v.desc.as_str());
    push_char(out, '\n');
    proof {
        assert(out@ =~= old(out)@ + var_line(v@));
    }
}

/// The variable catalogue as text: one line per variable (name, type with
/// array count, unit, description, in columns), sorted by name.
pub fn var_list_text(vars: Vec<VarMeta>) -> (r: String)
    ensures
        exists|sorted: Seq<VarMetaView>|
            #![auto]
            stably_sorted_by_name::<VarMeta>(views(vars@), sorted) && r@ == var_lines(sorted),
{
    let ghost orig = views(vars@);
    let sorted = sort_by_name(vars);
    let ghost sv = views(sorted@);
    let mut out = String::new();
    let mut i: usize = 0;
    proof {
        assert(sv.take(0) =~= Seq::<VarMetaView>::empty());
    }
    while i < sorted.len()
        invariant
            i <= sorted.len(),
            sv == views(sorted@),
            out@ == var_lines(sv.take(i as int)),
        decreases sorted.len() - i,
    {
        append_var_line(&mut out, &sorted[i]);
        proof {
            assert(sv.take(i + 1).drop_last() =~= sv.take(i as int));
            assert(sv[i as int] == sorted@[i as int]@);
        }
        i = i + 1;
    }
    proof {
        assert(sv.take(sorted.len() as int) =~= sv);
    }
    out
}

/// One line of a telemetry snapshot file: a variable's name and its value
/// as text.
pub struct SnapshotLine {
    pub name: String,
    pub value: String,
}

/// A [`SnapshotLine`] as plain values.
pub struct SnapshotLineView {
    pub name: Seq<char>,
    pub value: Seq<char>,
}

impl View for SnapshotLine {
    type V = SnapshotLineView;

    open spec fn view(&self) -> SnapshotLineView {
        SnapshotLineView { name: self.name@, value: self.value@ }
    }
}

impl Named for SnapshotLine {
    open spec fn name_of(v: SnapshotLineView) -> Seq<char> {
        v.name
    }

    fn name_str(&self) -> (r: &str) {
        self.name.as_str()
    }
}

/// One line of the snapshot file: the name left-aligned in 32 columns, a
/// space, the value.
pub open spec fn snapshot_line(l: SnapshotLineView) -> Seq<char> {
    pad_right(l.name, 32) + seq![' '] + l.value + seq!['\n']
}

/// The lines of a snapshot file, concatenated.
pub open spec fn snapshot_lines(lines: Seq<SnapshotLineView>) -> Seq<char>
    decreases lines.len(),
{
    if lines.len() == 0 {
        seq![]
    } else {
        snapshot_lines(lines.drop_last()) + snapshot_line(lines.last())
    }
}

/// The telemetry snapshot as text: one line per variable, sorted by name.
pub fn snapshot_text(lines: Vec<SnapshotLine>) -> (r: String)
    ensures
        exists|sorted: Seq<SnapshotLineView>|
            #![auto]
            stably_sorted_by_name::<SnapshotLine>(views(lines@), sorted) && r@ == snapshot_lines(
                sorted,
            ),
{
    let sorted = sort_by_name(lines);
    let ghost sv = views(sorted@);
    let mut out = String::new();
    let mut i: usize = 0;
    proof {
        assert(sv.take(0) =~= Seq::<SnapshotLineView>::empty());
    }
    while i < sorted.len()
        invariant
            i <= sorted.len(),
            sv == views(sorted@),
            out@ == snapshot_lines(sv.take(i as int)),
        decreases sorted.len() - i,
    {
        let ghost before = out@;
        append_padded(&mut out, sorted[i].name.as_str(), 32);
        push_char(&mut out, ' ');
        out.append(sorted[i].value.as_str());
        push_char(&mut out, '\n');
        proof {
            assert(sv.take(i + 1).drop_last() =~= sv.take(i as int));
            assert(sv[i as int] == sorted@[i as int]@);
            assert(out@ =~= before + snapshot_line(sv[i as int]));
        }
        i = i + 1;
    }
    proof {
        assert(sv.take(sorted.len() as int) =~= sv);
    }
    out
}

} // verus!
