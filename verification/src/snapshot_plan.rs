//! The entries a raw shared-memory record contributes to a telemetry
//! snapshot, field by field: the rules behind the records' `to_snapshot`.
//!
//! - Fields whose name starts with `_` (padding, reserved space) are skipped.
//! - Scalar fields become one entry under their own name.
//! - `[u8; N]` fields are read as text up to the first NUL byte.
//! - `[u16; N]` fields are read as UTF-16 text up to the first NUL unit.
//! - Other scalar arrays become one entry per element, `field_0 .. field_N-1`.
//! - A field whose type is a single identifier that is not a primitive is a
//!   nested record, whose own entries are merged under `field.`.
//! - Everything else (2D arrays, arrays of records, `usize`, qualified paths)
//!   is skipped.
use vstd::prelude::*;
use crate::text::{append_decimal, chars_of, decimal, push_char, str_equal};
use crate::utils::{c_str_end, c_str_len};

verus! {

/// The shape of a field's declared type, as far as the snapshot rules read it.
#[derive(Debug)]
pub enum FieldType {
    /// A path of one identifier, such as `f32` or `SPageFileWheel`.
    Ident(String),
    /// An array `[elem; len]` whose length is written as an integer literal.
    Array(Box<FieldType>, usize),
    /// Any other type: a path of several segments, an array whose length is
    /// not a literal, a tuple, a reference.
    Other,
}

/// One named field of a record, in declaration order.
#[derive(Debug)]
pub struct RecordField {
    pub name: String,
    pub ty: FieldType,
}

/// Where an entry's value comes from.
#[derive(Debug, Clone, Copy, PartialEq, Eq, Structural)]
pub enum EntrySource {
    /// A byte array read up to its first NUL, each byte taken as the
    /// character with that code point.
    ByteText,
    /// A `u16` array decoded as UTF-16 up to its first NUL unit, unpaired
    /// surrogates replaced.
    Utf16Text,
    /// The value of a scalar field.
    Scalar,
    /// One element of a scalar array.
    Element(usize),
    /// A nested record: its own snapshot, each key prefixed with `field.`.
    Nested,
}

/// One entry of a record's snapshot: the field it reads, the key it is
/// stored under (the prefix, for a nested record) and how its value is read.
#[derive(Debug, Clone, PartialEq)]
pub struct SnapshotEntry {
    pub field: String,
    pub key: String,
    pub source: EntrySource,
}

impl View for SnapshotEntry {
    type V = (Seq<char>, Seq<char>, EntrySource);

    open spec fn view(&self) -> (Seq<char>, Seq<char>, EntrySource) {
        (self.field@, self.key@, self.source)
    }
}

/// The identifiers of the scalar types a snapshot holds directly.
pub open spec fn is_scalar_name(n: Seq<char>) -> bool {
    ||| n == "f32"@
    ||| n == "f64"@
    ||| n == "i32"@
    ||| n == "i64"@
    ||| n == "u32"@
    ||| n == "u64"@
    ||| n == "u8"@
    ||| n == "i8"@
    ||| n == "u16"@
    ||| n == "i16"@
    ||| n == "bool"@
}

/// The identifiers of primitive types: the scalars, `usize` and `isize`.
pub open spec fn is_primitive_name(n: Seq<char>) -> bool {
    is_scalar_name(n) || n == "usize"@ || n == "isize"@
}

/// The entries of one element per index of a scalar array.
pub open spec fn element_entries(name: Seq<char>, len: nat) -> Seq<(Seq<char>, Seq<char>, EntrySource)> {
    Seq::new(len, |i: int| (name, name + "_"@ + decimal(i as nat), EntrySource::Element(i as usize)))
}

/// A field's type as plain values.
pub enum TypeShape {
    Ident(Seq<char>),
    Array(Box<TypeShape>, nat),
    Other,
}

/// The shape of a field's type.
pub open spec fn shape_of(ty: FieldType) -> TypeShape
    decreases ty,
{
    match ty {
        FieldType::Ident(s) => TypeShape::Ident(s@),
        FieldType::Array(elem, len) => TypeShape::Array(Box::new(shape_of(*elem)), len as nat),
        FieldType::Other => TypeShape::Other,
    }
}

/// The entries a field of the given name and type shape contributes.
pub open spec fn shape_entries(name: Seq<char>, ty: TypeShape) -> Seq<(Seq<char>, Seq<char>, EntrySource)> {
    if name.len() > 0 && name[0] == '_' {
        seq![]
    } else {
        match ty {
            TypeShape::Array(elem, len) => match *elem {
                TypeShape::Ident(e) => if e == "u8"@ {
                    seq![(name, name, EntrySource::ByteText)]
                } else if e == "u16"@ {
                    seq![(name, name, EntrySource::Utf16Text)]
                } else if is_scalar_name(e) {
                    element_entries(name, len)
                } else {
                    seq![]
                },
                _ => seq![],
            },
            TypeShape::Ident(t) => if is_scalar_name(t) {
                seq![(name, name, EntrySource::Scalar)]
            } else if !is_primitive_name(t) {
                seq![(name, name, EntrySource::Nested)]
            } else {
                seq![]
            },
            TypeShape::Other => seq![],
        }
    }
}

/// The entries one field contributes.
pub open spec fn field_entries(name: Seq<char>, ty: FieldType) -> Seq<(Seq<char>, Seq<char>, EntrySource)> {
    shape_entries(name, shape_of(ty))
}

/// A record's fields as names and type shapes.
pub open spec fn layout_of(fields: Seq<RecordField>) -> Seq<(Seq<char>, TypeShape)> {
    fields.map_values(|f: RecordField| (f.name@, shape_of(f.ty)))
}

/// The entries of a record laid out as `layout`: those of each field, in
/// field order.
pub open spec fn layout_entries(layout: Seq<(Seq<char>, TypeShape)>) -> Seq<(Seq<char>, Seq<char>, EntrySource)>
    decreases layout.len(),
{
    if layout.len() == 0 {
        seq![]
    } else {
        layout_entries(layout.drop_last()) + shape_entries(layout.last().0, layout.last().1)
    }
}

/// The entries of a whole record: those of each field, in field order.
pub open spec fn record_entries(fields: Seq<RecordField>) -> Seq<(Seq<char>, Seq<char>, EntrySource)>
    decreases fields.len(),
{
    if fields.len() == 0 {
        seq![]
    } else {
        record_entries(fields.drop_last()) + field_entries(
            fields.last().name@,
            fields.last().ty,
        )
    }
}

/// A record's entries depend on its fields' names and type shapes alone.
pub proof fn lemma_record_entries_by_layout(fields: Seq<RecordField>)
    ensures
        record_entries(fields) == layout_entries(layout_of(fields)),
    decreases fields.len(),
{
    if fields.len() > 0 {
        lemma_record_entries_by_layout(fields.drop_last());
        assert(layout_of(fields).drop_last() =~= layout_of(fields.drop_last()));
    }
}

/// Every entry of a record reads a field that is not padding (its name does
/// not start with `_`), and is stored under a key that starts with that
/// field's name.
pub proof fn lemma_entries_skip_padding(fields: Seq<RecordField>)
    ensures
        forall|k: int|
            0 <= k < record_entries(fields).len() ==> {
                let e = #[trigger] record_entries(fields)[k];
                &&& !(e.0.len() > 0 && e.0[0] == '_')
                &&& e.0.is_prefix_of(e.1)
            },
    decreases fields.len(),
{
    if fields.len() > 0 {
        lemma_entries_skip_padding(fields.drop_last());
        let name = fields.last().name@;
        let fe = field_entries(name, fields.last().ty);
        let prev = record_entries(fields.drop_last());
        assert forall|k: int| 0 <= k < fe.len() implies {
            let e = #[trigger] fe[k];
            &&& !(e.0.len() > 0 && e.0[0] == '_')
            &&& e.0.is_prefix_of(e.1)
        } by {
            assert(name.is_prefix_of(name));
            let e = fe[k];
            if e.1 != name {
                let rest = "_"@ + decimal(k as nat);
                assert(e.1 == name + rest);
                assert(e.1.take(name.len() as int) =~= name);
            }
        }
        assert forall|k: int| 0 <= k < record_entries(fields).len() implies {
            let e = #[trigger] record_entries(fields)[k];
            &&& !(e.0.len() > 0 && e.0[0] == '_')
            &&& e.0.is_prefix_of(e.1)
        } by {
            if k < prev.len() {
                assert(record_entries(fields)[k] == prev[k]);
            } else {
                assert(record_entries(fields)[k] == fe[k - prev.len()]);
            }
        }
    }
}

/// Whether `name` is the identifier of a scalar type.
pub fn is_scalar_ident(name: &str) -> (r: bool)
    ensures
        r == is_scalar_name(name@),
{
    str_equal(name, "f32") || str_equal(name, "f64") || str_equal(name, "i32") || str_equal(
        name,
        "i64",
    ) || str_equal(name, "u32") || str_equal(name, "u64") || str_equal(name, "u8") || str_equal(
        name,
        "i8",
    ) || str_equal(name, "u16") || str_equal(name, "i16") || str_equal(name, "bool")
}

/// Whether `name` is the identifier of a primitive type.
pub fn is_primitive_ident(name: &str) -> (r: bool)
    ensures
        r == is_primitive_name(name@),
{
    is_scalar_ident(name) || str_equal(name, "usize") || str_equal(name, "isize")
}

fn entry(name: &String, key: String, source: EntrySource) -> (e: SnapshotEntry)
    ensures
        e@ == (name@, key@, source),
{
    SnapshotEntry { field: name.clone(), key, source }
}

/// Appends the entries of one element per index of a scalar array.
fn push_elements(out: &mut Vec<SnapshotEntry>, name: &String, len: usize)
    ensures
        final(out)@.map_values(|e: SnapshotEntry| e@) == old(out)@.map_values(
            |e: SnapshotEntry| e@,
        ) + element_entries(name@, len as nat),
{
    let ghost start = old(out)@.map_values(|e: SnapshotEntry| e@);
    let mut i: usize = 0;
    while i < len
        invariant
            i <= len,
            out@.map_values(|e: SnapshotEntry| e@) == start + element_entries(name@, i as nat),
        decreases len - i,
    {
        let mut key = name.clone();
        push_char(&mut key, '_');
        append_decimal(&mut key, i as u64);
        proof {
            reveal_strlit("_");
            assert(key@ =~= name@ + "_"@ + decimal(i as nat));
        }
        let ghost before = out@;
        let e = entry(name, key, EntrySource::Element(i));
        out.push(e);
        proof {
            assert(out@.map_values(|e: SnapshotEntry| e@) =~= before.map_values(
                |e: SnapshotEntry| e@,
            ).push(e@));
            assert(element_entries(name@, (i + 1) as nat) =~= element_entries(name@, i as nat).push(
                (name@, name@ + "_"@ + decimal(i as nat), EntrySource::Element(i)),
            ));
            assert(out@.map_values(|e: SnapshotEntry| e@) =~= start + element_entries(
                name@,
                (i + 1) as nat,
            ));
        }
        i = i + 1;
    }
}

/// Appends the entries one field contributes.
pub fn push_field_entries(out: &mut Vec<SnapshotEntry>, field: &RecordField)
    ensures
        final(out)@.map_values(|e: SnapshotEntry| e@) == old(out)@.map_values(
            |e: SnapshotEntry| e@,
        ) + field_entries(field.name@, field.ty),
{
    let ghost start = old(out)@.map_values(|e: SnapshotEntry| e@);
    let name = &field.name;
    let chars = chars_of(name.as_str());
    if chars.len() > 0 && chars[0] == '_' {
        assert(start + field_entries(field.name@, field.ty) =~= start);
        return ;
    }
    proof {
        reveal_with_fuel(shape_of, 2);
    }
    match &field.ty {
        FieldType::Array(elem, len) => match &**elem {
            FieldType::Ident(e) => {
                if str_equal(e.as_str(), "u8") {
                    out.push(entry(name, name.clone(), EntrySource::ByteText));
                } else if str_equal(e.as_str(), "u16") {
                    out.push(entry(name, name.clone(), EntrySource::Utf16Text));
                } else if is_scalar_ident(e.as_str()) {
                    push_elements(out, name, *len);
                } else {
                    assert(start + field_entries(field.name@, field.ty) =~= start);
                }
            },
            _ => {
                assert(start + field_entries(field.name@, field.ty) =~= start);
            },
        },
        FieldType::Ident(t) => {
            if is_scalar_ident(t.as_str()) {
                out.push(entry(name, name.clone(), EntrySource::Scalar));
            } else if !is_primitive_ident(t.as_str()) {
                out.push(entry(name, name.clone(), EntrySource::Nested));
            } else {
                assert(start + field_entries(field.name@, field.ty) =~= start);
            }
        },
        FieldType::Other => {
            assert(start + field_entries(field.name@, field.ty) =~= start);
        },
    }
    assert(out@.map_values(|e: SnapshotEntry| e@) =~= start + field_entries(field.name@, field.ty));
}

/// The snapshot entries of a record with the given fields, in field order.
pub fn snapshot_entries(fields: &Vec<RecordField>) -> (r: Vec<SnapshotEntry>)
    ensures
        r@.map_values(|e: SnapshotEntry| e@) == record_entries(fields@),
{
    let mut out: Vec<SnapshotEntry> = Vec::new();
    let mut i: usize = 0;
    while i < fields.len()
        invariant
            i <= fields.len(),
            out@.map_values(|e: SnapshotEntry| e@) == record_entries(fields@.take(i as int)),
        decreases fields.len() - i,
    {
        push_field_entries(&mut out, &fields[i]);
        proof {
            let t = fields@.take(i as int + 1);
            assert(t.drop_last() =~= fields@.take(i as int));
            assert(t.last() == fields@[i as int]);
        }
        i = i + 1;
    }
    assert(fields@.take(fields.len() as int) =~= fields@);
    out
}

/// The text of a byte-array field: its bytes before the first NUL, each
/// taken as the character with that code point.
pub open spec fn byte_text(bytes: Seq<u8>) -> Seq<char> {
    Seq::new(c_str_len(bytes) as nat, |i: int| bytes[i] as char)
}

/// Reads a byte-array field as text (see [`byte_text`]).
pub fn read_byte_text(bytes: &[u8]) -> (r: String)
    ensures
        r@ == byte_text(bytes@),
{
    let n = c_str_end(bytes);
    let mut s = String::new();
    let mut i: usize = 0;
    while i < n
        invariant
            n == c_str_len(bytes@),
            n <= bytes@.len(),
            i <= n,
            s@ == Seq::new(i as nat, |j: int| bytes@[j] as char),
        decreases n - i,
    {
        let b = bytes[i];
        push_char(&mut s, b as char);
        assert(s@ =~= Seq::new((i + 1) as nat, |j: int| bytes@[j] as char));
        i = i + 1;
    }
    s
}

} // verus!
