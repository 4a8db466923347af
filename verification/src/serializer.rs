//! Flattening a nested telemetry struct into a `name -> value` snapshot.
//!
//! A serializer walks the struct field by field and element by element and
//! drives the [`TelemetrySerializer`] below: fields extend the current key
//! with `.name`, sequence elements with `[index]`, and every scalar is either
//! recorded under the current key or, inside a sequence of scalars,
//! collected so that the whole sequence is recorded as one array value when
//! it ends.
use vstd::prelude::*;
use crate::text::{append_decimal, decimal, push_char, str_equal};
use crate::types::TelemetryValue;
use crate::utils::{cp1252_text, decode_cp1252};

verus! {

/// Errors a snapshot serializer reports.
#[derive(Debug)]
pub enum SerializerError {
    Custom(String),
}

impl SerializerError {
    /// The error's message.
    pub fn to_string(&self) -> (r: String)
        ensures
            match self {
                SerializerError::Custom(s) => r@ == s@,
            },
    {
        match self {
            SerializerError::Custom(s) => s.clone(),
        }
    }
}

/// One step of the path from the snapshot root to the current value.
#[derive(Debug, Clone, Copy, PartialEq, Eq, Structural)]
pub enum PathElement {
    /// A struct field (`.name`).
    Field,
    /// A sequence element (`[index]`).
    Index,
}

/// The state of a [`TelemetrySerializer`], as plain values.
pub struct SerializerState {
    /// The snapshot recorded so far.
    pub map: Map<Seq<char>, TelemetryValue>,
    /// The path to the current value.
    pub path: Seq<PathElement>,
    /// The elements collected for each open sequence, innermost last.
    pub seqs: Seq<Seq<TelemetryValue>>,
    /// The index of the next element of each open sequence, innermost last.
    pub indices: Seq<usize>,
    /// The key of the current value.
    pub key: Seq<char>,
    /// The key before each step of the path was taken.
    pub saved_keys: Seq<Seq<char>>,
}

/// The snapshot's entries: each key with its value, keys distinct.
pub struct Entries {
    v: Vec<(String, TelemetryValue)>,
}

impl Entries {
    #[verifier::type_invariant]
    closed spec fn inv(self) -> bool {
        distinct_keys(self.v@)
    }

    /// The entries, in insertion order.
    pub closed spec fn items(self) -> Seq<(String, TelemetryValue)> {
        self.v@
    }

    /// No entries.
    pub fn new() -> (r: Entries)
        ensures
            r.items().len() == 0,
    {
        Entries { v: Vec::new() }
    }

    /// Records `value` under `key`, replacing an earlier value of that key.
    pub fn insert(&mut self, key: String, value: TelemetryValue)
        ensures
            entries_map(final(self).items()) == entries_map(old(self).items()).insert(key@, value),
    {
        proof {
            use_type_invariant(&*self);
        }
        let mut v: Vec<(String, TelemetryValue)> = Vec::new();
        std::mem::swap(&mut v, &mut self.v);
        let ghost start = v@;
        let mut i: usize = 0;
        while i < v.len()
            invariant
                i <= v@.len(),
                v@ == start,
                start == old(self).items(),
                distinct_keys(v@),
                forall|j: int| 0 <= j < i ==> v@[j].0@ != key@,
            decreases v@.len() - i,
        {
            if str_equal(v[i].0.as_str(), key.as_str()) {
                let ghost kv = (key, value);
                proof {
                    lemma_entries_update(start, i as int, key, value);
                }
                v.set(i, (key, value));
                proof {
                    assert(v@ == start.update(i as int, kv));
                }
                self.v = v;
                return;
            }
            i = i + 1;
        }
        v.push((key, value));
        proof {
            assert(v@.drop_last() =~= start);
        }
        self.v = v;
    }

    /// The entries, keys distinct.
    pub fn into_vec(self) -> (r: Vec<(String, TelemetryValue)>)
        ensures
            distinct_keys(r@),
            r@ == self.items(),
    {
        proof {
            use_type_invariant(&self);
        }
        self.v
    }
}

/// Builds a flat `name -> value` snapshot of a nested telemetry struct.
pub struct TelemetrySerializer {
    map: Entries,
    /// Each step of the path, with the key it was taken from.
    path_stack: Vec<(PathElement, String)>,
    /// Each open sequence: its collected elements and its next index.
    seq_stack: Vec<(Vec<TelemetryValue>, usize)>,
    current_key: String,
}

/// The map a list of entries with distinct keys stands for.
pub open spec fn entries_map(entries: Seq<(String, TelemetryValue)>) -> Map<
    Seq<char>,
    TelemetryValue,
>
    decreases entries.len(),
{
    if entries.len() == 0 {
        Map::empty()
    } else {
        entries_map(entries.drop_last()).insert(entries.last().0@, entries.last().1)
    }
}

/// Whether no two entries share a key.
pub open spec fn distinct_keys(entries: Seq<(String, TelemetryValue)>) -> bool {
    forall|i: int, j: int|
        0 <= i < j < entries.len() ==> #[trigger] entries[i].0@ != #[trigger] entries[j].0@
}

/// Whether the path holds a sequence element.
pub open spec fn has_index(path: Seq<PathElement>) -> bool {
    exists|i: int| 0 <= i < path.len() && path[i] == PathElement::Index
}

/// Whether a scalar is collected into the innermost open sequence rather
/// than recorded under its key: a sequence is open, and no struct field lies
/// below the innermost sequence element on the path.
pub open spec fn accumulates(st: SerializerState) -> bool {
    st.seqs.len() > 0 && (!has_index(st.path) || st.path.last() == PathElement::Index)
}

/// The state after a scalar `v` arrives.
pub open spec fn after_value(st: SerializerState, v: TelemetryValue) -> SerializerState {
    if accumulates(st) {
        SerializerState { seqs: st.seqs.update(st.seqs.len() - 1, st.seqs.last().push(v)), ..st }
    } else {
        SerializerState { map: st.map.insert(st.key, v), ..st }
    }
}

/// The key a struct field `name` gets below `key`.
pub open spec fn field_key(key: Seq<char>, name: Seq<char>) -> Seq<char> {
    if key.len() == 0 {
        name
    } else {
        key + seq!['.'] + name
    }
}

/// The key element `idx` of a sequence gets below `key`.
pub open spec fn index_key(key: Seq<char>, idx: nat) -> Seq<char> {
    key + seq!['['] + decimal(idx) + seq![']']
}

/// The integer an element contributes to an integer array.
pub open spec fn int_item(v: TelemetryValue) -> i32 {
    match v {
        TelemetryValue::Int(i) => i,
        TelemetryValue::BitField(u) => u as i32,
        TelemetryValue::Char(c) => c as i32,
        _ => 0,
    }
}

/// The integer an element contributes to an array of characters.
pub open spec fn char_item(v: TelemetryValue) -> i32 {
    match v {
        TelemetryValue::Char(c) => c as i32,
        _ => 0,
    }
}

/// The flag an element contributes to a `bool` array.
pub open spec fn bool_item(v: TelemetryValue) -> bool {
    match v {
        TelemetryValue::Bool(b) => b,
        _ => false,
    }
}

/// The bits an element contributes to a 32-bit float array (zero, which is
/// `0.0`, for anything else).
pub open spec fn float_item(v: TelemetryValue) -> u32 {
    match v {
        TelemetryValue::Float(f) => f,
        _ => 0,
    }
}

/// The bits an element contributes to a 64-bit float array.
pub open spec fn double_item(v: TelemetryValue) -> u64 {
    match v {
        TelemetryValue::Double(d) => d,
        _ => 0,
    }
}

/// Whether `value` is the array a completed top-level sequence `seq` is
/// recorded as: the first element decides the array's kind, and each element
/// contributes through that kind's item function.
pub open spec fn array_of(seq: Seq<TelemetryValue>, value: TelemetryValue) -> bool {
    match seq[0] {
        TelemetryValue::Bool(_) => value matches TelemetryValue::BoolArray(a) && a@ == seq.map_values(
            |v: TelemetryValue| bool_item(v),
        ),
        TelemetryValue::Int(_) | TelemetryValue::BitField(_) => value matches TelemetryValue::IntArray(
            a,
        ) && a@ == seq.map_values(|v: TelemetryValue| int_item(v)),
        TelemetryValue::Float(_) => value matches TelemetryValue::FloatArray(a) && a@
            == seq.map_values(|v: TelemetryValue| float_item(v)),
        TelemetryValue::Double(_) => value matches TelemetryValue::DoubleArray(a) && a@
            == seq.map_values(|v: TelemetryValue| double_item(v)),
        TelemetryValue::Char(_) => value matches TelemetryValue::IntArray(a) && a@ == seq.map_values(
            |v: TelemetryValue| char_item(v),
        ),
        _ => false,
    }
}

/// Whether a completed top-level sequence is recorded at all: it is not
/// empty and its first element is a number, a flag or a byte.
pub open spec fn recorded_as_array(seq: Seq<TelemetryValue>) -> bool {
    seq.len() > 0 && match seq[0] {
        TelemetryValue::Bool(_) | TelemetryValue::Int(_) | TelemetryValue::BitField(_)
        | TelemetryValue::Float(_) | TelemetryValue::Double(_) | TelemetryValue::Char(_) => true,
        _ => false,
    }
}

/// `st` with `v` recorded under the current key.
pub open spec fn with_entry(st: SerializerState, v: TelemetryValue) -> SerializerState {
    SerializerState { map: st.map.insert(st.key, v), ..st }
}

/// `st` with `items` collected into the innermost open sequence.
pub open spec fn with_collected(st: SerializerState, items: Seq<TelemetryValue>) -> SerializerState {
    SerializerState { seqs: st.seqs.update(st.seqs.len() - 1, st.seqs.last() + items), ..st }
}

/// The state after stepping into struct field `name`.
pub open spec fn after_field(st: SerializerState, name: Seq<char>) -> SerializerState {
    SerializerState {
        key: field_key(st.key, name),
        path: st.path.push(PathElement::Field),
        saved_keys: st.saved_keys.push(st.key),
        ..st
    }
}

/// The state after stepping into sequence element `idx`.
pub open spec fn after_index(st: SerializerState, idx: nat) -> SerializerState {
    SerializerState {
        key: index_key(st.key, idx),
        path: st.path.push(PathElement::Index),
        saved_keys: st.saved_keys.push(st.key),
        ..st
    }
}

/// The state after stepping back out of the innermost field or element.
pub open spec fn after_pop(st: SerializerState) -> SerializerState {
    if st.path.len() == 0 {
        st
    } else {
        SerializerState {
            key: st.saved_keys.last(),
            path: st.path.drop_last(),
            saved_keys: st.saved_keys.drop_last(),
            ..st
        }
    }
}

/// The state after a sequence opens.
pub open spec fn after_begin_seq(st: SerializerState) -> SerializerState {
    SerializerState { seqs: st.seqs.push(Seq::empty()), indices: st.indices.push(0), ..st }
}

/// The state after the innermost open sequence counts one more element.
pub open spec fn after_advance(st: SerializerState) -> SerializerState {
    if st.indices.len() == 0 {
        st
    } else {
        SerializerState {
            indices: st.indices.update(st.indices.len() - 1, (st.indices.last() + 1) as usize),
            ..st
        }
    }
}

/// Whether `after` is a state that closing the innermost sequence of `st`
/// can lead to.
pub open spec fn ends_seq(st: SerializerState, after: SerializerState) -> bool {
    let ind = if st.indices.len() > 0 {
        st.indices.drop_last()
    } else {
        st.indices
    };
    if st.seqs.len() == 0 {
        after == SerializerState { indices: ind, ..st }
    } else if st.seqs.len() >= 2 {
        after == SerializerState {
            indices: ind,
            seqs: st.seqs.drop_last().update(
                st.seqs.len() - 2,
                st.seqs[st.seqs.len() - 2] + st.seqs.last(),
            ),
            ..st
        }
    } else if recorded_as_array(st.seqs.last()) {
        exists|v: TelemetryValue|
            #![auto]
            array_of(st.seqs.last(), v) && after == SerializerState {
                indices: ind,
                seqs: Seq::empty(),
                map: st.map.insert(st.key, v),
                ..st
            }
    } else {
        after == SerializerState { indices: ind, seqs: Seq::empty(), ..st }
    }
}

impl TelemetrySerializer {
    /// The serializer's state as plain values.
    pub closed spec fn state(&self) -> SerializerState {
        SerializerState {
            map: entries_map(self.map.items()),
            path: self.path_stack@.map_values(|p: (PathElement, String)| p.0),
            seqs: self.seq_stack@.map_values(|s: (Vec<TelemetryValue>, usize)| s.0@),
            indices: self.seq_stack@.map_values(|s: (Vec<TelemetryValue>, usize)| s.1),
            key: self.current_key@,
            saved_keys: self.path_stack@.map_values(|p: (PathElement, String)| p.1@),
        }
    }

    /// A serializer with an empty snapshot, at the root.
    pub fn new() -> (r: TelemetrySerializer)
        ensures
            r.state().map == Map::<Seq<char>, TelemetryValue>::empty(),
            r.state().path.len() == 0,
            r.state().seqs.len() == 0,
            r.state().indices.len() == 0,
            r.state().key.len() == 0,
            r.state().saved_keys.len() == 0,
    {
        let r = TelemetrySerializer {
            map: Entries::new(),
            path_stack: Vec::new(),
            seq_stack: Vec::new(),
            current_key: String::new(),
        };
        proof {
            assert(r.state().seqs =~= Seq::<Seq<TelemetryValue>>::empty());
            assert(r.state().saved_keys =~= Seq::<Seq<char>>::empty());
        }
        r
    }

    /// The snapshot: each key with its value, keys distinct.
    pub fn into_map(self) -> (r: Vec<(String, TelemetryValue)>)
        ensures
            distinct_keys(r@),
            entries_map(r@) == self.state().map,
    {
        self.map.into_vec()
    }

    /// Whether a scalar arriving now is collected into the innermost open
    /// sequence.
    pub fn should_accumulate(&self) -> (r: bool)
        ensures
            r == accumulates(self.state()),
    {
        if self.seq_stack.len() == 0 {
            return false;
        }
        proof {
            assert(self.state().seqs.len() == self.seq_stack@.len());
        }
        let n = self.path_stack.len();
        proof {
            assert(self.state().path.len() == n);
        }
        if n > 0 && self.path_stack[n - 1].0 == PathElement::Index {
            proof {
                assert(self.state().path.last() == PathElement::Index);
            }
            return true;
        }
        let mut i: usize = 0;
        while i < n
            invariant
                n == self.path_stack@.len(),
                i <= n,
                self.seq_stack@.len() > 0,
                n > 0 ==> self.path_stack@[n - 1].0 != PathElement::Index,
                forall|j: int| 0 <= j < i ==> self.path_stack@[j].0 != PathElement::Index,
            decreases n - i,
        {
            if self.path_stack[i].0 == PathElement::Index {
                proof {
                    assert(self.state().path[i as int] == PathElement::Index);
                    assert(has_index(self.state().path));
                }
                return false;
            }
            i = i + 1;
        }
        proof {
            if has_index(self.state().path) {
                let j = choose|j: int|
                    0 <= j < self.state().path.len() && self.state().path[j] == PathElement::Index;
                assert(self.path_stack@[j].0 == PathElement::Index);
            }
        }
        true
    }

    /// Takes a scalar: collected into the innermost open sequence when
    /// [`should_accumulate`](Self::should_accumulate), recorded under the
    /// current key otherwise.
    pub fn record(&mut self, value: TelemetryValue)
        ensures
            final(self).state() == after_value(old(self).state(), value),
    {
        let ghost st = self.state();
        if self.should_accumulate() {
            let (mut last, idx) = self.seq_stack.pop().unwrap();
            last.push(value);
            self.seq_stack.push((last, idx));
            proof {
                assert(self.state().indices =~= st.indices);
                assert(self.state().seqs =~= st.seqs.update(
                    st.seqs.len() - 1,
                    st.seqs.last().push(value),
                ));
                assert(self.state() == after_value(st, value));
            }
        } else {
            let key = self.current_key.clone();
            self.map.insert(key, value);
            proof {
                assert(self.state() == after_value(st, value));
            }
        }
    }

    /// Takes a byte string: inside a sequence of scalars each byte is
    /// collected as a character; otherwise the bytes are decoded as cp1252 and
    /// recorded under the current key.
    pub fn record_bytes(&mut self, bytes: &[u8])
        ensures
            accumulates(old(self).state()) ==> final(self).state() == with_collected(
                old(self).state(),
                bytes@.map_values(|b: u8| TelemetryValue::Char(b)),
            ),
            !accumulates(old(self).state()) ==> (exists|text: String|
                #![auto]
                text@ == cp1252_text(bytes@) && final(self).state() == with_entry(
                    old(self).state(),
                    TelemetryValue::String(text),
                )),
    {
        let ghost st = self.state();
        if self.should_accumulate() {
            let (mut last, idx) = self.seq_stack.pop().unwrap();
            let ghost start = last@;
            let mut i: usize = 0;
            while i < bytes.len()
                invariant
                    i <= bytes.len(),
                    last@ == start + bytes@.take(i as int).map_values(
                        |b: u8| TelemetryValue::Char(b),
                    ),
                decreases bytes.len() - i,
            {
                last.push(TelemetryValue::Char(bytes[i]));
                proof {
                    assert(bytes@.take(i + 1).map_values(|b: u8| TelemetryValue::Char(b))
                        =~= bytes@.take(i as int).map_values(|b: u8| TelemetryValue::Char(b)).push(
                        TelemetryValue::Char(bytes@[i as int]),
                    ));
                }
                i = i + 1;
            }
            proof {
                assert(bytes@.take(bytes.len() as int) =~= bytes@);
            }
            self.seq_stack.push((last, idx));
            proof {
                assert(self.state().indices =~= st.indices);
                assert(self.state().seqs =~= st.seqs.update(
                    st.seqs.len() - 1,
                    st.seqs.last() + bytes@.map_values(|b: u8| TelemetryValue::Char(b)),
                ));
            }
        } else {
            let key = self.current_key.clone();
            let text = decode_cp1252(bytes);
            let ghost t = text;
            self.map.insert(key, TelemetryValue::String(text));
            proof {
                assert(self.state() == with_entry(st, TelemetryValue::String(t)));
            }
        }
    }

    /// Steps into struct field `name`: the key grows by `.name` (by `name`
    /// alone at the root).
    pub fn push_field_key(&mut self, name: &str)
        ensures
            final(self).state() == after_field(old(self).state(), name@),
    {
        let ghost st = self.state();
        self.path_stack.push((PathElement::Field, self.current_key.clone()));
        if !self.current_key.as_str().is_empty() {
            push_char(&mut self.current_key, '.');
        }
        self.current_key.append(name);
        proof {
            assert(self.state().path =~= st.path.push(PathElement::Field));
            assert(self.state().saved_keys =~= st.saved_keys.push(st.key));
            assert(self.state().key =~= field_key(st.key, name@));
        }
    }

    /// Steps into sequence element `idx`: the key grows by `[idx]`.
    pub fn push_index_key(&mut self, idx: usize)
        ensures
            final(self).state() == after_index(old(self).state(), idx as nat),
    {
        let ghost st = self.state();
        self.path_stack.push((PathElement::Index, self.current_key.clone()));
        push_char(&mut self.current_key, '[');
        append_decimal(&mut self.current_key, idx as u64);
        push_char(&mut self.current_key, ']');
        proof {
            assert(self.state().path =~= st.path.push(PathElement::Index));
            assert(self.state().saved_keys =~= st.saved_keys.push(st.key));
            assert(self.state().key =~= index_key(st.key, idx as nat));
        }
    }

    /// Steps back out of the innermost field or element, restoring the key it
    /// had before. At the root it does nothing.
    pub fn pop_key(&mut self)
        ensures
            final(self).state() == after_pop(old(self).state()),
    {
        let ghost st = self.state();
        if let Some((_, key)) = self.path_stack.pop() {
            self.current_key = key;
        }
        proof {
            if st.path.len() > 0 {
                assert(self.state().path =~= st.path.drop_last());
                assert(self.state().saved_keys =~= st.saved_keys.drop_last());
            } else {
                assert(self.state().path =~= st.path);
                assert(self.state().saved_keys =~= st.saved_keys);
            }
        }
    }

    /// Opens a sequence (also a tuple or tuple struct): its elements are
    /// numbered from 0 and collected until it ends.
    pub fn begin_seq(&mut self)
        ensures
            final(self).state() == after_begin_seq(old(self).state()),
    {
        let ghost st = self.state();
        self.seq_stack.push((Vec::new(), 0));
        proof {
            assert(self.state().seqs =~= st.seqs.push(Seq::empty()));
            assert(self.state().indices =~= st.indices.push(0));
        }
    }

    /// The index the next element of the innermost open sequence gets.
    pub fn next_index(&self) -> (r: usize)
        ensures
            r == (if self.state().indices.len() > 0 {
                self.state().indices.last()
            } else {
                0
            }),
    {
        let n = self.seq_stack.len();
        if n > 0 {
            self.seq_stack[n - 1].1
        } else {
            0
        }
    }

    /// Counts one more element of the innermost open sequence.
    pub fn advance_index(&mut self)
        requires
            old(self).state().indices.len() > 0 ==> old(self).state().indices.last() < usize::MAX,
        ensures
            final(self).state() == after_advance(old(self).state()),
    {
        let ghost st = self.state();
        let n = self.seq_stack.len();
        if n > 0 {
            let (seq, i) = self.seq_stack.pop().unwrap();
            self.seq_stack.push((seq, i + 1));
            proof {
                assert(self.state().seqs =~= st.seqs);
                assert(self.state().indices =~= st.indices.update(
                    st.indices.len() - 1,
                    (st.indices.last() + 1) as usize,
                ));
            }
        }
    }

    /// Closes the innermost sequence. Nested in another sequence, its
    /// elements join the outer one; at the top, a sequence of numbers,
    /// flags or bytes is recorded under the current key as one array whose
    /// kind the first element decides. An empty top-level sequence, or one
    /// of strings, is dropped.
    pub fn end_seq(&mut self)
        ensures
            ends_seq(old(self).state(), final(self).state()),
    {
        let ghost st = self.state();
        let ghost seqs_before = self.seq_stack@;
        if let Some((seq, _)) = self.seq_stack.pop() {
            let n = self.seq_stack.len();
            if n > 0 {
                let (mut outer, idx) = self.seq_stack.pop().unwrap();
                let mut seq = seq;
                outer.append(&mut seq);
                self.seq_stack.push((outer, idx));
                proof {
                    assert(self.state().indices =~= st.indices.drop_last());
                    assert(self.state().seqs =~= st.seqs.drop_last().update(
                        st.seqs.len() - 2,
                        st.seqs[st.seqs.len() - 2] + st.seqs.last(),
                    ));
                }
            } else {
                proof {
                    assert(self.state().seqs =~= Seq::<Seq<TelemetryValue>>::empty());
                    assert(self.state().indices =~= st.indices.drop_last());
                    assert(seqs_before[0].0@ == st.seqs.last());
                }
                if seq.len() > 0 {
                    let value = collect_array(&seq);
                    match value {
                        Some(v) => {
                            let key = self.current_key.clone();
                            let ghost vv = v;
                            self.map.insert(key, v);
                            proof {
                                assert(array_of(st.seqs.last(), vv));
                            }
                        },
                        None => {},
                    }
                }
            }
        }
    }
}

/// The array a completed top-level sequence is recorded as, if any.
fn collect_array(seq: &Vec<TelemetryValue>) -> (r: Option<TelemetryValue>)
    requires
        seq@.len() > 0,
    ensures
        recorded_as_array(seq@) <==> r is Some,
        r matches Some(v) ==> array_of(seq@, v),
{
    match &seq[0] {
        TelemetryValue::Bool(_) => {
            let mut out: Vec<bool> = Vec::new();
            let mut i: usize = 0;
            while i < seq.len()
                invariant
                    i <= seq.len(),
                    out@ == seq@.take(i as int).map_values(|v: TelemetryValue| bool_item(v)),
                decreases seq.len() - i,
            {
                let b = match &seq[i] {
                    TelemetryValue::Bool(b) => *b,
                    _ => false,
                };
                out.push(b);
                proof {
                    assert(seq@.take(i + 1).map_values(|v: TelemetryValue| bool_item(v))
                        =~= seq@.take(i as int).map_values(|v: TelemetryValue| bool_item(v)).push(
                        bool_item(seq@[i as int]),
                    ));
                }
                i = i + 1;
            }
            proof {
                assert(seq@.take(seq.len() as int) =~= seq@);
            }
            Some(TelemetryValue::BoolArray(out))
        },
        TelemetryValue::Int(_) | TelemetryValue::BitField(_) => {
            let mut out: Vec<i32> = Vec::new();
            let mut i: usize = 0;
            while i < seq.len()
                invariant
                    i <= seq.len(),
                    out@ == seq@.take(i as int).map_values(|v: TelemetryValue| int_item(v)),
                decreases seq.len() - i,
            {
                let x: i32 = match &seq[i] {
                    TelemetryValue::Int(v) => *v,
                    TelemetryValue::BitField(u) => *u as i32,
                    TelemetryValue::Char(c) => *c as i32,
                    _ => 0,
                };
                out.push(x);
                proof {
                    assert(seq@.take(i + 1).map_values(|v: TelemetryValue| int_item(v))
                        =~= seq@.take(i as int).map_values(|v: TelemetryValue| int_item(v)).push(
                        int_item(seq@[i as int]),
                    ));
                }
                i = i + 1;
            }
            proof {
                assert(seq@.take(seq.len() as int) =~= seq@);
            }
            Some(TelemetryValue::IntArray(out))
        },
        TelemetryValue::Float(_) => {
            let mut out: Vec<u32> = Vec::new();
            let mut i: usize = 0;
            while i < seq.len()
                invariant
                    i <= seq.len(),
                    out@ == seq@.take(i as int).map_values(|v: TelemetryValue| float_item(v)),
                decreases seq.len() - i,
            {
                let x: u32 = match &seq[i] {
                    TelemetryValue::Float(f) => *f,
                    _ => 0,
                };
                out.push(x);
                proof {
                    assert(seq@.take(i + 1).map_values(|v: TelemetryValue| float_item(v))
                        =~= seq@.take(i as int).map_values(|v: TelemetryValue| float_item(v)).push(
                        float_item(seq@[i as int]),
                    ));
                }
                i = i + 1;
            }
            proof {
                assert(seq@.take(seq.len() as int) =~= seq@);
            }
            Some(TelemetryValue::FloatArray(out))
        },
        TelemetryValue::Double(_) => {
            let mut out: Vec<u64> = Vec::new();
            let mut i: usize = 0;
            while i < seq.len()
                invariant
                    i <= seq.len(),
                    out@ == seq@.take(i as int).map_values(|v: TelemetryValue| double_item(v)),
                decreases seq.len() - i,
            {
                let x: u64 = match &seq[i] {
                    TelemetryValue::Double(d) => *d,
                    _ => 0,
                };
                out.push(x);
                proof {
                    assert(seq@.take(i + 1).map_values(|v: TelemetryValue| double_item(v))
                        =~= seq@.take(i as int).map_values(|v: TelemetryValue| double_item(v)).push(
                        double_item(seq@[i as int]),
                    ));
                }
                i = i + 1;
            }
            proof {
                assert(seq@.take(seq.len() as int) =~= seq@);
            }
            Some(TelemetryValue::DoubleArray(out))
        },
        TelemetryValue::Char(_) => {
            let mut out: Vec<i32> = Vec::new();
            let mut i: usize = 0;
            while i < seq.len()
                invariant
                    i <= seq.len(),
                    out@ == seq@.take(i as int).map_values(|v: TelemetryValue| char_item(v)),
                decreases seq.len() - i,
            {
                let x: i32 = match &seq[i] {
                    TelemetryValue::Char(c) => *c as i32,
                    _ => 0,
                };
                out.push(x);
                proof {
                    assert(seq@.take(i + 1).map_values(|v: TelemetryValue| char_item(v))
                        =~= seq@.take(i as int).map_values(|v: TelemetryValue| char_item(v)).push(
                        char_item(seq@[i as int]),
                    ));
                }
                i = i + 1;
            }
            proof {
                assert(seq@.take(seq.len() as int) =~= seq@);
            }
            Some(TelemetryValue::IntArray(out))
        },
        _ => None,
    }
}

/// Replacing the value of a present key in a list with distinct keys
/// replaces it in the map.
proof fn lemma_entries_update(
    entries: Seq<(String, TelemetryValue)>,
    k: int,
    key: String,
    value: TelemetryValue,
)
    requires
        distinct_keys(entries),
        0 <= k < entries.len(),
        entries[k].0@ == key@,
    ensures
        distinct_keys(entries.update(k, (key, value))),
        entries_map(entries.update(k, (key, value))) == entries_map(entries).insert(key@, value),
    decreases entries.len(),
{
    let updated = entries.update(k, (key, value));
    assert forall|i: int, j: int| 0 <= i < j < updated.len() implies #[trigger] updated[i].0@
        != #[trigger] updated[j].0@ by {
        assert(entries[i].0@ != entries[j].0@);
    }
    assert forall|i: int, j: int|
        0 <= i < j < entries.drop_last().len() implies #[trigger] entries.drop_last()[i].0@
        != #[trigger] entries.drop_last()[j].0@ by {
        assert(entries[i].0@ != entries[j].0@);
    }
    if k == entries.len() - 1 {
        assert(updated.drop_last() =~= entries.drop_last());
        assert(entries_map(updated) =~= entries_map(entries).insert(key@, value));
    } else {
        assert(updated.drop_last() =~= entries.drop_last().update(k, (key, value)));
        lemma_entries_update(entries.drop_last(), k, key, value);
        assert(entries.last().0@ != key@);
        assert(entries_map(updated) =~= entries_map(entries).insert(key@, value));
    }
}

/// Stepping into a struct field and back out restores the serializer's
/// state: key, path and everything recorded stay as they were.
pub proof fn lemma_field_then_pop(st: SerializerState, name: Seq<char>)
    ensures
        after_pop(after_field(st, name)) == st,
{
    assert(after_field(st, name).path.drop_last() =~= st.path);
    assert(after_field(st, name).saved_keys.drop_last() =~= st.saved_keys);
}

/// Stepping into a sequence element and back out restores the serializer's state.
pub proof fn lemma_index_then_pop(st: SerializerState, idx: nat)
    ensures
        after_pop(after_index(st, idx)) == st,
{
    assert(after_index(st, idx).path.drop_last() =~= st.path);
    assert(after_index(st, idx).saved_keys.drop_last() =~= st.saved_keys);
}

/// A scalar outside any sequence of scalars is recorded under the current
/// key, replacing whatever that key held, and leaves every other key alone.
pub proof fn lemma_value_recorded(st: SerializerState, v: TelemetryValue, other: Seq<char>)
    requires
        !accumulates(st),
    ensures
        after_value(st, v).map[st.key] == v,
        after_value(st, v).map.contains_key(st.key),
        other != st.key ==> after_value(st, v).map.contains_key(other) == st.map.contains_key(
            other,
        ),
        other != st.key && st.map.contains_key(other) ==> after_value(st, v).map[other]
            == st.map[other],
{
}

/// A scalar inside a sequence of scalars is collected, not recorded: the
/// snapshot is unchanged until the sequence ends.
pub proof fn lemma_value_collected(st: SerializerState, v: TelemetryValue)
    requires
        accumulates(st),
    ensures
        after_value(st, v).map == st.map,
        after_value(st, v).seqs.last() == st.seqs.last().push(v),
        after_value(st, v).seqs.len() == st.seqs.len(),
{
}

/// Closing the outermost open sequence records it under the current key as
/// one array, its kind chosen by the first element: flags give a
/// `BoolArray`, integers and bit fields an `IntArray`, floats a
/// `FloatArray`, doubles a `DoubleArray`, bytes an `IntArray` of their
/// values; the array has one entry per element, each element's own value
/// (its bits, for floats) when it is of that kind, zero or `false`
/// otherwise (bit fields and bytes read as integers in an integer array).
/// An empty sequence, or one opening with anything else, records nothing.
/// No other key changes, and no sequence stays open.
pub proof fn lemma_closed_sequence_recorded(st: SerializerState, after: SerializerState)
    requires
        st.seqs.len() == 1,
        ends_seq(st, after),
    ensures
        after.seqs.len() == 0,
        after.key == st.key,
        after.path == st.path,
        forall|k: Seq<char>| k != st.key ==> #[trigger] after.map.dom().contains(k) == st.map.dom().contains(k)
            && (st.map.dom().contains(k) ==> after.map[k] == st.map[k]),
        ({
            let s = st.seqs[0];
            (s.len() > 0 && s[0] is Double) ==> (after.map.dom().contains(st.key) && (after.map[st.key] matches TelemetryValue::DoubleArray(a)
                && a@.len() == s.len() && forall|k: int|
                0 <= k < s.len() ==> #[trigger] a@[k] == match s[k] {
                    TelemetryValue::Double(d) => d,
                    _ => 0u64,
                }))
        }),
        ({
            let s = st.seqs[0];
            (s.len() > 0 && s[0] is Float) ==> (after.map.dom().contains(st.key) && (after.map[st.key] matches TelemetryValue::FloatArray(a)
                && a@.len() == s.len() && forall|k: int|
                0 <= k < s.len() ==> #[trigger] a@[k] == match s[k] {
                    TelemetryValue::Float(f) => f,
                    _ => 0u32,
                }))
        }),
        ({
            let s = st.seqs[0];
            (s.len() > 0 && s[0] is Bool) ==> (after.map.dom().contains(st.key) && (after.map[st.key] matches TelemetryValue::BoolArray(a)
                && a@.len() == s.len() && forall|k: int|
                0 <= k < s.len() ==> #[trigger] a@[k] == match s[k] {
                    TelemetryValue::Bool(b) => b,
                    _ => false,
                }))
        }),
        ({
            let s = st.seqs[0];
            (s.len() > 0 && (s[0] is Int || s[0] is BitField)) ==> (after.map.dom().contains(st.key) && (after.map[st.key] matches TelemetryValue::IntArray(a)
                && a@.len() == s.len() && forall|k: int|
                0 <= k < s.len() ==> #[trigger] a@[k] == match s[k] {
                    TelemetryValue::Int(i) => i,
                    TelemetryValue::BitField(u) => u as i32,
                    TelemetryValue::Char(c) => c as i32,
                    _ => 0i32,
                }))
        }),
        ({
            let s = st.seqs[0];
            (s.len() > 0 && s[0] is Char) ==> (after.map.dom().contains(st.key) && (after.map[st.key] matches TelemetryValue::IntArray(a)
                && a@.len() == s.len() && forall|k: int|
                0 <= k < s.len() ==> #[trigger] a@[k] == match s[k] {
                    TelemetryValue::Char(c) => c as i32,
                    _ => 0i32,
                }))
        }),
        ({
            let s = st.seqs[0];
            (s.len() == 0 || !(s[0] is Double || s[0] is Float || s[0] is Bool || s[0] is Int
                || s[0] is BitField || s[0] is Char)) ==> after.map == st.map
        }),
{
    let s = st.seqs[0];
    assert(st.seqs.last() == s);
    if recorded_as_array(s) {
        assert(exists|v: TelemetryValue| #[trigger] array_of(s, v) && after.map == st.map.insert(st.key, v));
        let v = choose|v: TelemetryValue| #[trigger] array_of(s, v) && after.map == st.map.insert(st.key, v);
        match v {
            TelemetryValue::DoubleArray(a) => {
                assert forall|k: int| 0 <= k < s.len() implies #[trigger] a@[k] == match s[k] {
                    TelemetryValue::Double(d) => d,
                    _ => 0u64,
                } by {
                    assert(s[0] is Double);
                    assert(a@ == s.map_values(|v: TelemetryValue| double_item(v)));
                    assert(a@[k] == double_item(s[k]));
                }
            },
            TelemetryValue::FloatArray(a) => {
                assert forall|k: int| 0 <= k < s.len() implies #[trigger] a@[k] == match s[k] {
                    TelemetryValue::Float(f) => f,
                    _ => 0u32,
                } by {
                    assert(s[0] is Float);
                    assert(a@ == s.map_values(|v: TelemetryValue| float_item(v)));
                    assert(a@[k] == float_item(s[k]));
                }
            },
            TelemetryValue::BoolArray(a) => {
                assert forall|k: int| 0 <= k < s.len() implies #[trigger] a@[k] == match s[k] {
                    TelemetryValue::Bool(b) => b,
                    _ => false,
                } by {
                    assert(a@[k] == bool_item(s[k]));
                }
            },
            TelemetryValue::IntArray(a) => {
                if s[0] is Char {
                    assert forall|k: int| 0 <= k < s.len() implies #[trigger] a@[k] == match s[k] {
                        TelemetryValue::Char(c) => c as i32,
                        _ => 0i32,
                    } by {
                        assert(a@[k] == char_item(s[k]));
                    }
                } else {
                    assert forall|k: int| 0 <= k < s.len() implies #[trigger] a@[k] == match s[k] {
                        TelemetryValue::Int(i) => i,
                        TelemetryValue::BitField(u) => u as i32,
                        TelemetryValue::Char(c) => c as i32,
                        _ => 0i32,
                    } by {
                        assert(a@[k] == int_item(s[k]));
                    }
                }
            },
            _ => {},
        }
    }
}

} // verus!
