//! Decoding iRacing's shared memory: checking the header, picking the newest
//! data buffer, and reading typed variables out of its bytes.
use vstd::prelude::*;
use crate::connection::ReadResult;
use crate::error::{bad_header_message, SimError};
use crate::iracing::structs::{irsdk_header, irsdk_varHeader, var_type_of, VarType};
use crate::types::{TelemetryValue, VarMeta, VarMetaView};
use crate::utils::{c_str_text, cp1252_text, decode_cp1252, parse_c_str};

verus! {

/// Size in bytes of one `irsdk_varHeader` record in shared memory.
pub const VAR_HEADER_SIZE: u64 = 144;

/// Upper bound of the iRacing shared-memory region: 32 MiB.
pub const SHM_SIZE: u64 = 33554432;

/// Whether the header's version and variable count are plausible.
pub open spec fn header_plausible(h: irsdk_header) -> bool {
    0 < h.ver <= 10 && h.num_vars > 0
}

/// Whether the variable table lies inside the shared-memory region.
pub open spec fn var_table_fits(h: irsdk_header) -> bool {
    h.var_header_offset >= 0 && h.var_header_offset + h.num_vars * 144 <= 33554432
}

/// Checks the header read at connect time: the version must lie in 1..=10
/// and at least one variable must be declared, and the variable table must
/// fit in the region.
pub fn validate_header(header: &irsdk_header) -> (r: Result<(), SimError>)
    ensures
        r is Ok <==> header_plausible(*header) && var_table_fits(*header),
        !header_plausible(*header) ==> (r matches Err(SimError::InvalidHeader(msg)) && msg@
            == bad_header_message(header.ver, header.num_vars)),
        header_plausible(*header) && !var_table_fits(*header) ==> (r matches Err(
            SimError::InvalidHeader(msg),
        ) && msg@ == "var_header_offset out of SHM bounds"@),
{
    if header.ver <= 0 || header.ver > 10 || header.num_vars <= 0 {
        return Err(SimError::bad_header(header.ver, header.num_vars));
    }
    if header.var_header_offset < 0 {
        return Err(SimError::InvalidHeader(String::from_str("var_header_offset out of SHM bounds")));
    }
    let end: u64 = (header.var_header_offset as u64) + (header.num_vars as u64) * VAR_HEADER_SIZE;
    if end > SHM_SIZE {
        return Err(SimError::InvalidHeader(String::from_str("var_header_offset out of SHM bounds")));
    }
    Ok(())
}

/// Picks the data buffer to read: the slot with the highest tick count among
/// the first `num_buf`, the earliest of them on a tie. `None` when `num_buf`
/// is outside 1..=4 or no slot has been written yet (every tick negative).
pub fn latest_buffer(header: &irsdk_header) -> (r: Option<usize>)
    ensures
        r is None <==> (header.num_buf <= 0 || header.num_buf > 4 || forall|j: int|
            0 <= j < header.num_buf ==> #[trigger] header.var_buf[j].tick_count < 0),
        r matches Some(i) ==> {
            &&& i < header.num_buf
            &&& header.var_buf[i as int].tick_count >= 0
            &&& forall|j: int|
                0 <= j < header.num_buf ==> #[trigger] header.var_buf[j].tick_count
                    <= header.var_buf[i as int].tick_count
            &&& forall|j: int|
                0 <= j < i ==> #[trigger] header.var_buf[j].tick_count
                    < header.var_buf[i as int].tick_count
        },
{
    if header.num_buf <= 0 || header.num_buf > 4 {
        return None;
    }
    let n = header.num_buf as usize;
    let mut latest: usize = 0;
    let mut max_tick: i32 = -1;
    let mut i: usize = 0;
    while i < n
        invariant
            n == header.num_buf,
            1 <= n <= 4,
            i <= n,
            latest < n,
            max_tick >= -1,
            max_tick >= 0 ==> latest < i && header.var_buf[latest as int].tick_count == max_tick,
            max_tick < 0 ==> latest == 0,
            forall|j: int| 0 <= j < i ==> #[trigger] header.var_buf[j].tick_count <= max_tick
                || header.var_buf[j].tick_count < 0,
            forall|j: int| 0 <= j < i ==> #[trigger] header.var_buf[j].tick_count <= max_tick,
            max_tick >= 0 ==> forall|j: int|
                0 <= j < latest ==> #[trigger] header.var_buf[j].tick_count < max_tick,
        decreases n - i,
    {
        let t = header.var_buf[i].tick_count;
        if t > max_tick {
            max_tick = t;
            latest = i;
        }
        i = i + 1;
    }
    if max_tick < 0 {
        return None;
    }
    Some(latest)
}

/// Little-endian `u32` at byte `off`.
pub open spec fn le_u32(data: Seq<u8>, off: int) -> u32 {
    (data[off] + data[off + 1] * 0x100 + data[off + 2] * 0x10000 + data[off + 3] * 0x1000000) as u32
}

/// Little-endian `u64` at byte `off`.
pub open spec fn le_u64(data: Seq<u8>, off: int) -> u64 {
    (le_u32(data, off) + le_u32(data, off + 4) * 0x100000000) as u64
}

/// The size in bytes of a variable's data, when its type is known.
pub open spec fn var_data_len(var: irsdk_varHeader) -> int {
    match var_type_of(var.type_) {
        Some(t) => var.count * t.spec_size(),
        None => 0,
    }
}

/// Whether a variable's data lies inside a data buffer of `len` bytes.
pub open spec fn var_fits(var: irsdk_varHeader, len: int) -> bool {
    var.offset >= 0 && var.count >= 0 && var.offset + var_data_len(var) <= len
}

/// Whether a variable's data lies inside a data buffer of `len` bytes (see
/// [`var_fits`]): the test to make before [`decode_variable`].
pub fn fits_buffer(var: &irsdk_varHeader, len: usize) -> (r: bool)
    ensures
        r == var_fits(*var, len as int),
{
    let size: i64 = match VarType::from_i32(var.type_) {
        Some(VarType::Char) => 1,
        Some(VarType::Bool) => 1,
        Some(VarType::Int) => 4,
        Some(VarType::BitField) => 4,
        Some(VarType::Float) => 4,
        Some(VarType::Double) => 8,
        None => 0,
    };
    if var.offset < 0 || var.count < 0 {
        return false;
    }
    assert(0 <= var.count * size <= 0x7fff_ffff * 8) by (nonlinear_arith)
        requires
            0 <= var.count <= 0x7fff_ffff,
            0 <= size <= 8,
    ;
    let end: i64 = var.offset as i64 + var.count as i64 * size;
    (end as i128) <= (len as i128)
}

/// Whether `v` is what the data buffer `data` holds for variable `var`: a
/// scalar when the count is 1, an array of `count` elements otherwise;
/// `char` data is text (decoded up to its first NUL when the SDK marks it as
/// a string), a lone byte otherwise; integers and floats are little-endian,
/// floats kept as their bits; bit fields in an array become signed integers.
pub open spec fn reads_as(var: irsdk_varHeader, data: Seq<u8>, v: TelemetryValue) -> bool {
    let off = var.offset as int;
    let n = var.count as int;
    match var_type_of(var.type_) {
        Some(VarType::Char) => if var.count_as_char != 0 {
            v matches TelemetryValue::String(s) && s@ == c_str_text(data.subrange(off, off + n))
        } else if n == 1 {
            v == TelemetryValue::Char(data[off])
        } else {
            v matches TelemetryValue::String(s) && s@ == cp1252_text(data.subrange(off, off + n))
        },
        Some(VarType::Bool) => if n == 1 {
            v == TelemetryValue::Bool(data[off] != 0)
        } else {
            v matches TelemetryValue::BoolArray(a) && a@ == Seq::new(
                n as nat,
                |k: int| data[off + k] != 0,
            )
        },
        Some(VarType::Int) => if n == 1 {
            v == TelemetryValue::Int(le_u32(data, off) as i32)
        } else {
            v matches TelemetryValue::IntArray(a) && a@ == Seq::new(
                n as nat,
                |k: int| le_u32(data, off + 4 * k) as i32,
            )
        },
        Some(VarType::BitField) => if n == 1 {
            v == TelemetryValue::BitField(le_u32(data, off))
        } else {
            v matches TelemetryValue::IntArray(a) && a@ == Seq::new(
                n as nat,
                |k: int| le_u32(data, off + 4 * k) as i32,
            )
        },
        Some(VarType::Float) => if n == 1 {
            v == TelemetryValue::Float(le_u32(data, off))
        } else {
            v matches TelemetryValue::FloatArray(a) && a@ == Seq::new(
                n as nat,
                |k: int| le_u32(data, off + 4 * k),
            )
        },
        Some(VarType::Double) => if n == 1 {
            v == TelemetryValue::Double(le_u64(data, off))
        } else {
            v matches TelemetryValue::DoubleArray(a) && a@ == Seq::new(
                n as nat,
                |k: int| le_u64(data, off + 8 * k),
            )
        },
        None => false,
    }
}

fn read_u32(data: &[u8], off: usize) -> (r: u32)
    requires
        off + 4 <= data.len(),
    ensures
        r == le_u32(data@, off as int),
{
    (data[off] as u32) + (data[off + 1] as u32) * 0x100 + (data[off + 2] as u32) * 0x10000 + (
    data[off + 3] as u32) * 0x1000000
}

fn read_u64(data: &[u8], off: usize) -> (r: u64)
    requires
        off + 8 <= data.len(),
    ensures
        r == le_u64(data@, off as int),
{
    (read_u32(data, off) as u64) + (read_u32(data, off + 4) as u64) * 0x100000000
}

/// The bytes `data[from..to]`, copied.
fn slice_range(data: &[u8], from: usize, to: usize) -> (v: Vec<u8>)
    requires
        from <= to <= data.len(),
    ensures
        v@ == data@.subrange(from as int, to as int),
{
    let mut v: Vec<u8> = Vec::new();
    let mut i = from;
    while i < to
        invariant
            from <= i <= to <= data.len(),
            v@ == data@.subrange(from as int, i as int),
        decreases to - i,
    {
        v.push(data[i]);
        proof {
            assert(data@.subrange(from as int, i + 1) =~= data@.subrange(from as int, i as int).push(
                data@[i as int],
            ));
        }
        i = i + 1;
    }
    v
}

/// Reads variable `var` out of the data buffer `data` (the newest buffer
/// [`latest_buffer`] picked). `None` when the variable's type code is unknown.
pub fn decode_variable(var: &irsdk_varHeader, data: &[u8]) -> (r: Option<TelemetryValue>)
    requires
        var_fits(*var, data@.len() as int),
    ensures
        r is None <==> var_type_of(var.type_) is None,
        r matches Some(v) ==> reads_as(*var, data@, v),
{
    let t = VarType::from_i32(var.type_);
    let off = var.offset as usize;
    let count = var.count as usize;
    match t {
        None => None,
        Some(VarType::Char) => {
            if var.count_as_char != 0 {
                let bytes = slice_range(data, off, off + count);
                Some(TelemetryValue::String(parse_c_str(bytes.as_slice())))
            } else if count == 1 {
                Some(TelemetryValue::Char(data[off]))
            } else {
                let bytes = slice_range(data, off, off + count);
                Some(TelemetryValue::String(decode_cp1252(bytes.as_slice())))
            }
        },
        Some(VarType::Bool) => {
            if count == 1 {
                Some(TelemetryValue::Bool(data[off] != 0))
            } else {
                let mut v: Vec<bool> = Vec::new();
                let mut k: usize = 0;
                while k < count
                    invariant
                        k <= count,
                        off + count <= data.len(),
                        v@ == Seq::new(k as nat, |j: int| data@[off + j] != 0),
                    decreases count - k,
                {
                    v.push(data[off + k] != 0);
                    proof {
                        assert(v@ =~= Seq::new((k + 1) as nat, |j: int| data@[off + j] != 0));
                    }
                    k = k + 1;
                }
                Some(TelemetryValue::BoolArray(v))
            }
        },
        Some(VarType::Int) => {
            if count == 1 {
                Some(TelemetryValue::Int(read_u32(data, off) as i32))
            } else {
                let mut v: Vec<i32> = Vec::new();
                let mut k: usize = 0;
                while k < count
                    invariant
                        k <= count,
                        off + count * 4 <= data.len(),
                        v@ == Seq::new(k as nat, |j: int| le_u32(data@, off + 4 * j) as i32),
                    decreases count - k,
                {
                    v.push(read_u32(data, off + 4 * k) as i32);
                    proof {
                        assert(v@ =~= Seq::new(
                            (k + 1) as nat,
                            |j: int| le_u32(data@, off + 4 * j) as i32,
                        ));
                    }
                    k = k + 1;
                }
                Some(TelemetryValue::IntArray(v))
            }
        },
        Some(VarType::BitField) => {
            if count == 1 {
                Some(TelemetryValue::BitField(read_u32(data, off)))
            } else {
                let mut v: Vec<i32> = Vec::new();
                let mut k: usize = 0;
                while k < count
                    invariant
                        k <= count,
                        off + count * 4 <= data.len(),
                        v@ == Seq::new(k as nat, |j: int| le_u32(data@, off + 4 * j) as i32),
                    decreases count - k,
                {
                    v.push(read_u32(data, off + 4 * k) as i32);
                    proof {
                        assert(v@ =~= Seq::new(
                            (k + 1) as nat,
                            |j: int| le_u32(data@, off + 4 * j) as i32,
                        ));
                    }
                    k = k + 1;
                }
                Some(TelemetryValue::IntArray(v))
            }
        },
        Some(VarType::Float) => {
            if count == 1 {
                Some(TelemetryValue::Float(read_u32(data, off)))
            } else {
                let mut v: Vec<u32> = Vec::new();
                let mut k: usize = 0;
                while k < count
                    invariant
                        k <= count,
                        off + count * 4 <= data.len(),
                        v@ == Seq::new(k as nat, |j: int| le_u32(data@, off + 4 * j)),
                    decreases count - k,
                {
                    v.push(read_u32(data, off + 4 * k));
                    proof {
                        assert(v@ =~= Seq::new((k + 1) as nat, |j: int| le_u32(data@, off + 4 * j)));
                    }
                    k = k + 1;
                }
                Some(TelemetryValue::FloatArray(v))
            }
        },
        Some(VarType::Double) => {
            if count == 1 {
                Some(TelemetryValue::Double(read_u64(data, off)))
            } else {
                let mut v: Vec<u64> = Vec::new();
                let mut k: usize = 0;
                while k < count
                    invariant
                        k <= count,
                        off + count * 8 <= data.len(),
                        v@ == Seq::new(k as nat, |j: int| le_u64(data@, off + 8 * j)),
                    decreases count - k,
                {
                    v.push(read_u64(data, off + 8 * k));
                    proof {
                        assert(v@ =~= Seq::new((k + 1) as nat, |j: int| le_u64(data@, off + 8 * j)));
                    }
                    k = k + 1;
                }
                Some(TelemetryValue::DoubleArray(v))
            }
        },
    }
}

/// The type name a variable list shows for an SDK type code.
pub open spec fn type_label(code: i32) -> Seq<char> {
    match var_type_of(code) {
        Some(VarType::Char) => "char"@,
        Some(VarType::Bool) => "bool"@,
        Some(VarType::Int) => "int"@,
        Some(VarType::BitField) => "bitfield"@,
        Some(VarType::Float) => "float"@,
        Some(VarType::Double) => "double"@,
        None => "unknown"@,
    }
}

fn type_label_exec(code: i32) -> (r: &'static str)
    ensures
        r@ == type_label(code),
{
    match VarType::from_i32(code) {
        Some(VarType::Char) => "char",
        Some(VarType::Bool) => "bool",
        Some(VarType::Int) => "int",
        Some(VarType::BitField) => "bitfield",
        Some(VarType::Float) => "float",
        Some(VarType::Double) => "double",
        None => "unknown",
    }
}

/// The metadata a variable list shows for the variable `name` with header `hdr`.
pub open spec fn var_meta_of(name: Seq<char>, hdr: irsdk_varHeader) -> VarMetaView {
    VarMetaView {
        name: name,
        type_str: type_label(hdr.type_),
        unit: c_str_text(hdr.unit@),
        desc: c_str_text(hdr.desc@),
        count: hdr.count as u32,
    }
}

/// Metadata of one variable: its type name, its unit and description decoded
/// up to their first NUL, and its element count.
pub fn var_meta(name: String, hdr: &irsdk_varHeader) -> (r: VarMeta)
    ensures
        r@ == var_meta_of(name@, *hdr),
{
    let unit = parse_c_str(hdr.unit.as_slice());
    let desc = parse_c_str(hdr.desc.as_slice());
    VarMeta { name, type_str: type_label_exec(hdr.type_), unit, desc, count: hdr.count as u32 }
}

/// Metadata for every variable of a variable table, in the order given.
pub fn var_list_from_headers(vars: &[(String, irsdk_varHeader)]) -> (r: Vec<VarMeta>)
    ensures
        r@.len() == vars@.len(),
        forall|i: int|
            0 <= i < vars@.len() ==> #[trigger] r@[i]@ == var_meta_of(vars@[i].0@, vars@[i].1),
{
    let mut out: Vec<VarMeta> = Vec::new();
    let mut i: usize = 0;
    while i < vars.len()
        invariant
            i <= vars.len(),
            out@.len() == i,
            forall|j: int| 0 <= j < i ==> #[trigger] out@[j]@ == var_meta_of(vars@[j].0@, vars@[j].1),
        decreases vars.len() - i,
    {
        let (name, hdr) = &vars[i];
        out.push(var_meta(name.clone(), hdr));
        i = i + 1;
    }
    out
}

/// What a frame read does once waiting for data is over.
#[derive(Debug, Clone, Copy, PartialEq, Eq, Structural)]
pub enum ReadStep {
    /// The sim stopped broadcasting.
    Disconnected,
    /// No new data arrived in time.
    NotReady,
    /// New data is there: read the frame.
    ReadFrame,
}

/// Decides a frame read after the wait: a sim that no longer broadcasts is
/// disconnected whether or not data arrived; otherwise the frame is read
/// only when data arrived.
pub fn step_after_wait(data_ready: bool, connected: bool) -> (r: ReadStep)
    ensures
        r == (if !connected {
            ReadStep::Disconnected
        } else if !data_ready {
            ReadStep::NotReady
        } else {
            ReadStep::ReadFrame
        }),
{
    if !data_ready {
        if !connected {
            return ReadStep::Disconnected;
        }
        return ReadStep::NotReady;
    }
    if !connected {
        return ReadStep::Disconnected;
    }
    ReadStep::ReadFrame
}

/// The result of the frame read itself: a frame, or not ready when no data
/// buffer could be picked.
pub fn frame_outcome<F>(frame: Result<F, SimError>) -> (r: ReadResult<F>)
    ensures
        match frame {
            Ok(f) => r == ReadResult::Frame(f),
            Err(_) => r == ReadResult::<F>::NotReady,
        },
{
    match frame {
        Ok(f) => ReadResult::Frame(f),
        Err(_) => ReadResult::NotReady,
    }
}

/// Whether the sim is broadcasting telemetry: bit 0 of the header's status.
pub fn status_connected(status: i32) -> (r: bool)
    ensures
        r == (status & 1 != 0),
{
    status & 1 != 0
}

/// The session-info YAML text: the `session_info_len` bytes at
/// `session_info_offset`, decoded up to their first NUL. `None` when the
/// header declares no session info.
pub fn session_text(session_info_len: i32, bytes: &[u8]) -> (r: Option<String>)
    requires
        session_info_len > 0 ==> bytes@.len() == session_info_len,
    ensures
        session_info_len <= 0 ==> r is None,
        session_info_len > 0 ==> (r matches Some(s) && s@ == c_str_text(bytes@)),
{
    if session_info_len <= 0 {
        return None;
    }
    Some(parse_c_str(bytes))
}

/// The four little-endian bytes of `x`.
pub open spec fn le_bytes_u32(x: u32) -> Seq<u8> {
    seq![
        (x % 0x100) as u8,
        ((x / 0x100) % 0x100) as u8,
        ((x / 0x10000) % 0x100) as u8,
        ((x / 0x1000000) % 0x100) as u8,
    ]
}

/// Reading back what the sim wrote: four bytes holding `x` in little-endian
/// order read as `x`, and as the same signed number when `x` is an `i32`'s bits.
pub proof fn lemma_le_u32_round_trip(x: u32, data: Seq<u8>, off: int)
    requires
        0 <= off,
        off + 4 <= data.len(),
        data.subrange(off, off + 4) == le_bytes_u32(x),
    ensures
        le_u32(data, off) == x,
        (le_u32(data, off) as i32) == (x as i32),
{
    assert(data[off] == le_bytes_u32(x)[0]);
    assert(data[off + 1] == le_bytes_u32(x)[1]);
    assert(data[off + 2] == le_bytes_u32(x)[2]);
    assert(data[off + 3] == le_bytes_u32(x)[3]);
    assert(x == (x % 0x100) + ((x / 0x100) % 0x100) * 0x100 + ((x / 0x10000) % 0x100) * 0x10000 + (
    (x / 0x1000000) % 0x100) * 0x1000000) by (bit_vector);
}

/// The number `width` bytes from `at` hold in little-endian order: the first
/// byte lowest.
pub open spec fn le_word(data: Seq<u8>, at: int, width: nat) -> nat
    decreases width,
{
    if width == 0 {
        0
    } else {
        data[at] as nat + 256 * le_word(data, at + 1, (width - 1) as nat)
    }
}

/// A 32-bit word read as a two's-complement signed number.
pub open spec fn signed32(x: nat) -> int {
    if x < 0x8000_0000 {
        x as int
    } else {
        x - 0x1_0000_0000
    }
}

proof fn lemma_le_u32_word(data: Seq<u8>, at: int)
    requires
        0 <= at,
        at + 4 <= data.len(),
    ensures
        le_u32(data, at) as nat == le_word(data, at, 4),
        le_word(data, at, 4) < 0x1_0000_0000,
        (le_u32(data, at) as i32) as int == signed32(le_word(data, at, 4)),
{
    reveal_with_fuel(le_word, 5);
    let sum = data[at] + data[at + 1] * 0x100 + data[at + 2] * 0x10000 + data[at + 3] * 0x1000000;
    assert(0 <= sum < 0x1_0000_0000);
    assert(sum == le_word(data, at, 4));
    let x = le_u32(data, at);
    assert(x as int == sum);
    assert((x as i32) as int == if x < 0x8000_0000u32 {
        x as int
    } else {
        x as int - 0x1_0000_0000
    }) by (bit_vector);
}

proof fn lemma_le_u64_word(data: Seq<u8>, at: int)
    requires
        0 <= at,
        at + 8 <= data.len(),
    ensures
        le_u64(data, at) as nat == le_word(data, at, 8),
{
    lemma_le_u32_word(data, at);
    lemma_le_u32_word(data, at + 4);
    reveal_with_fuel(le_word, 9);
    assert(le_word(data, at, 8) == le_word(data, at, 4) + 0x1_0000_0000 * le_word(data, at + 4, 4));
}

proof fn lemma_element_fits(off: int, n: int, size: int, k: int)
    requires
        0 <= k < n,
        0 <= off,
        size > 0,
    ensures
        off + size * k + size <= off + n * size,
        0 <= off + size * k,
{
    assert(size * k + size <= n * size) by (nonlinear_arith)
        requires
            0 <= k < n,
            size > 0,
    ;
    assert(0 <= size * k) by (nonlinear_arith)
        requires
            0 <= k,
            size > 0,
    ;
}

/// An array variable's elements tile its data: element `k` of a `count`
/// element variable is read from the `size` bytes at `offset + size * k`,
/// little-endian, where `size` is the type's width (4 for ints, bit fields
/// and floats, 8 for doubles, 1 for flags). Floats and doubles keep their
/// bits, ints and bit fields read as signed 32-bit numbers, and a flag is set
/// when its byte is non-zero.
pub proof fn lemma_array_elements(var: irsdk_varHeader, data: Seq<u8>, v: TelemetryValue)
    requires
        var_fits(var, data.len() as int),
        var.count != 1,
        reads_as(var, data, v),
    ensures
        var_type_of(var.type_) == Some(VarType::Float) ==> (v matches TelemetryValue::FloatArray(a)
            && a@.len() == var.count && forall|k: int|
            0 <= k < var.count ==> #[trigger] a@[k] as nat == le_word(data, var.offset + 4 * k, 4)),
        var_type_of(var.type_) == Some(VarType::Double) ==> (v matches TelemetryValue::DoubleArray(
            a,
        ) && a@.len() == var.count && forall|k: int|
            0 <= k < var.count ==> #[trigger] a@[k] as nat == le_word(data, var.offset + 8 * k, 8)),
        (var_type_of(var.type_) == Some(VarType::Int) || var_type_of(var.type_) == Some(
            VarType::BitField,
        )) ==> (v matches TelemetryValue::IntArray(a) && a@.len() == var.count && forall|k: int|
            0 <= k < var.count ==> #[trigger] a@[k] as int == signed32(
                le_word(data, var.offset + 4 * k, 4),
            )),
        var_type_of(var.type_) == Some(VarType::Bool) ==> (v matches TelemetryValue::BoolArray(a)
            && a@.len() == var.count && forall|k: int|
            0 <= k < var.count ==> #[trigger] a@[k] == (data[var.offset + k] != 0)),
{
    let off = var.offset as int;
    let n = var.count as int;
    match v {
        TelemetryValue::FloatArray(a) => {
            if var_type_of(var.type_) == Some(VarType::Float) {
                assert forall|k: int| 0 <= k < n implies #[trigger] a@[k] as nat == le_word(
                    data,
                    off + 4 * k,
                    4,
                ) by {
                    lemma_element_fits(off, n, 4, k);
                    lemma_le_u32_word(data, off + 4 * k);
                }
            }
        },
        TelemetryValue::DoubleArray(a) => {
            if var_type_of(var.type_) == Some(VarType::Double) {
                assert forall|k: int| 0 <= k < n implies #[trigger] a@[k] as nat == le_word(
                    data,
                    off + 8 * k,
                    8,
                ) by {
                    lemma_element_fits(off, n, 8, k);
                    lemma_le_u64_word(data, off + 8 * k);
                }
            }
        },
        TelemetryValue::IntArray(a) => {
            if var_type_of(var.type_) == Some(VarType::Int) || var_type_of(var.type_) == Some(
                VarType::BitField,
            ) {
                assert forall|k: int| 0 <= k < n implies #[trigger] a@[k] as int == signed32(
                    le_word(data, off + 4 * k, 4),
                ) by {
                    lemma_element_fits(off, n, 4, k);
                    lemma_le_u32_word(data, off + 4 * k);
                }
            }
        },
        _ => {},
    }
}

/// A scalar variable (count 1) is read from the first `size` bytes at its
/// offset, little-endian: a float or double keeps its bits, an int reads
/// as a signed 32-bit number, a bit field as an unsigned one, a flag is set
/// when its byte is non-zero.
pub proof fn lemma_scalar_value(var: irsdk_varHeader, data: Seq<u8>, v: TelemetryValue)
    requires
        var_fits(var, data.len() as int),
        var.count == 1,
        reads_as(var, data, v),
    ensures
        var_type_of(var.type_) == Some(VarType::Float) ==> (v matches TelemetryValue::Float(x) && x
            as nat == le_word(data, var.offset as int, 4)),
        var_type_of(var.type_) == Some(VarType::Double) ==> (v matches TelemetryValue::Double(x)
            && x as nat == le_word(data, var.offset as int, 8)),
        var_type_of(var.type_) == Some(VarType::Int) ==> (v matches TelemetryValue::Int(x) && x as int
            == signed32(le_word(data, var.offset as int, 4))),
        var_type_of(var.type_) == Some(VarType::BitField) ==> (v matches TelemetryValue::BitField(x)
            && x as nat == le_word(data, var.offset as int, 4)),
        var_type_of(var.type_) == Some(VarType::Bool) ==> v == TelemetryValue::Bool(
            data[var.offset as int] != 0,
        ),
{
    let off = var.offset as int;
    match var_type_of(var.type_) {
        Some(VarType::Double) => {
            lemma_le_u64_word(data, off);
        },
        Some(VarType::Float) | Some(VarType::Int) | Some(VarType::BitField) => {
            lemma_le_u32_word(data, off);
        },
        _ => {},
    }
}

} // verus!
