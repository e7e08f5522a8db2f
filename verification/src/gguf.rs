//! Reading the metadata header of a GGUF model file.
//!
//! A GGUF file starts with the magic bytes `GGUF`, a little-endian `u32`
//! version (2 or 3 are accepted), a `u64` tensor count and a `u64` count of
//! metadata entries. Each entry is a length-prefixed key, a `u32` value type
//! code and a value. The parser keeps the architecture, the model name, the
//! file type and the architecture's context length, block count, embedding
//! length and attention head counts.
use crate::text::{decimal, string_from_utf8_lossy, u64_to_string, utf8_lossy};
use vstd::prelude::*;
use vstd::string::*;

verus! {

/// Why reading the byte stream failed.
#[derive(Debug, Clone, Copy, PartialEq, Eq, Structural)]
pub enum ReadError {
    /// The data ended before the item being read.
    UnexpectedEof,
    /// An array declared an element type code that GGUF does not define.
    UnknownValueType(u32),
}

/// Why a GGUF header could not be read.
#[derive(Debug, Clone)]
pub enum GgufError {
    /// The byte stream ended early or held an undefined array element type.
    Io(ReadError),
    /// The data is not a usable GGUF header; the text says why.
    InvalidFormat(String),
    /// The header's version is neither 2 nor 3.
    UnsupportedVersion(u32),
}

/// The mathematical model of a [`GgufError`].
pub enum GgufErrorView {
    Io(ReadError),
    InvalidFormat(Seq<char>),
    UnsupportedVersion(u32),
}

impl View for GgufError {
    type V = GgufErrorView;

    open spec fn view(&self) -> GgufErrorView {
        match self {
            GgufError::Io(e) => GgufErrorView::Io(*e),
            GgufError::InvalidFormat(s) => GgufErrorView::InvalidFormat(s@),
            GgufError::UnsupportedVersion(v) => GgufErrorView::UnsupportedVersion(*v),
        }
    }
}

/// The metadata kept from a GGUF header.
#[derive(Debug, Clone)]
pub struct GgufInfo {
    pub architecture: String,
    pub block_count: u64,
    pub context_length: u64,
    pub embedding_length: u64,
    pub head_count: u64,
    pub head_count_kv: u64,
    pub file_type: u32,
    pub file_size: u64,
    pub model_name: String,
}

/// The mathematical model of a [`GgufInfo`].
pub struct GgufInfoView {
    pub architecture: Seq<char>,
    pub block_count: u64,
    pub context_length: u64,
    pub embedding_length: u64,
    pub head_count: u64,
    pub head_count_kv: u64,
    pub file_type: u32,
    pub file_size: u64,
    pub model_name: Seq<char>,
}

impl View for GgufInfo {
    type V = GgufInfoView;

    open spec fn view(&self) -> GgufInfoView {
        GgufInfoView {
            architecture: self.architecture@,
            block_count: self.block_count,
            context_length: self.context_length,
            embedding_length: self.embedding_length,
            head_count: self.head_count,
            head_count_kv: self.head_count_kv,
            file_type: self.file_type,
            file_size: self.file_size,
            model_name: self.model_name@,
        }
    }
}

/// The value types of GGUF metadata.
#[derive(Debug, Clone, Copy, PartialEq, Eq, Structural)]
pub enum GgufType {
    U8,
    I8,
    U16,
    I16,
    U32,
    I32,
    F32,
    Bool,
    String,
    Array,
    U64,
    I64,
    F64,
}

/// The value type that a GGUF type code names, if any.
pub open spec fn type_of_code(v: u32) -> Option<GgufType> {
    if v == 0 {
        Some(GgufType::U8)
    } else if v == 1 {
        Some(GgufType::I8)
    } else if v == 2 {
        Some(GgufType::U16)
    } else if v == 3 {
        Some(GgufType::I16)
    } else if v == 4 {
        Some(GgufType::U32)
    } else if v == 5 {
        Some(GgufType::I32)
    } else if v == 6 {
        Some(GgufType::F32)
    } else if v == 7 {
        Some(GgufType::Bool)
    } else if v == 8 {
        Some(GgufType::String)
    } else if v == 9 {
        Some(GgufType::Array)
    } else if v == 10 {
        Some(GgufType::U64)
    } else if v == 11 {
        Some(GgufType::I64)
    } else if v == 12 {
        Some(GgufType::F64)
    } else {
        None
    }
}

/// The message given for an undefined value type code.
pub open spec fn unknown_type_message(v: u32) -> Seq<char> {
    "Unknown value type: "@ + decimal(v as nat)
}

fn unknown_type_error(v: u32) -> (e: GgufError)
    ensures
        e@ == GgufErrorView::InvalidFormat(unknown_type_message(v)),
{
    let mut msg = String::from_str("Unknown value type: ");
    let digits = u64_to_string(v as u64);
    msg.append(digits.as_str());
    GgufError::InvalidFormat(msg)
}

impl GgufType {
    /// The value type for a type code, or an `InvalidFormat` error naming
    /// the code.
    pub fn from_u32(v: u32) -> (r: Result<GgufType, GgufError>)
        ensures
            match type_of_code(v) {
                Some(t) => r == Ok::<GgufType, GgufError>(t),
                None => r matches Err(e) && e@ == GgufErrorView::InvalidFormat(
                    unknown_type_message(v),
                ),
            },
    {
        if v == 0 {
            Ok(GgufType::U8)
        } else if v == 1 {
            Ok(GgufType::I8)
        } else if v == 2 {
            Ok(GgufType::U16)
        } else if v == 3 {
            Ok(GgufType::I16)
        } else if v == 4 {
            Ok(GgufType::U32)
        } else if v == 5 {
            Ok(GgufType::I32)
        } else if v == 6 {
            Ok(GgufType::F32)
        } else if v == 7 {
            Ok(GgufType::Bool)
        } else if v == 8 {
            Ok(GgufType::String)
        } else if v == 9 {
            Ok(GgufType::Array)
        } else if v == 10 {
            Ok(GgufType::U64)
        } else if v == 11 {
            Ok(GgufType::I64)
        } else if v == 12 {
            Ok(GgufType::F64)
        } else {
            Err(unknown_type_error(v))
        }
    }
}

/// A metadata value. Floating-point values are kept as their IEEE-754 bit
/// patterns; an array keeps its element type and length, its elements are
/// read and checked but not kept.
#[derive(Debug, Clone)]
pub enum GgufValue {
    U8(u8),
    I8(i8),
    U16(u16),
    I16(i16),
    U32(u32),
    I32(i32),
    F32(u32),
    Bool(bool),
    String(String),
    U64(u64),
    I64(i64),
    F64(u64),
    Array { elem_type: GgufType, len: u64 },
}

/// The mathematical model of a [`GgufValue`].
pub enum GgufValueView {
    U8(u8),
    I8(i8),
    U16(u16),
    I16(i16),
    U32(u32),
    I32(i32),
    F32(u32),
    Bool(bool),
    Str(Seq<char>),
    U64(u64),
    I64(i64),
    F64(u64),
    Array(GgufType, u64),
}

impl View for GgufValue {
    type V = GgufValueView;

    open spec fn view(&self) -> GgufValueView {
        match self {
            GgufValue::U8(x) => GgufValueView::U8(*x),
            GgufValue::I8(x) => GgufValueView::I8(*x),
            GgufValue::U16(x) => GgufValueView::U16(*x),
            GgufValue::I16(x) => GgufValueView::I16(*x),
            GgufValue::U32(x) => GgufValueView::U32(*x),
            GgufValue::I32(x) => GgufValueView::I32(*x),
            GgufValue::F32(x) => GgufValueView::F32(*x),
            GgufValue::Bool(x) => GgufValueView::Bool(*x),
            GgufValue::String(s) => GgufValueView::Str(s@),
            GgufValue::U64(x) => GgufValueView::U64(*x),
            GgufValue::I64(x) => GgufValueView::I64(*x),
            GgufValue::F64(x) => GgufValueView::F64(*x),
            GgufValue::Array { elem_type, len } => GgufValueView::Array(*elem_type, *len),
        }
    }
}

/// Little-endian `u16` at `p`.
pub open spec fn le_u16(d: Seq<u8>, p: int) -> u16 {
    (d[p] as int + d[p + 1] as int * 0x100) as u16
}

/// Little-endian `u32` at `p`.
pub open spec fn le_u32(d: Seq<u8>, p: int) -> u32 {
    (d[p] as int + d[p + 1] as int * 0x100 + d[p + 2] as int * 0x10000 + d[p + 3] as int
        * 0x1000000) as u32
}

/// Little-endian `u64` at `p`.
pub open spec fn le_u64(d: Seq<u8>, p: int) -> u64 {
    (le_u32(d, p) as int + le_u32(d, p + 4) as int * 0x1_0000_0000) as u64
}

/// A length-prefixed string at `p`: its characters and the position after it.
pub open spec fn string_at(d: Seq<u8>, p: int) -> Result<(Seq<char>, int), ReadError> {
    if p + 8 > d.len() {
        Err(ReadError::UnexpectedEof)
    } else {
        let n = le_u64(d, p);
        if p + 8 + n > d.len() {
            Err(ReadError::UnexpectedEof)
        } else {
            Ok((utf8_lossy(d.subrange(p + 8, p + 8 + n)), p + 8 + n))
        }
    }
}

/// A value of type `t` at `p`: the value and the position after it.
pub open spec fn value_at(d: Seq<u8>, p: int, t: GgufType) -> Result<(GgufValueView, int), ReadError>
    decreases d.len() - p, 0int,
{
    match t {
        GgufType::U8 => if p + 1 <= d.len() {
            Ok((GgufValueView::U8(d[p]), p + 1))
        } else {
            Err(ReadError::UnexpectedEof)
        },
        GgufType::I8 => if p + 1 <= d.len() {
            Ok((GgufValueView::I8(d[p] as i8), p + 1))
        } else {
            Err(ReadError::UnexpectedEof)
        },
        GgufType::U16 => if p + 2 <= d.len() {
            Ok((GgufValueView::U16(le_u16(d, p)), p + 2))
        } else {
            Err(ReadError::UnexpectedEof)
        },
        GgufType::I16 => if p + 2 <= d.len() {
            Ok((GgufValueView::I16(le_u16(d, p) as i16), p + 2))
        } else {
            Err(ReadError::UnexpectedEof)
        },
        GgufType::U32 => if p + 4 <= d.len() {
            Ok((GgufValueView::U32(le_u32(d, p)), p + 4))
        } else {
            Err(ReadError::UnexpectedEof)
        },
        GgufType::I32 => if p + 4 <= d.len() {
            Ok((GgufValueView::I32(le_u32(d, p) as i32), p + 4))
        } else {
            Err(ReadError::UnexpectedEof)
        },
        GgufType::F32 => if p + 4 <= d.len() {
            Ok((GgufValueView::F32(le_u32(d, p)), p + 4))
        } else {
            Err(ReadError::UnexpectedEof)
        },
        GgufType::Bool => if p + 1 <= d.len() {
            Ok((GgufValueView::Bool(d[p] != 0), p + 1))
        } else {
            Err(ReadError::UnexpectedEof)
        },
        GgufType::String => match string_at(d, p) {
            Ok((s, e)) => Ok((GgufValueView::Str(s), e)),
            Err(x) => Err(x),
        },
        GgufType::U64 => if p + 8 <= d.len() {
            Ok((GgufValueView::U64(le_u64(d, p)), p + 8))
        } else {
            Err(ReadError::UnexpectedEof)
        },
        GgufType::I64 => if p + 8 <= d.len() {
            Ok((GgufValueView::I64(le_u64(d, p) as i64), p + 8))
        } else {
            Err(ReadError::UnexpectedEof)
        },
        GgufType::F64 => if p + 8 <= d.len() {
            Ok((GgufValueView::F64(le_u64(d, p)), p + 8))
        } else {
            Err(ReadError::UnexpectedEof)
        },
        GgufType::Array => if p + 4 > d.len() {
            Err(ReadError::UnexpectedEof)
        } else {
            match type_of_code(le_u32(d, p)) {
                None => Err(ReadError::UnknownValueType(le_u32(d, p))),
                Some(et) => if p + 12 > d.len() {
                    Err(ReadError::UnexpectedEof)
                } else {
                    let n = le_u64(d, p + 4);
                    match elems_end(d, p + 12, et, n as nat) {
                        Ok(e) => Ok((GgufValueView::Array(et, n), e)),
                        Err(x) => Err(x),
                    }
                },
            }
        },
    }
}

/// The position after `n` values of type `t` starting at `p`.
pub open spec fn elems_end(d: Seq<u8>, p: int, t: GgufType, n: nat) -> Result<int, ReadError>
    decreases d.len() - p, 1int,
{
    if n == 0 {
        Ok(p)
    } else {
        match value_at(d, p, t) {
            Err(x) => Err(x),
            Ok((_, e)) => if p < e <= d.len() {
                elems_end(d, e, t, (n - 1) as nat)
            } else {
                Err(ReadError::UnexpectedEof)
            },
        }
    }
}

proof fn lemma_elems_end_bounds(d: Seq<u8>, p: int, t: GgufType, n: nat)
    requires
        0 <= p <= d.len(),
    ensures
        elems_end(d, p, t, n) matches Ok(e) ==> p <= e <= d.len(),
    decreases n,
{
    if n > 0 {
        if let Ok((_, e)) = value_at(d, p, t) {
            if p < e <= d.len() {
                lemma_elems_end_bounds(d, e, t, (n - 1) as nat);
            }
        }
    }
}

proof fn lemma_value_at_bounds(d: Seq<u8>, p: int, t: GgufType)
    requires
        0 <= p <= d.len(),
    ensures
        value_at(d, p, t) matches Ok((_, e)) ==> p < e <= d.len(),
{
    if t == GgufType::Array && p + 12 <= d.len() {
        lemma_elems_end_bounds(d, p + 12, t, 0);
        if let Some(et) = type_of_code(le_u32(d, p)) {
            lemma_elems_end_bounds(d, p + 12, et, le_u64(d, p + 4) as nat);
        }
    }
}

/// How the exec result of reading a value stands to [`value_at`].
pub open spec fn value_read_matches(
    expected: Result<(GgufValueView, int), ReadError>,
    r: Result<GgufValue, ReadError>,
    pos: int,
) -> bool {
    match expected {
        Ok((v, e)) => r matches Ok(x) && x@ == v && pos == e,
        Err(err) => r == Err::<GgufValue, ReadError>(err),
    }
}

/// A read position in a byte slice.
pub struct ByteCursor<'a> {
    pub data: &'a [u8],
    pub pos: usize,
}

/// Reads `n` bytes, or fails with `UnexpectedEof` leaving the position as
/// it was.
pub fn read_exact(cursor: &mut ByteCursor, n: usize) -> (r: Result<Vec<u8>, ReadError>)
    requires
        old(cursor).pos <= old(cursor).data@.len(),
    ensures
        final(cursor).data == old(cursor).data,
        final(cursor).pos <= final(cursor).data@.len(),
        if old(cursor).pos + n <= old(cursor).data@.len() {
            &&& r matches Ok(v) && v@ == old(cursor).data@.subrange(
                old(cursor).pos as int,
                old(cursor).pos + n,
            )
            &&& final(cursor).pos == old(cursor).pos + n
        } else {
            &&& r == Err::<Vec<u8>, ReadError>(ReadError::UnexpectedEof)
            &&& final(cursor).pos == old(cursor).pos
        },
{
    let len = cursor.data.len();
    if n > len - cursor.pos {
        return Err(ReadError::UnexpectedEof);
    }
    let start = cursor.pos;
    let mut buf: Vec<u8> = Vec::new();
    let mut i: usize = 0;
    while i < n
        invariant
            len == cursor.data@.len(),
            start + n <= len,
            i <= n,
            buf@ == cursor.data@.subrange(start as int, start + i),
        decreases n - i,
    {
        buf.push(cursor.data[start + i]);
        i = i + 1;
        assert(buf@ =~= cursor.data@.subrange(start as int, start + i));
    }
    cursor.pos = start + n;
    Ok(buf)
}

/// Reads a little-endian `u32`.
pub fn read_u32(cursor: &mut ByteCursor) -> (r: Result<u32, ReadError>)
    requires
        old(cursor).pos <= old(cursor).data@.len(),
    ensures
        final(cursor).data == old(cursor).data,
        final(cursor).pos <= final(cursor).data@.len(),
        if old(cursor).pos + 4 <= old(cursor).data@.len() {
            &&& r == Ok::<u32, ReadError>(le_u32(old(cursor).data@, old(cursor).pos as int))
            &&& final(cursor).pos == old(cursor).pos + 4
        } else {
            &&& r == Err::<u32, ReadError>(ReadError::UnexpectedEof)
            &&& final(cursor).pos == old(cursor).pos
        },
{
    let ghost d = cursor.data@;
    let ghost p = cursor.pos as int;
    let b = read_exact(cursor, 4)?;
    assert(b@[0] == d[p] && b@[1] == d[p + 1] && b@[2] == d[p + 2] && b@[3] == d[p + 3]);
    let v: u32 = (b[0] as u32) + (b[1] as u32) * 0x100 + (b[2] as u32) * 0x10000 + (b[3] as u32)
        * 0x1000000;
    Ok(v)
}

/// Reads a little-endian `u64`.
pub fn read_u64(cursor: &mut ByteCursor) -> (r: Result<u64, ReadError>)
    requires
        old(cursor).pos <= old(cursor).data@.len(),
    ensures
        final(cursor).data == old(cursor).data,
        final(cursor).pos <= final(cursor).data@.len(),
        if old(cursor).pos + 8 <= old(cursor).data@.len() {
            &&& r == Ok::<u64, ReadError>(le_u64(old(cursor).data@, old(cursor).pos as int))
            &&& final(cursor).pos == old(cursor).pos + 8
        } else {
            &&& r == Err::<u64, ReadError>(ReadError::UnexpectedEof)
            &&& final(cursor).pos == old(cursor).pos
        },
{
    let ghost d = cursor.data@;
    let ghost p = cursor.pos as int;
    if cursor.data.len() - cursor.pos < 8 {
        return Err(ReadError::UnexpectedEof);
    }
    let lo = read_u32(cursor)?;
    let hi = read_u32(cursor)?;
    let v: u64 = (lo as u64) + (hi as u64) * 0x1_0000_0000;
    Ok(v)
}

/// Reads a little-endian `i64`.
pub fn read_i64(cursor: &mut ByteCursor) -> (r: Result<i64, ReadError>)
    requires
        old(cursor).pos <= old(cursor).data@.len(),
    ensures
        final(cursor).data == old(cursor).data,
        final(cursor).pos <= final(cursor).data@.len(),
        if old(cursor).pos + 8 <= old(cursor).data@.len() {
            &&& r == Ok::<i64, ReadError>(
                le_u64(old(cursor).data@, old(cursor).pos as int) as i64,
            )
            &&& final(cursor).pos == old(cursor).pos + 8
        } else {
            &&& r == Err::<i64, ReadError>(ReadError::UnexpectedEof)
            &&& final(cursor).pos == old(cursor).pos
        },
{
    let v = read_u64(cursor)?;
    Ok(v as i64)
}

/// Reads a one-byte boolean: any byte other than zero is `true`.
pub fn read_bool(cursor: &mut ByteCursor) -> (r: Result<bool, ReadError>)
    requires
        old(cursor).pos <= old(cursor).data@.len(),
    ensures
        final(cursor).data == old(cursor).data,
        final(cursor).pos <= final(cursor).data@.len(),
        if old(cursor).pos + 1 <= old(cursor).data@.len() {
            &&& r == Ok::<bool, ReadError>(old(cursor).data@[old(cursor).pos as int] != 0)
            &&& final(cursor).pos == old(cursor).pos + 1
        } else {
            &&& r == Err::<bool, ReadError>(ReadError::UnexpectedEof)
            &&& final(cursor).pos == old(cursor).pos
        },
{
    let b = read_exact(cursor, 1)?;
    Ok(b[0] != 0)
}

/// Reads a string: a `u64` byte length, then that many bytes, decoded as
/// UTF-8 with ill-formed parts replaced.
pub fn read_string(cursor: &mut ByteCursor) -> (r: Result<String, ReadError>)
    requires
        old(cursor).pos <= old(cursor).data@.len(),
    ensures
        final(cursor).data == old(cursor).data,
        final(cursor).pos <= final(cursor).data@.len(),
        match string_at(old(cursor).data@, old(cursor).pos as int) {
            Ok((s, e)) => r matches Ok(x) && x@ == s && final(cursor).pos == e,
            Err(err) => r == Err::<String, ReadError>(err),
        },
{
    let ghost d = cursor.data@;
    let ghost p = cursor.pos as int;
    let len = read_u64(cursor)?;
    if len > (cursor.data.len() - cursor.pos) as u64 {
        return Err(ReadError::UnexpectedEof);
    }
    let bytes = read_exact(cursor, len as usize)?;
    let s = string_from_utf8_lossy(bytes.as_slice());
    Ok(s)
}

/// Reads `n` bytes and returns the little-endian `u16` they hold.
fn read_u16(cursor: &mut ByteCursor) -> (r: Result<u16, ReadError>)
    requires
        old(cursor).pos <= old(cursor).data@.len(),
    ensures
        final(cursor).data == old(cursor).data,
        final(cursor).pos <= final(cursor).data@.len(),
        if old(cursor).pos + 2 <= old(cursor).data@.len() {
            &&& r == Ok::<u16, ReadError>(le_u16(old(cursor).data@, old(cursor).pos as int))
            &&& final(cursor).pos == old(cursor).pos + 2
        } else {
            &&& r == Err::<u16, ReadError>(ReadError::UnexpectedEof)
            &&& final(cursor).pos == old(cursor).pos
        },
{
    let ghost d = cursor.data@;
    let ghost p = cursor.pos as int;
    let b = read_exact(cursor, 2)?;
    assert(b@[0] == d[p] && b@[1] == d[p + 1]);
    let v: u16 = (b[0] as u16) + (b[1] as u16) * 0x100;
    Ok(v)
}

/// Reads a value of type `val_type`. An array's elements are read one by
/// one and checked, then dropped; the array keeps its element type and
/// length.
pub fn read_value(cursor: &mut ByteCursor, val_type: &GgufType) -> (r: Result<GgufValue, ReadError>)
    requires
        old(cursor).pos <= old(cursor).data@.len(),
    ensures
        final(cursor).data == old(cursor).data,
        final(cursor).pos <= final(cursor).data@.len(),
        value_read_matches(
            value_at(old(cursor).data@, old(cursor).pos as int, *val_type),
            r,
            final(cursor).pos as int,
        ),
    decreases old(cursor).data@.len() - old(cursor).pos,
{
    let ghost d = cursor.data@;
    let ghost p = cursor.pos as int;
    let ghost od: &[u8] = cursor.data;
    match val_type {
        GgufType::U8 => {
            let b = read_exact(cursor, 1)?;
            Ok(GgufValue::U8(b[0]))
        },
        GgufType::I8 => {
            let b = read_exact(cursor, 1)?;
            Ok(GgufValue::I8(b[0] as i8))
        },
        GgufType::U16 => {
            let v = read_u16(cursor)?;
            Ok(GgufValue::U16(v))
        },
        GgufType::I16 => {
            let v = read_u16(cursor)?;
            Ok(GgufValue::I16(v as i16))
        },
        GgufType::U32 => {
            let v = read_u32(cursor)?;
            Ok(GgufValue::U32(v))
        },
        GgufType::I32 => {
            let v = read_u32(cursor)?;
            Ok(GgufValue::I32(v as i32))
        },
        GgufType::F32 => {
            let v = read_u32(cursor)?;
            Ok(GgufValue::F32(v))
        },
        GgufType::Bool => {
            let v = read_bool(cursor)?;
            Ok(GgufValue::Bool(v))
        },
        GgufType::String => {
            let s = read_string(cursor)?;
            Ok(GgufValue::String(s))
        },
        GgufType::U64 => {
            let v = read_u64(cursor)?;
            Ok(GgufValue::U64(v))
        },
        GgufType::I64 => {
            let v = read_i64(cursor)?;
            Ok(GgufValue::I64(v))
        },
        GgufType::F64 => {
            let v = read_u64(cursor)?;
            Ok(GgufValue::F64(v))
        },
        GgufType::Array => {
            let code = read_u32(cursor)?;
            let elem_type = match GgufType::from_u32(code) {
                Ok(t) => t,
                Err(_) => {
                    return Err(ReadError::UnknownValueType(code));
                },
            };
            let count = read_u64(cursor)?;
            let ghost base = cursor.pos as int;
            assert(base == p + 12);
            let mut i: u64 = 0;
            while i < count
                invariant
                    cursor.data == od,
                    od == old(cursor).data,
                    od@ == d,
                    p == old(cursor).pos,
                    base <= cursor.pos <= d.len(),
                    i <= count,
                    elems_end(d, base, elem_type, count as nat) == elems_end(
                        d,
                        cursor.pos as int,
                        elem_type,
                        (count - i) as nat,
                    ),
                    p + 12 == base,
                    0 <= p,
                    p + 12 <= d.len(),
                    type_of_code(le_u32(d, p)) == Some(elem_type),
                    count == le_u64(d, p + 4),
                    *val_type == GgufType::Array,
                decreases count - i,
            {
                let ghost q = cursor.pos as int;
                proof {
                    lemma_value_at_bounds(d, q, elem_type);
                }
                match read_value(cursor, &elem_type) {
                    Ok(_) => {},
                    Err(e) => {
                        assert(elems_end(d, q, elem_type, (count - i) as nat) == Err::<
                            int,
                            ReadError,
                        >(e));
                        return Err(e);
                    },
                }
                i = i + 1;
            }
            Ok(GgufValue::Array { elem_type, len: count })
        },
    }
}

/// The metadata fields gathered while reading the entries.
pub struct MetaState {
    pub architecture: Seq<char>,
    pub block_count: u64,
    pub context_length: u64,
    pub embedding_length: u64,
    pub head_count: u64,
    pub head_count_kv: u64,
    pub file_type: u32,
    pub model_name: Seq<char>,
}

/// The state before any entry is read.
pub open spec fn initial_meta() -> MetaState {
    MetaState {
        architecture: Seq::empty(),
        block_count: 0,
        context_length: 0,
        embedding_length: 0,
        head_count: 0,
        head_count_kv: 0,
        file_type: 0,
        model_name: Seq::empty(),
    }
}

/// The count a `u64` or `u32` value gives, if it is one of those.
pub open spec fn count_value(v: GgufValueView) -> Option<u64> {
    match v {
        GgufValueView::U64(x) => Some(x),
        GgufValueView::U32(x) => Some(x as u64),
        _ => None,
    }
}

/// The general keys: `general.architecture` and `general.name` take string
/// values, `general.file_type` a `u32`.
pub open spec fn apply_general(s: MetaState, key: Seq<char>, v: GgufValueView) -> MetaState {
    if key == "general.architecture"@ {
        match v {
            GgufValueView::Str(x) => MetaState { architecture: x, ..s },
            _ => s,
        }
    } else if key == "general.name"@ {
        match v {
            GgufValueView::Str(x) => MetaState { model_name: x, ..s },
            _ => s,
        }
    } else if key == "general.file_type"@ {
        match v {
            GgufValueView::U32(x) => MetaState { file_type: x, ..s },
            _ => s,
        }
    } else {
        s
    }
}

/// The architecture-specific keys, named after the architecture known so far.
pub open spec fn apply_arch(s: MetaState, key: Seq<char>, v: GgufValueView) -> MetaState {
    let a = s.architecture;
    if a.len() == 0 {
        s
    } else {
        let s1 = if key == a + ".context_length"@ && count_value(v) is Some {
            MetaState { context_length: count_value(v)->0, ..s }
        } else {
            s
        };
        let s2 = if key == a + ".block_count"@ && count_value(v) is Some {
            MetaState { block_count: count_value(v)->0, ..s1 }
        } else {
            s1
        };
        let s3 = if key == a + ".embedding_length"@ && count_value(v) is Some {
            MetaState { embedding_length: count_value(v)->0, ..s2 }
        } else {
            s2
        };
        let s4 = if key == a + ".attention.head_count"@ && count_value(v) is Some {
            MetaState { head_count: count_value(v)->0, ..s3 }
        } else {
            s3
        };
        if key == a + ".attention.head_count_kv"@ && count_value(v) is Some {
            MetaState { head_count_kv: count_value(v)->0, ..s4 }
        } else {
            s4
        }
    }
}

/// The state after one entry.
pub open spec fn apply_entry(s: MetaState, key: Seq<char>, v: GgufValueView) -> MetaState {
    apply_arch(apply_general(s, key, v), key, v)
}

/// One metadata entry at `p`: key, value and the position after it.
pub open spec fn entry_at(d: Seq<u8>, p: int) -> Result<
    (Seq<char>, GgufValueView, int),
    GgufErrorView,
> {
    match string_at(d, p) {
        Err(x) => Err(GgufErrorView::Io(x)),
        Ok((key, q)) => if q + 4 > d.len() {
            Err(GgufErrorView::Io(ReadError::UnexpectedEof))
        } else {
            match type_of_code(le_u32(d, q)) {
                None => Err(GgufErrorView::InvalidFormat(unknown_type_message(le_u32(d, q)))),
                Some(t) => match value_at(d, q + 4, t) {
                    Err(x) => Err(GgufErrorView::Io(x)),
                    Ok((v, e)) => Ok((key, v, e)),
                },
            }
        },
    }
}

/// The state after the `n` entries starting at `p`.
pub open spec fn entries_state(d: Seq<u8>, p: int, n: nat, s: MetaState) -> Result<
    MetaState,
    GgufErrorView,
>
    decreases n,
{
    if n == 0 {
        Ok(s)
    } else {
        match entry_at(d, p) {
            Err(x) => Err(x),
            Ok((key, v, e)) => entries_state(d, e, (n - 1) as nat, apply_entry(s, key, v)),
        }
    }
}

/// The `GGUF` magic bytes.
pub open spec fn gguf_magic() -> Seq<u8> {
    seq![0x47u8, 0x47u8, 0x55u8, 0x46u8]
}

/// The fallback model name: the file stem, or `unknown` without one.
pub open spec fn stem_name(stem: Option<Seq<char>>) -> Seq<char> {
    match stem {
        Some(s) => s,
        None => "unknown"@,
    }
}

/// What reading a GGUF header gives: the metadata, or the first error met.
pub open spec fn gguf_header(d: Seq<u8>, file_size: u64, stem: Option<Seq<char>>) -> Result<
    GgufInfoView,
    GgufErrorView,
> {
    if d.len() < 4 {
        Err(GgufErrorView::Io(ReadError::UnexpectedEof))
    } else if d.subrange(0, 4) != gguf_magic() {
        Err(GgufErrorView::InvalidFormat("Missing GGUF magic bytes"@))
    } else if d.len() < 8 {
        Err(GgufErrorView::Io(ReadError::UnexpectedEof))
    } else if le_u32(d, 4) < 2 || le_u32(d, 4) > 3 {
        Err(GgufErrorView::UnsupportedVersion(le_u32(d, 4)))
    } else if d.len() < 24 {
        Err(GgufErrorView::Io(ReadError::UnexpectedEof))
    } else {
        match entries_state(d, 24, le_u64(d, 16) as nat, initial_meta()) {
            Err(x) => Err(x),
            Ok(s) => if s.architecture.len() == 0 {
                Err(GgufErrorView::InvalidFormat("No general.architecture found in metadata"@))
            } else if s.block_count == 0 {
                Err(GgufErrorView::InvalidFormat("No block_count found for architecture"@))
            } else {
                Ok(
                    GgufInfoView {
                        architecture: s.architecture,
                        block_count: s.block_count,
                        context_length: s.context_length,
                        embedding_length: s.embedding_length,
                        head_count: s.head_count,
                        head_count_kv: s.head_count_kv,
                        file_type: s.file_type,
                        file_size,
                        model_name: if s.model_name.len() == 0 {
                            stem_name(stem)
                        } else {
                            s.model_name
                        },
                    },
                )
            },
        }
    }
}

/// The model of an optional string.
pub open spec fn opt_chars(s: Option<String>) -> Option<Seq<char>> {
    match s {
        Some(x) => Some(x@),
        None => None,
    }
}

/// The model of a parse result.
pub open spec fn info_result_view(r: Result<GgufInfo, GgufError>) -> Result<
    GgufInfoView,
    GgufErrorView,
> {
    match r {
        Ok(i) => Ok(i@),
        Err(e) => Err(e@),
    }
}

/// The exec counterpart of [`MetaState`].
struct Meta {
    architecture: String,
    block_count: u64,
    context_length: u64,
    embedding_length: u64,
    head_count: u64,
    head_count_kv: u64,
    file_type: u32,
    model_name: String,
}

impl View for Meta {
    type V = MetaState;

    closed spec fn view(&self) -> MetaState {
        MetaState {
            architecture: self.architecture@,
            block_count: self.block_count,
            context_length: self.context_length,
            embedding_length: self.embedding_length,
            head_count: self.head_count,
            head_count_kv: self.head_count_kv,
            file_type: self.file_type,
            model_name: self.model_name@,
        }
    }
}

fn count_of(v: &GgufValue) -> (r: Option<u64>)
    ensures
        r == count_value(v@),
{
    match v {
        GgufValue::U64(x) => Some(*x),
        GgufValue::U32(x) => Some(*x as u64),
        _ => None,
    }
}

fn arch_key(arch: &String, suffix: &str) -> (k: String)
    ensures
        k@ == arch@ + suffix@,
{
    arch.clone().concat(suffix)
}

fn apply_meta_entry(meta: &mut Meta, key: &String, value: &GgufValue)
    ensures
        final(meta)@ == apply_entry(old(meta)@, key@, value@),
{
    let general_arch = String::from_str("general.architecture");
    let general_name = String::from_str("general.name");
    let general_type = String::from_str("general.file_type");
    if *key == general_arch {
        if let GgufValue::String(s) = value {
            meta.architecture = s.clone();
        }
    } else if *key == general_name {
        if let GgufValue::String(s) = value {
            meta.model_name = s.clone();
        }
    } else if *key == general_type {
        if let GgufValue::U32(v) = value {
            meta.file_type = *v;
        }
    }
    let ghost s0 = meta@;
    assert(s0 == apply_general(old(meta)@, key@, value@));
    if meta.architecture.unicode_len() != 0 {
        let count = count_of(value);
        let k_ctx = arch_key(&meta.architecture, ".context_length");
        let k_block = arch_key(&meta.architecture, ".block_count");
        let k_embd = arch_key(&meta.architecture, ".embedding_length");
        let k_head = arch_key(&meta.architecture, ".attention.head_count");
        let k_head_kv = arch_key(&meta.architecture, ".attention.head_count_kv");
        if let Some(c) = count {
            if *key == k_ctx {
                meta.context_length = c;
            }
            if *key == k_block {
                meta.block_count = c;
            }
            if *key == k_embd {
                meta.embedding_length = c;
            }
            if *key == k_head {
                meta.head_count = c;
            }
            if *key == k_head_kv {
                meta.head_count_kv = c;
            }
        }
    }
}

fn read_entry(cursor: &mut ByteCursor) -> (r: Result<(String, GgufValue), GgufError>)
    requires
        old(cursor).pos <= old(cursor).data@.len(),
    ensures
        final(cursor).data == old(cursor).data,
        final(cursor).pos <= final(cursor).data@.len(),
        match entry_at(old(cursor).data@, old(cursor).pos as int) {
            Ok((k, v, e)) => r matches Ok((rk, rv)) && rk@ == k && rv@ == v && final(cursor).pos
                == e,
            Err(err) => r matches Err(x) && x@ == err,
        },
{
    let key = match read_string(cursor) {
        Ok(k) => k,
        Err(e) => {
            return Err(GgufError::Io(e));
        },
    };
    let code = match read_u32(cursor) {
        Ok(c) => c,
        Err(e) => {
            return Err(GgufError::Io(e));
        },
    };
    let val_type = GgufType::from_u32(code)?;
    let value = match read_value(cursor, &val_type) {
        Ok(v) => v,
        Err(e) => {
            return Err(GgufError::Io(e));
        },
    };
    Ok((key, value))
}

fn invalid_format(msg: &str) -> (e: GgufError)
    ensures
        e@ == GgufErrorView::InvalidFormat(msg@),
{
    GgufError::InvalidFormat(String::from_str(msg))
}

/// Reads the metadata of a GGUF file from its bytes. `file_size` is the
/// size that the file system reports; `file_stem` is the file name without
/// extension, used as the model name when the header has none.
pub fn parse_gguf(data: &[u8], file_size: u64, file_stem: Option<String>) -> (r: Result<
    GgufInfo,
    GgufError,
>)
    ensures
        info_result_view(r) == gguf_header(data@, file_size, opt_chars(file_stem)),
{
    let ghost d = data@;
    let mut cursor = ByteCursor { data, pos: 0 };
    let magic = match read_exact(&mut cursor, 4) {
        Ok(m) => m,
        Err(e) => {
            return Err(GgufError::Io(e));
        },
    };
    if !(magic[0] == 0x47 && magic[1] == 0x47 && magic[2] == 0x55 && magic[3] == 0x46) {
        assert(d.subrange(0, 4) != gguf_magic()) by {
            if d.subrange(0, 4) == gguf_magic() {
                assert(d.subrange(0, 4)[0] == gguf_magic()[0]);
                assert(d.subrange(0, 4)[1] == gguf_magic()[1]);
                assert(d.subrange(0, 4)[2] == gguf_magic()[2]);
                assert(d.subrange(0, 4)[3] == gguf_magic()[3]);
            }
        }
        return Err(invalid_format("Missing GGUF magic bytes"));
    }
    assert(d.subrange(0, 4) =~= gguf_magic());
    let version = match read_u32(&mut cursor) {
        Ok(v) => v,
        Err(e) => {
            return Err(GgufError::Io(e));
        },
    };
    if version < 2 || version > 3 {
        return Err(GgufError::UnsupportedVersion(version));
    }
    let _tensor_count = match read_u64(&mut cursor) {
        Ok(v) => v,
        Err(e) => {
            return Err(GgufError::Io(e));
        },
    };
    let kv_count = match read_u64(&mut cursor) {
        Ok(v) => v,
        Err(e) => {
            return Err(GgufError::Io(e));
        },
    };
    let mut meta = Meta {
        architecture: String::new(),
        block_count: 0,
        context_length: 0,
        embedding_length: 0,
        head_count: 0,
        head_count_kv: 0,
        file_type: 0,
        model_name: String::new(),
    };
    assert(meta@ =~= initial_meta());
    let mut i: u64 = 0;
    while i < kv_count
        invariant
            cursor.data@ == d,
            cursor.pos <= d.len(),
            i <= kv_count,
            kv_count == le_u64(d, 16),
            d == data@,
            d.len() >= 24,
            d.subrange(0, 4) == gguf_magic(),
            2 <= le_u32(d, 4) <= 3,
            entries_state(d, 24, kv_count as nat, initial_meta()) == entries_state(
                d,
                cursor.pos as int,
                (kv_count - i) as nat,
                meta@,
            ),
        decreases kv_count - i,
    {
        let ghost q = cursor.pos as int;
        let (key, value) = match read_entry(&mut cursor) {
            Ok(kv) => kv,
            Err(e) => {
                assert(entries_state(d, q, (kv_count - i) as nat, meta@) is Err);
                return Err(e);
            },
        };
        apply_meta_entry(&mut meta, &key, &value);
        i = i + 1;
    }
    if meta.architecture.unicode_len() == 0 {
        return Err(invalid_format("No general.architecture found in metadata"));
    }
    if meta.block_count == 0 {
        return Err(invalid_format("No block_count found for architecture"));
    }
    let model_name = if meta.model_name.unicode_len() == 0 {
        match file_stem {
            Some(s) => s,
            None => {
                proof {
                    reveal_strlit("unknown");
                }
                String::from_str("unknown")
            },
        }
    } else {
        meta.model_name
    };
    Ok(
        GgufInfo {
            architecture: meta.architecture,
            block_count: meta.block_count,
            context_length: meta.context_length,
            embedding_length: meta.embedding_length,
            head_count: meta.head_count,
            head_count_kv: meta.head_count_kv,
            file_type: meta.file_type,
            file_size,
            model_name,
        },
    )
}

/// Every fixed-width value takes exactly its width, little-endian: one byte
/// for `u8`, `i8` and `bool` (any nonzero byte is true), two for 16-bit,
/// four for 32-bit and eight for 64-bit values; a value cut short by the end
/// of the data is an unexpected end of file.
pub proof fn law_value_widths(d: Seq<u8>, p: int)
    requires
        0 <= p <= d.len(),
    ensures
        p + 1 <= d.len() ==> value_at(d, p, GgufType::Bool) == Ok::<(GgufValueView, int), ReadError>(
            (GgufValueView::Bool(d[p] != 0), p + 1),
        ),
        p + 1 <= d.len() ==> value_at(d, p, GgufType::U8) == Ok::<(GgufValueView, int), ReadError>(
            (GgufValueView::U8(d[p]), p + 1),
        ),
        p + 1 <= d.len() ==> value_at(d, p, GgufType::I8) == Ok::<(GgufValueView, int), ReadError>(
            (GgufValueView::I8(d[p] as i8), p + 1),
        ),
        p + 2 <= d.len() ==> value_at(d, p, GgufType::U16) == Ok::<(GgufValueView, int), ReadError>(
            (GgufValueView::U16((d[p] + 256 * d[p + 1]) as u16), p + 2),
        ),
        p + 2 <= d.len() ==> value_at(d, p, GgufType::I16) == Ok::<(GgufValueView, int), ReadError>(
            (GgufValueView::I16((d[p] + 256 * d[p + 1]) as u16 as i16), p + 2),
        ),
        p + 4 <= d.len() ==> value_at(d, p, GgufType::U32) == Ok::<(GgufValueView, int), ReadError>(
            (GgufValueView::U32(le_u32(d, p)), p + 4),
        ),
        p + 4 <= d.len() ==> value_at(d, p, GgufType::I32) == Ok::<(GgufValueView, int), ReadError>(
            (GgufValueView::I32(le_u32(d, p) as i32), p + 4),
        ),
        p + 4 <= d.len() ==> value_at(d, p, GgufType::F32) == Ok::<(GgufValueView, int), ReadError>(
            (GgufValueView::F32(le_u32(d, p)), p + 4),
        ),
        p + 8 <= d.len() ==> value_at(d, p, GgufType::U64) == Ok::<(GgufValueView, int), ReadError>(
            (GgufValueView::U64(le_u64(d, p)), p + 8),
        ),
        p + 8 <= d.len() ==> value_at(d, p, GgufType::I64) == Ok::<(GgufValueView, int), ReadError>(
            (GgufValueView::I64(le_u64(d, p) as i64), p + 8),
        ),
        p + 8 <= d.len() ==> value_at(d, p, GgufType::F64) == Ok::<(GgufValueView, int), ReadError>(
            (GgufValueView::F64(le_u64(d, p)), p + 8),
        ),
        p + 1 > d.len() ==> value_at(d, p, GgufType::Bool) == Err::<(GgufValueView, int), ReadError>(
            ReadError::UnexpectedEof,
        ),
        p + 4 > d.len() ==> value_at(d, p, GgufType::U32) == Err::<(GgufValueView, int), ReadError>(
            ReadError::UnexpectedEof,
        ),
        p + 8 > d.len() ==> value_at(d, p, GgufType::U64) == Err::<(GgufValueView, int), ReadError>(
            ReadError::UnexpectedEof,
        ),
{
}

/// A header that reads successfully names an architecture and a positive
/// block count, and carries the given file size.
pub proof fn law_header_is_usable(d: Seq<u8>, file_size: u64, stem: Option<Seq<char>>)
    ensures
        gguf_header(d, file_size, stem) matches Ok(info) ==> info.architecture.len() > 0
            && info.block_count > 0 && info.file_size == file_size,
{
}

/// The display name of a GGUF file type code.
pub open spec fn file_type_label(ft: u32) -> Seq<char> {
    if ft == 0 {
        "F32"@
    } else if ft == 1 {
        "F16"@
    } else if ft == 2 {
        "Q4_0"@
    } else if ft == 3 {
        "Q4_1"@
    } else if ft == 6 {
        "Q5_0"@
    } else if ft == 7 {
        "Q8_0"@
    } else if ft == 8 {
        "Q8_1"@
    } else if ft == 10 {
        "Q2_K"@
    } else if ft == 11 {
        "Q3_K_S"@
    } else if ft == 12 {
        "Q3_K_M"@
    } else if ft == 13 {
        "Q3_K_L"@
    } else if ft == 14 {
        "Q4_K_S"@
    } else if ft == 15 {
        "Q4_K_M"@
    } else if ft == 16 {
        "Q4_K_L"@
    } else if ft == 17 {
        "Q5_K_S"@
    } else if ft == 18 {
        "Q5_K_M"@
    } else if ft == 19 {
        "Q5_K_L"@
    } else if ft == 20 {
        "Q6_K"@
    } else if ft == 21 {
        "IQ2_XXS"@
    } else if ft == 22 {
        "IQ2_XS"@
    } else if ft == 23 {
        "IQ3_XXS"@
    } else if ft == 24 {
        "IQ3_S"@
    } else if ft == 25 {
        "IQ3_M"@
    } else if ft == 26 {
        "IQ4_XS"@
    } else if ft == 27 {
        "IQ4_NL"@
    } else {
        "unknown"@
    }
}

/// The display name of a GGUF file type code, `unknown` for codes without one.
pub fn file_type_name(ft: u32) -> (r: &'static str)
    ensures
        r@ == file_type_label(ft),
{
    if ft == 0 {
        "F32"
    } else if ft == 1 {
        "F16"
    } else if ft == 2 {
        "Q4_0"
    } else if ft == 3 {
        "Q4_1"
    } else if ft == 6 {
        "Q5_0"
    } else if ft == 7 {
        "Q8_0"
    } else if ft == 8 {
        "Q8_1"
    } else if ft == 10 {
        "Q2_K"
    } else if ft == 11 {
        "Q3_K_S"
    } else if ft == 12 {
        "Q3_K_M"
    } else if ft == 13 {
        "Q3_K_L"
    } else if ft == 14 {
        "Q4_K_S"
    } else if ft == 15 {
        "Q4_K_M"
    } else if ft == 16 {
        "Q4_K_L"
    } else if ft == 17 {
        "Q5_K_S"
    } else if ft == 18 {
        "Q5_K_M"
    } else if ft == 19 {
        "Q5_K_L"
    } else if ft == 20 {
        "Q6_K"
    } else if ft == 21 {
        "IQ2_XXS"
    } else if ft == 22 {
        "IQ2_XS"
    } else if ft == 23 {
        "IQ3_XXS"
    } else if ft == 24 {
        "IQ3_S"
    } else if ft == 25 {
        "IQ3_M"
    } else if ft == 26 {
        "IQ4_XS"
    } else if ft == 27 {
        "IQ4_NL"
    } else {
        "unknown"
    }
}

} // verus!
