//! GGUF header reading: only the metadata (architecture, layer count, heads,
//! context length, quantisation type) is read; tensors are never touched.
//!
//! The reader works on a prefix of the file held in memory. When the prefix
//! ends before the metadata does, the result is
//! [`GgufError::UnexpectedEof`], and a caller holding more of the file can
//! try again with a longer prefix.

use vstd::prelude::*;
use vstd::utf8::{decode_utf8, valid_utf8};

use crate::text::{chars_eq, concat, to_chars, utf8_to_string};

verus! {

/// Metadata read from a GGUF header (what a memory estimate needs).
#[derive(Clone, Debug, Default, PartialEq)]
pub struct GgufInfo {
    pub version: u32,
    pub tensor_count: u64,
    pub arch: Option<String>,
    pub n_layers: Option<u64>,
    pub n_embd: Option<u64>,
    pub n_head: Option<u64>,
    pub n_head_kv: Option<u64>,
    pub ctx_train: Option<u64>,
    /// Quantisation type code (`general.file_type`).
    pub file_type: Option<u32>,
}

/// Estimated memory use of llama-server for a model.
#[derive(Clone, Copy, Debug, PartialEq, Eq)]
pub struct MemoryEstimate {
    /// Model weights: roughly the file size.
    pub weights_bytes: u64,
    /// KV cache for the context in use.
    pub kv_cache_bytes: u64,
    pub ctx_used: u64,
    /// Part that lives on the GPU.
    pub gpu_bytes: u64,
}

/// Why a GGUF header could not be read.
#[derive(Clone, Copy, Debug, PartialEq, Eq)]
pub enum GgufError {
    /// The data ended before the metadata did.
    UnexpectedEof,
    /// The file does not start with the `GGUF` magic.
    BadMagic,
    /// Format versions before 2 are not supported.
    UnsupportedVersion(u32),
    /// More metadata entries than any sane file has.
    TooManyKeys(u64),
    /// A metadata string longer than 1 MiB.
    StringTooLong(u64),
    /// A metadata string that is not UTF-8.
    InvalidUtf8,
    /// An array with more than ten million elements.
    ArrayTooLong(u64),
    /// An array whose element type is unknown.
    UnknownArrayType(u32),
    /// The byte size of an array does not fit in 64 bits.
    ArraySizeOverflow,
    /// An array of scalars larger than 1 GiB.
    ArrayTooLarge(u64),
    /// A metadata value whose type is unknown.
    UnknownValueType(u32),
}

// ---------------------------------------------------------------------------
// Specification of the format
// ---------------------------------------------------------------------------

pub open spec fn le_u16(s: Seq<u8>, p: int) -> u16 {
    (s[p] as int + s[p + 1] as int * 256) as u16
}

pub open spec fn le_u32(s: Seq<u8>, p: int) -> u32 {
    (le_u16(s, p) as int + le_u16(s, p + 2) as int * 65536) as u32
}

pub open spec fn le_u64(s: Seq<u8>, p: int) -> u64 {
    (le_u32(s, p) as int + le_u32(s, p + 4) as int * 4294967296) as u64
}

/// `n` bytes are available at position `p`.
pub open spec fn has_bytes(s: Seq<u8>, p: int, n: int) -> bool {
    0 <= p && p + n <= s.len()
}

pub open spec fn take_u8(s: Seq<u8>, p: int) -> Result<(int, u8), GgufError> {
    if has_bytes(s, p, 1) {
        Ok((p + 1, s[p]))
    } else {
        Err(GgufError::UnexpectedEof)
    }
}

pub open spec fn take_u16(s: Seq<u8>, p: int) -> Result<(int, u16), GgufError> {
    if has_bytes(s, p, 2) {
        Ok((p + 2, le_u16(s, p)))
    } else {
        Err(GgufError::UnexpectedEof)
    }
}

pub open spec fn take_u32(s: Seq<u8>, p: int) -> Result<(int, u32), GgufError> {
    if has_bytes(s, p, 4) {
        Ok((p + 4, le_u32(s, p)))
    } else {
        Err(GgufError::UnexpectedEof)
    }
}

pub open spec fn take_u64(s: Seq<u8>, p: int) -> Result<(int, u64), GgufError> {
    if has_bytes(s, p, 8) {
        Ok((p + 8, le_u64(s, p)))
    } else {
        Err(GgufError::UnexpectedEof)
    }
}

/// Longest metadata string accepted (1 MiB).
pub open spec fn max_string_len() -> u64 {
    1048576
}

/// A string: its byte length as a `u64`, then that many UTF-8 bytes.
pub open spec fn take_string(s: Seq<u8>, p: int) -> Result<(int, Seq<char>), GgufError> {
    match take_u64(s, p) {
        Err(e) => Err(e),
        Ok((q, len)) => if len > max_string_len() {
            Err(GgufError::StringTooLong(len))
        } else if !has_bytes(s, q, len as int) {
            Err(GgufError::UnexpectedEof)
        } else if !valid_utf8(s.subrange(q, q + len)) {
            Err(GgufError::InvalidUtf8)
        } else {
            Ok((q + len, decode_utf8(s.subrange(q, q + len))))
        },
    }
}

/// Byte size of a scalar value type.
pub open spec fn scalar_size_spec(t: u32) -> Option<u64> {
    if t == 0 || t == 1 || t == 7 {
        Some(1)
    } else if t == 2 || t == 3 {
        Some(2)
    } else if 4 <= t <= 6 {
        Some(4)
    } else if 10 <= t <= 12 {
        Some(8)
    } else {
        None
    }
}

/// Longest array accepted (ten million elements).
pub open spec fn max_array_len() -> u64 {
    10000000
}

/// Largest array of scalars accepted (1 GiB).
pub open spec fn max_array_bytes() -> u64 {
    1073741824
}

/// An array value: element type, element count, then the elements. Returns
/// the position after the array.
pub open spec fn skip_array_spec(s: Seq<u8>, p: int) -> Result<int, GgufError>
    decreases s.len() - p, 0int,
{
    match take_u32(s, p) {
        Err(e) => Err(e),
        Ok((q, t)) => match take_u64(s, q) {
            Err(e) => Err(e),
            Ok((r, count)) => if count > max_array_len() {
                Err(GgufError::ArrayTooLong(count))
            } else if t == 8 || t == 9 {
                skip_elems_spec(s, r, t, count as nat)
            } else {
                match scalar_size_spec(t) {
                    None => Err(GgufError::UnknownArrayType(t)),
                    Some(size) => if size * count > u64::MAX {
                        Err(GgufError::ArraySizeOverflow)
                    } else if size * count > max_array_bytes() {
                        Err(GgufError::ArrayTooLarge((size * count) as u64))
                    } else if !has_bytes(s, r, size * count) {
                        Err(GgufError::UnexpectedEof)
                    } else {
                        Ok(r + size * count)
                    },
                }
            },
        },
    }
}

/// `n` string (`t == 8`) or array (`t == 9`) elements starting at `p`.
pub open spec fn skip_elems_spec(s: Seq<u8>, p: int, t: u32, n: nat) -> Result<int, GgufError>
    decreases s.len() - p, n + 1,
{
    if n == 0 {
        Ok(p)
    } else if t == 8 {
        match take_string(s, p) {
            Err(e) => Err(e),
            Ok((q, _)) => if p < q <= s.len() {
                skip_elems_spec(s, q, t, (n - 1) as nat)
            } else {
                Err(GgufError::UnexpectedEof)
            },
        }
    } else {
        match skip_array_spec(s, p) {
            Err(e) => Err(e),
            Ok(q) => if p < q <= s.len() {
                skip_elems_spec(s, q, t, (n - 1) as nat)
            } else {
                Err(GgufError::UnexpectedEof)
            },
        }
    }
}

/// A metadata value as far as this reader cares.
pub enum MetaValue {
    /// An integer-like scalar, widened to 64 bits.
    Scalar(u64),
    /// A string.
    Text(Seq<char>),
    /// An array (skipped).
    Skipped,
}

/// One key/value entry of the metadata.
pub struct MetaEntry {
    pub key: Seq<char>,
    pub value: MetaValue,
}

/// The header: version, tensor count and the metadata entries, in order.
pub struct HeaderModel {
    pub version: u32,
    pub tensor_count: u64,
    pub entries: Seq<MetaEntry>,
}

/// A signed byte sign-extended to 64 bits.
pub open spec fn sign_extend_i8(b: u8) -> u64 {
    if b < 128 {
        b as u64
    } else {
        (b as int + 18446744073709551360) as u64
    }
}

/// A value of type `vt` at `p`.
pub open spec fn take_value(s: Seq<u8>, p: int, vt: u32) -> Result<(int, MetaValue), GgufError> {
    if vt == 0 || vt == 7 {
        match take_u8(s, p) {
            Err(e) => Err(e),
            Ok((q, b)) => Ok((q, MetaValue::Scalar(b as u64))),
        }
    } else if vt == 1 {
        match take_u8(s, p) {
            Err(e) => Err(e),
            Ok((q, b)) => Ok((q, MetaValue::Scalar(sign_extend_i8(b)))),
        }
    } else if vt == 2 || vt == 3 {
        match take_u16(s, p) {
            Err(e) => Err(e),
            Ok((q, v)) => Ok((q, MetaValue::Scalar(v as u64))),
        }
    } else if 4 <= vt <= 6 {
        match take_u32(s, p) {
            Err(e) => Err(e),
            Ok((q, v)) => Ok((q, MetaValue::Scalar(v as u64))),
        }
    } else if 10 <= vt <= 12 {
        match take_u64(s, p) {
            Err(e) => Err(e),
            Ok((q, v)) => Ok((q, MetaValue::Scalar(v))),
        }
    } else if vt == 8 {
        match take_string(s, p) {
            Err(e) => Err(e),
            Ok((q, t)) => Ok((q, MetaValue::Text(t))),
        }
    } else if vt == 9 {
        match skip_array_spec(s, p) {
            Err(e) => Err(e),
            Ok(q) => Ok((q, MetaValue::Skipped)),
        }
    } else {
        Err(GgufError::UnknownValueType(vt))
    }
}

/// One entry: key string, value type, value.
pub open spec fn take_entry(s: Seq<u8>, p: int) -> Result<(int, MetaEntry), GgufError> {
    match take_string(s, p) {
        Err(e) => Err(e),
        Ok((q, key)) => match take_u32(s, q) {
            Err(e) => Err(e),
            Ok((r, vt)) => match take_value(s, r, vt) {
                Err(e) => Err(e),
                Ok((u, v)) => Ok((u, MetaEntry { key, value: v })),
            },
        },
    }
}

/// `n` consecutive entries starting at `p`.
pub open spec fn take_entries(s: Seq<u8>, p: int, n: nat) -> Result<(int, Seq<MetaEntry>), GgufError>
    decreases n,
{
    if n == 0 {
        Ok((p, seq![]))
    } else {
        match take_entry(s, p) {
            Err(e) => Err(e),
            Ok((q, e)) => match take_entries(s, q, (n - 1) as nat) {
                Err(x) => Err(x),
                Ok((r, rest)) => Ok((r, seq![e] + rest)),
            },
        }
    }
}

/// Most metadata entries accepted.
pub open spec fn max_kv_count() -> u64 {
    100000
}

/// The `GGUF` magic.
pub open spec fn magic() -> Seq<u8> {
    seq![0x47u8, 0x47u8, 0x55u8, 0x46u8]
}

/// The whole header: magic, version (at least 2), tensor count, entry count
/// and the entries.
pub open spec fn parse_header(s: Seq<u8>) -> Result<HeaderModel, GgufError> {
    if s.len() < 4 {
        Err(GgufError::UnexpectedEof)
    } else if s.take(4) != magic() {
        Err(GgufError::BadMagic)
    } else {
        match take_u32(s, 4) {
            Err(e) => Err(e),
            Ok((p, version)) => if version < 2 {
                Err(GgufError::UnsupportedVersion(version))
            } else {
                match take_u64(s, p) {
                    Err(e) => Err(e),
                    Ok((q, tensor_count)) => match take_u64(s, q) {
                        Err(e) => Err(e),
                        Ok((r, kv_count)) => if kv_count > max_kv_count() {
                            Err(GgufError::TooManyKeys(kv_count))
                        } else {
                            match take_entries(s, r, kv_count as nat) {
                                Err(e) => Err(e),
                                Ok((_, entries)) => Ok(HeaderModel { version, tensor_count, entries }),
                            }
                        },
                    },
                }
            },
        }
    }
}

/// The scalar entries, in order, as (key, value) pairs.
pub open spec fn scalar_pairs(es: Seq<MetaEntry>) -> Seq<(Seq<char>, u64)>
    decreases es.len(),
{
    if es.len() == 0 {
        seq![]
    } else {
        let rest = scalar_pairs(es.drop_last());
        match es.last().value {
            MetaValue::Scalar(v) => rest.push((es.last().key, v)),
            _ => rest,
        }
    }
}

/// The value of the first pair with the given key.
pub open spec fn first_value(pairs: Seq<(Seq<char>, u64)>, key: Seq<char>) -> Option<u64>
    decreases pairs.len(),
{
    if pairs.len() == 0 {
        None
    } else if pairs[0].0 == key {
        Some(pairs[0].1)
    } else {
        first_value(pairs.skip(1), key)
    }
}

/// The text of the last string entry with the given key.
pub open spec fn last_text(es: Seq<MetaEntry>, key: Seq<char>) -> Option<Seq<char>>
    decreases es.len(),
{
    if es.len() == 0 {
        None
    } else {
        match es.last().value {
            MetaValue::Text(t) => if es.last().key == key {
                Some(t)
            } else {
                last_text(es.drop_last(), key)
            },
            _ => last_text(es.drop_last(), key),
        }
    }
}

/// What a [`GgufInfo`] holds, with strings as character sequences.
pub struct GgufInfoModel {
    pub version: u32,
    pub tensor_count: u64,
    pub arch: Option<Seq<char>>,
    pub n_layers: Option<u64>,
    pub n_embd: Option<u64>,
    pub n_head: Option<u64>,
    pub n_head_kv: Option<u64>,
    pub ctx_train: Option<u64>,
    pub file_type: Option<u32>,
}

pub open spec fn opt_string_view(o: Option<String>) -> Option<Seq<char>> {
    match o {
        Some(s) => Some(s@),
        None => None,
    }
}

impl View for GgufInfo {
    type V = GgufInfoModel;

    open spec fn view(&self) -> GgufInfoModel {
        GgufInfoModel {
            version: self.version,
            tensor_count: self.tensor_count,
            arch: opt_string_view(self.arch),
            n_layers: self.n_layers,
            n_embd: self.n_embd,
            n_head: self.n_head,
            n_head_kv: self.n_head_kv,
            ctx_train: self.ctx_train,
            file_type: self.file_type,
        }
    }
}

/// The first scalar stored under `<arch><suffix>`, when the architecture is known.
pub open spec fn arch_value(
    pairs: Seq<(Seq<char>, u64)>,
    arch: Option<Seq<char>>,
    suffix: Seq<char>,
) -> Option<u64> {
    match arch {
        Some(a) => first_value(pairs, a + suffix),
        None => None,
    }
}

/// The information a header gives: the architecture is the last
/// `general.architecture` string, and every number is the first scalar with
/// its key (`<arch>.block_count` and so on; the file type is truncated to
/// 32 bits).
pub open spec fn info_of(h: HeaderModel) -> GgufInfoModel {
    let pairs = scalar_pairs(h.entries);
    let arch = last_text(h.entries, "general.architecture"@);
    GgufInfoModel {
        version: h.version,
        tensor_count: h.tensor_count,
        arch: arch,
        n_layers: arch_value(pairs, arch, ".block_count"@),
        n_embd: arch_value(pairs, arch, ".embedding_length"@),
        n_head: arch_value(pairs, arch, ".attention.head_count"@),
        n_head_kv: arch_value(pairs, arch, ".attention.head_count_kv"@),
        ctx_train: arch_value(pairs, arch, ".context_length"@),
        file_type: match first_value(pairs, "general.file_type"@) {
            Some(v) => Some(v as u32),
            None => None,
        },
    }
}

/// An executable position result agrees with a specification one.
pub open spec fn agrees<T>(r: Result<(usize, T), GgufError>, s: Result<(int, T), GgufError>) -> bool {
    match r {
        Ok((q, v)) => s == Ok::<(int, T), GgufError>((q as int, v)),
        Err(e) => s == Err::<(int, T), GgufError>(e),
    }
}

pub open spec fn agrees_pos(r: Result<usize, GgufError>, s: Result<int, GgufError>) -> bool {
    match r {
        Ok(q) => s == Ok::<int, GgufError>(q as int),
        Err(e) => s == Err::<int, GgufError>(e),
    }
}

// ---------------------------------------------------------------------------
// Reading
// ---------------------------------------------------------------------------

/// Human label of a quantisation type code (`general.file_type`).
pub open spec fn file_type_label_spec(file_type: u32) -> Option<Seq<char>> {
    if file_type == 0 {
        Some("F32"@)
    } else if file_type == 1 {
        Some("F16"@)
    } else if file_type == 2 {
        Some("Q4_0"@)
    } else if file_type == 3 {
        Some("Q4_1"@)
    } else if file_type == 7 {
        Some("Q8_0"@)
    } else if file_type == 8 {
        Some("Q5_0"@)
    } else if file_type == 9 {
        Some("Q5_1"@)
    } else if file_type == 10 {
        Some("Q2_K"@)
    } else if file_type == 11 {
        Some("Q3_K_S"@)
    } else if file_type == 12 {
        Some("Q3_K_M"@)
    } else if file_type == 13 {
        Some("Q3_K_L"@)
    } else if file_type == 14 {
        Some("Q4_K_S"@)
    } else if file_type == 15 {
        Some("Q4_K_M"@)
    } else if file_type == 16 {
        Some("Q5_K_S"@)
    } else if file_type == 17 {
        Some("Q5_K_M"@)
    } else if file_type == 18 {
        Some("Q6_K"@)
    } else if file_type == 19 {
        Some("IQ2_XXS"@)
    } else if file_type == 20 {
        Some("IQ2_XS"@)
    } else if file_type == 21 {
        Some("Q2_K_S"@)
    } else if file_type == 22 {
        Some("IQ3_XS"@)
    } else if file_type == 23 {
        Some("IQ3_XXS"@)
    } else if file_type == 24 {
        Some("IQ1_S"@)
    } else if file_type == 25 {
        Some("IQ4_NL"@)
    } else if file_type == 26 {
        Some("IQ3_S"@)
    } else if file_type == 27 {
        Some("IQ3_M"@)
    } else if file_type == 28 {
        Some("IQ2_S"@)
    } else if file_type == 29 {
        Some("IQ2_M"@)
    } else if file_type == 30 {
        Some("IQ4_XS"@)
    } else if file_type == 31 {
        Some("IQ1_M"@)
    } else if file_type == 32 {
        Some("BF16"@)
    } else {
        None
    }
}

pub open spec fn opt_str_view(o: Option<&'static str>) -> Option<Seq<char>> {
    match o {
        Some(s) => Some(s@),
        None => None,
    }
}

/// Human label of a quantisation type code, e.g. `15` → `Q4_K_M`.
pub fn file_type_label(file_type: u32) -> (r: Option<&'static str>)
    ensures
        opt_str_view(r) == file_type_label_spec(file_type),
{
    match file_type {
        0 => Some("F32"),
        1 => Some("F16"),
        2 => Some("Q4_0"),
        3 => Some("Q4_1"),
        7 => Some("Q8_0"),
        8 => Some("Q5_0"),
        9 => Some("Q5_1"),
        10 => Some("Q2_K"),
        11 => Some("Q3_K_S"),
        12 => Some("Q3_K_M"),
        13 => Some("Q3_K_L"),
        14 => Some("Q4_K_S"),
        15 => Some("Q4_K_M"),
        16 => Some("Q5_K_S"),
        17 => Some("Q5_K_M"),
        18 => Some("Q6_K"),
        19 => Some("IQ2_XXS"),
        20 => Some("IQ2_XS"),
        21 => Some("Q2_K_S"),
        22 => Some("IQ3_XS"),
        23 => Some("IQ3_XXS"),
        24 => Some("IQ1_S"),
        25 => Some("IQ4_NL"),
        26 => Some("IQ3_S"),
        27 => Some("IQ3_M"),
        28 => Some("IQ2_S"),
        29 => Some("IQ2_M"),
        30 => Some("IQ4_XS"),
        31 => Some("IQ1_M"),
        32 => Some("BF16"),
        _ => None,
    }
}

fn read_u8(data: &[u8], pos: usize) -> (r: Result<(usize, u8), GgufError>)
    ensures
        agrees(r, take_u8(data@, pos as int)),
{
    if pos < data.len() {
        Ok((pos + 1, data[pos]))
    } else {
        Err(GgufError::UnexpectedEof)
    }
}

fn read_u16(data: &[u8], pos: usize) -> (r: Result<(usize, u16), GgufError>)
    ensures
        agrees(r, take_u16(data@, pos as int)),
{
    if pos <= data.len() && data.len() - pos >= 2 {
        let v = data[pos] as u16 + data[pos + 1] as u16 * 256;
        Ok((pos + 2, v))
    } else {
        Err(GgufError::UnexpectedEof)
    }
}

fn read_u32(data: &[u8], pos: usize) -> (r: Result<(usize, u32), GgufError>)
    ensures
        agrees(r, take_u32(data@, pos as int)),
{
    if pos <= data.len() && data.len() - pos >= 4 {
        let lo = data[pos] as u32 + data[pos + 1] as u32 * 256;
        let hi = data[pos + 2] as u32 + data[pos + 3] as u32 * 256;
        Ok((pos + 4, lo + hi * 65536))
    } else {
        Err(GgufError::UnexpectedEof)
    }
}

fn read_u64(data: &[u8], pos: usize) -> (r: Result<(usize, u64), GgufError>)
    ensures
        agrees(r, take_u64(data@, pos as int)),
{
    if pos <= data.len() && data.len() - pos >= 8 {
        let a = data[pos] as u64 + data[pos + 1] as u64 * 256;
        let b = data[pos + 2] as u64 + data[pos + 3] as u64 * 256;
        let c = data[pos + 4] as u64 + data[pos + 5] as u64 * 256;
        let d = data[pos + 6] as u64 + data[pos + 7] as u64 * 256;
        let lo = a + b * 65536;
        let hi = c + d * 65536;
        Ok((pos + 8, lo + hi * 4294967296))
    } else {
        Err(GgufError::UnexpectedEof)
    }
}

/// Reads a string, returning its text.
fn read_string(data: &[u8], pos: usize) -> (r: Result<(usize, String), GgufError>)
    ensures
        match r {
            Ok((q, t)) => take_string(data@, pos as int) == Ok::<(int, Seq<char>), GgufError>(
                (q as int, t@),
            ),
            Err(e) => take_string(data@, pos as int) == Err::<(int, Seq<char>), GgufError>(e),
        },
{
    let (q, len) = match read_u64(data, pos) {
        Ok(x) => x,
        Err(e) => return Err(e),
    };
    if len > 1048576 {
        return Err(GgufError::StringTooLong(len));
    }
    let n = len as usize;
    if data.len() - q < n {
        return Err(GgufError::UnexpectedEof);
    }
    let bytes = vstd::slice::slice_to_vec(vstd::slice::slice_subrange(data, q, q + n));
    match utf8_to_string(bytes) {
        Some(t) => Ok((q + n, t)),
        None => Err(GgufError::InvalidUtf8),
    }
}

/// Byte size of a scalar value type.
fn scalar_size(value_type: u32) -> (r: Option<u64>)
    ensures
        r == scalar_size_spec(value_type),
{
    match value_type {
        0 | 1 | 7 => Some(1),
        2 | 3 => Some(2),
        4..=6 => Some(4),
        10..=12 => Some(8),
        _ => None,
    }
}

/// Skips an array value.
fn skip_array(data: &[u8], pos: usize) -> (r: Result<usize, GgufError>)
    requires
        pos <= data@.len(),
    ensures
        agrees_pos(r, skip_array_spec(data@, pos as int)),
        r matches Ok(q) ==> pos + 12 <= q <= data@.len(),
    decreases data@.len() - pos, 0nat,
{
    let (q, elem_type) = match read_u32(data, pos) {
        Ok(x) => x,
        Err(e) => return Err(e),
    };
    let (r, count) = match read_u64(data, q) {
        Ok(x) => x,
        Err(e) => return Err(e),
    };
    if count > 10000000 {
        return Err(GgufError::ArrayTooLong(count));
    }
    if elem_type == 8 || elem_type == 9 {
        return skip_elems(data, r, elem_type, count);
    }
    let size = match scalar_size(elem_type) {
        Some(size) => size,
        None => return Err(GgufError::UnknownArrayType(elem_type)),
    };
    let total = match size.checked_mul(count) {
        Some(t) => t,
        None => return Err(GgufError::ArraySizeOverflow),
    };
    if total > 1073741824 {
        return Err(GgufError::ArrayTooLarge(total));
    }
    if data.len() - r < total as usize {
        return Err(GgufError::UnexpectedEof);
    }
    Ok(r + total as usize)
}

/// Skips `count` string (`t == 8`) or array (`t == 9`) elements.
fn skip_elems(data: &[u8], pos: usize, t: u32, count: u64) -> (r: Result<usize, GgufError>)
    requires
        pos <= data@.len(),
        t == 8 || t == 9,
    ensures
        agrees_pos(r, skip_elems_spec(data@, pos as int, t, count as nat)),
        r matches Ok(q) ==> pos <= q <= data@.len(),
    decreases data@.len() - pos, 1nat,
{
    let mut p = pos;
    let mut i: u64 = 0;
    while i < count
        invariant
            pos <= p <= data@.len(),
            i <= count,
            t == 8 || t == 9,
            skip_elems_spec(data@, pos as int, t, count as nat) == skip_elems_spec(
                data@,
                p as int,
                t,
                (count - i) as nat,
            ),
        decreases count - i,
    {
        if t == 8 {
            match read_string(data, p) {
                Ok((q, _)) => {
                    p = q;
                },
                Err(e) => return Err(e),
            }
        } else {
            match skip_array(data, p) {
                Ok(q) => {
                    p = q;
                },
                Err(e) => return Err(e),
            }
        }
        i += 1;
    }
    Ok(p)
}

/// Collected state while reading the entries.
struct Collected {
    /// Scalar entries in order: key characters and value.
    scalars: Vec<(Vec<char>, u64)>,
    /// Text of the last `general.architecture` string.
    arch: Option<String>,
}

pub open spec fn pairs_view(v: Seq<(Vec<char>, u64)>) -> Seq<(Seq<char>, u64)> {
    v.map_values(|p: (Vec<char>, u64)| (p.0@, p.1))
}

pub open spec fn join_entries(
    es: Seq<MetaEntry>,
    r: Result<(int, Seq<MetaEntry>), GgufError>,
) -> Result<(int, Seq<MetaEntry>), GgufError> {
    match r {
        Ok((q, rest)) => Ok((q, es + rest)),
        Err(e) => Err(e),
    }
}

/// Reads one entry, recording it in `acc`.
fn read_entry(
    data: &[u8],
    pos: usize,
    arch_key: &[char],
    acc: &mut Collected,
    Ghost(es): Ghost<Seq<MetaEntry>>,
) -> (r: Result<(usize, Ghost<MetaEntry>), GgufError>)
    requires
        arch_key@ == "general.architecture"@,
        pairs_view(old(acc).scalars@) == scalar_pairs(es),
        opt_string_view(old(acc).arch) == last_text(es, "general.architecture"@),
    ensures
        match r {
            Ok((q, e)) => {
                &&& take_entry(data@, pos as int) == Ok::<(int, MetaEntry), GgufError>((q as int, e@))
                &&& pairs_view(final(acc).scalars@) == scalar_pairs(es.push(e@))
                &&& opt_string_view(final(acc).arch) == last_text(es.push(e@), "general.architecture"@)
            },
            Err(err) => take_entry(data@, pos as int) == Err::<(int, MetaEntry), GgufError>(err),
        },
{
    let (q, key_text) = match read_string(data, pos) {
        Ok(x) => x,
        Err(e) => return Err(e),
    };
    let key = to_chars(key_text.as_str());
    let (r, vt) = match read_u32(data, q) {
        Ok(x) => x,
        Err(e) => return Err(e),
    };
    let mut scalar: Option<u64> = None;
    let end: usize;
    let ghost mut value = MetaValue::Skipped;
    if vt == 0 || vt == 7 {
        match read_u8(data, r) {
            Ok((u, b)) => {
                scalar = Some(b as u64);
                end = u;
                proof {
                    value = MetaValue::Scalar(b as u64);
                }
            },
            Err(e) => return Err(e),
        }
    } else if vt == 1 {
        match read_u8(data, r) {
            Ok((u, b)) => {
                let v: u64 = if b < 128 {
                    b as u64
                } else {
                    b as u64 + 18446744073709551360
                };
                scalar = Some(v);
                end = u;
                proof {
                    value = MetaValue::Scalar(v);
                }
            },
            Err(e) => return Err(e),
        }
    } else if vt == 2 || vt == 3 {
        match read_u16(data, r) {
            Ok((u, v)) => {
                scalar = Some(v as u64);
                end = u;
                proof {
                    value = MetaValue::Scalar(v as u64);
                }
            },
            Err(e) => return Err(e),
        }
    } else if 4 <= vt && vt <= 6 {
        match read_u32(data, r) {
            Ok((u, v)) => {
                scalar = Some(v as u64);
                end = u;
                proof {
                    value = MetaValue::Scalar(v as u64);
                }
            },
            Err(e) => return Err(e),
        }
    } else if 10 <= vt && vt <= 12 {
        match read_u64(data, r) {
            Ok((u, v)) => {
                scalar = Some(v);
                end = u;
                proof {
                    value = MetaValue::Scalar(v);
                }
            },
            Err(e) => return Err(e),
        }
    } else if vt == 8 {
        match read_string(data, r) {
            Ok((u, text)) => {
                end = u;
                proof {
                    value = MetaValue::Text(text@);
                }
                if chars_eq(&key, arch_key) {
                    acc.arch = Some(text);
                }
            },
            Err(e) => return Err(e),
        }
    } else if vt == 9 {
        match skip_array(data, r) {
            Ok(u) => {
                end = u;
                proof {
                    value = MetaValue::Skipped;
                }
            },
            Err(e) => return Err(e),
        }
    } else {
        return Err(GgufError::UnknownValueType(vt));
    }
    let ghost entry = MetaEntry { key: key@, value: value };
    let ghost es_new = es.push(entry);
    assert(es_new.drop_last() =~= es);
    match scalar {
        Some(v) => {
            let ghost before = acc.scalars@;
            acc.scalars.push((key, v));
            assert(pairs_view(acc.scalars@) =~= pairs_view(before).push((key@, v)));
        },
        None => {},
    }
    Ok((end, Ghost(entry)))
}

proof fn lemma_entries_step(
    s: Seq<u8>,
    pos: int,
    m: nat,
    e: MetaEntry,
    next: int,
    es: Seq<MetaEntry>,
)
    requires
        m > 0,
        take_entry(s, pos) == Ok::<(int, MetaEntry), GgufError>((next, e)),
    ensures
        join_entries(es, take_entries(s, pos, m)) == join_entries(
            es.push(e),
            take_entries(s, next, (m - 1) as nat),
        ),
{
    let tail = take_entries(s, next, (m - 1) as nat);
    match tail {
        Ok((r, rest)) => {
            assert(es + (seq![e] + rest) =~= es.push(e) + rest);
        },
        Err(_) => {},
    }
}

proof fn lemma_entries_err(s: Seq<u8>, pos: int, m: nat, err: GgufError)
    requires
        m > 0,
        take_entry(s, pos) == Err::<(int, MetaEntry), GgufError>(err),
    ensures
        take_entries(s, pos, m) == Err::<(int, Seq<MetaEntry>), GgufError>(err),
{
}

/// The first pair with the given key.
fn lookup(pairs: &Vec<(Vec<char>, u64)>, key: &[char]) -> (r: Option<u64>)
    ensures
        r == first_value(pairs_view(pairs@), key@),
{
    let mut i: usize = 0;
    assert(pairs_view(pairs@).skip(0) =~= pairs_view(pairs@));
    while i < pairs.len()
        invariant
            i <= pairs@.len(),
            first_value(pairs_view(pairs@), key@) == first_value(
                pairs_view(pairs@).skip(i as int),
                key@,
            ),
        decreases pairs@.len() - i,
    {
        let ghost rest = pairs_view(pairs@).skip(i as int);
        assert(rest[0] == (pairs@[i as int].0@, pairs@[i as int].1));
        assert(rest.skip(1) =~= pairs_view(pairs@).skip(i + 1));
        if chars_eq(&pairs[i].0, key) {
            return Some(pairs[i].1);
        }
        i += 1;
    }
    None
}

/// Looks up `<arch><suffix>` when the architecture is known.
fn lookup_arch(pairs: &Vec<(Vec<char>, u64)>, arch: &Option<Vec<char>>, suffix: &str) -> (r: Option<u64>)
    ensures
        r == arch_value(
            pairs_view(pairs@),
            match arch {
                Some(a) => Some(a@),
                None => None,
            },
            suffix@,
        ),
{
    match arch {
        Some(a) => {
            let key = concat(a, &to_chars(suffix));
            lookup(pairs, &key)
        },
        None => None,
    }
}

/// Reads `kv_count` entries starting at `r0`, collecting the scalars and the
/// architecture string.
fn read_entries(data: &[u8], r0: usize, kv_count: u64) -> (r: Result<(Collected, Ghost<Seq<MetaEntry>>), GgufError>)
    ensures
        match r {
            Ok((acc, es)) => {
                &&& take_entries(data@, r0 as int, kv_count as nat) is Ok
                &&& take_entries(data@, r0 as int, kv_count as nat)->Ok_0.1 == es@
                &&& pairs_view(acc.scalars@) == scalar_pairs(es@)
                &&& opt_string_view(acc.arch) == last_text(es@, "general.architecture"@)
            },
            Err(e) => take_entries(data@, r0 as int, kv_count as nat) == Err::<(int, Seq<MetaEntry>), GgufError>(e),
        },
{
    let arch_key = to_chars("general.architecture");
    let mut acc = Collected { scalars: Vec::new(), arch: None };
    let ghost mut es: Seq<MetaEntry> = seq![];
    let mut pos = r0;
    let mut i: u64 = 0;
    assert(es + seq![] =~= es);
    while i < kv_count
        invariant
            i <= kv_count,
            arch_key@ == "general.architecture"@,
            pairs_view(acc.scalars@) == scalar_pairs(es),
            opt_string_view(acc.arch) == last_text(es, "general.architecture"@),
            take_entries(data@, r0 as int, kv_count as nat) == join_entries(
                es,
                take_entries(data@, pos as int, (kv_count - i) as nat),
            ),
        decreases kv_count - i,
    {
        let ghost old_es = es;
        match read_entry(data, pos, &arch_key, &mut acc, Ghost(es)) {
            Ok((next, ge)) => {
                let ghost e = ge@;
                proof {
                    lemma_entries_step(data@, pos as int, (kv_count - i) as nat, e, next as int, old_es);
                    es = old_es.push(e);
                }
                pos = next;
            },
            Err(err) => {
                proof {
                    lemma_entries_err(data@, pos as int, (kv_count - i) as nat, err);
                }
                return Err(err);
            },
        }
        i += 1;
    }
    assert(es + seq![] =~= es);
    Ok((acc, Ghost(es)))
}

/// Reads the header of a GGUF file from (a prefix of) its bytes.
///
/// The result is exactly what [`parse_header`] gives, turned into a
/// [`GgufInfo`] by [`info_of`]; every error is the first one [`parse_header`]
/// meets. [`GgufError::UnexpectedEof`] means the metadata runs past the end
/// of `data`.
pub fn read_header_from(data: &[u8]) -> (r: Result<GgufInfo, GgufError>)
    ensures
        match parse_header(data@) {
            Ok(h) => r matches Ok(info) && info@ == info_of(h),
            Err(e) => r == Err::<GgufInfo, GgufError>(e),
        },
{
    if data.len() < 4 {
        return Err(GgufError::UnexpectedEof);
    }
    if !(data[0] == 0x47 && data[1] == 0x47 && data[2] == 0x55 && data[3] == 0x46) {
        assert(data@.take(4) != magic()) by {
            if data@.take(4) == magic() {
                assert(data@.take(4)[0] == data@[0]);
                assert(data@.take(4)[1] == data@[1]);
                assert(data@.take(4)[2] == data@[2]);
                assert(data@.take(4)[3] == data@[3]);
            }
        }
        return Err(GgufError::BadMagic);
    }
    assert(data@.take(4) =~= magic());
    let (p, version) = match read_u32(data, 4) {
        Ok(x) => x,
        Err(e) => return Err(e),
    };
    if version < 2 {
        return Err(GgufError::UnsupportedVersion(version));
    }
    let (q, tensor_count) = match read_u64(data, p) {
        Ok(x) => x,
        Err(e) => return Err(e),
    };
    let (r0, kv_count) = match read_u64(data, q) {
        Ok(x) => x,
        Err(e) => return Err(e),
    };
    if kv_count > 100000 {
        return Err(GgufError::TooManyKeys(kv_count));
    }
    let (acc, ges) = match read_entries(data, r0, kv_count) {
        Ok(x) => x,
        Err(e) => return Err(e),
    };
    let ghost es = ges@;
    let ghost h = HeaderModel { version, tensor_count, entries: es };
    assert(es + seq![] =~= es);
    let arch_chars: Option<Vec<char>> = match &acc.arch {
        Some(a) => Some(to_chars(a.as_str())),
        None => None,
    };
    let file_type = match lookup(&acc.scalars, &to_chars("general.file_type")) {
        Some(v) => Some(v as u32),
        None => None,
    };
    let info = GgufInfo {
        version,
        tensor_count,
        n_layers: lookup_arch(&acc.scalars, &arch_chars, ".block_count"),
        n_embd: lookup_arch(&acc.scalars, &arch_chars, ".embedding_length"),
        n_head: lookup_arch(&acc.scalars, &arch_chars, ".attention.head_count"),
        n_head_kv: lookup_arch(&acc.scalars, &arch_chars, ".attention.head_count_kv"),
        ctx_train: lookup_arch(&acc.scalars, &arch_chars, ".context_length"),
        file_type,
        arch: acc.arch,
    };
    assert(info@ == info_of(h));
    Ok(info)
}

// ---------------------------------------------------------------------------
// Memory estimate
// ---------------------------------------------------------------------------

/// What the size of the KV cache is made of: the layers, the context in
/// use, and the width of K (and of V) per token.
#[derive(Clone, Copy, Debug, PartialEq, Eq)]
pub struct KvShape {
    pub layers: u64,
    pub ctx: u64,
    pub kv_dim: u64,
}

/// Width of K per token: the embedding length (0 when unknown), narrowed by
/// grouped-query attention when both head counts are known and there are
/// heads.
pub open spec fn kv_dim_spec(info: GgufInfoModel) -> int {
    let embd: int = match info.n_embd {
        Some(e) => e as int,
        None => 0,
    };
    match (info.n_head, info.n_head_kv) {
        (Some(heads), Some(kv_heads)) => if heads > 0 {
            embd * kv_heads / (heads as int)
        } else {
            embd
        },
        _ => embd,
    }
}

/// The product `n_embd * n_head_kv` that the width is computed from fits
/// in `u64` (only needed when both head counts are known and there are
/// heads, and only computed when the layer count and a context are
/// known).
pub open spec fn kv_dim_fits(info: GgufInfoModel) -> bool {
    match (info.n_head, info.n_head_kv) {
        (Some(heads), Some(kv_heads)) => heads > 0 ==> match info.n_embd {
            Some(e) => e * kv_heads <= u64::MAX,
            None => true,
        },
        _ => true,
    }
}

/// The shape of the KV cache: `None` without the layer count, or without
/// a context (the chosen one, else the trained one).
pub open spec fn kv_shape_spec(info: GgufInfoModel, ctx_override: Option<u64>) -> Option<KvShape> {
    match info.n_layers {
        None => None,
        Some(layers) => {
            let ctx = match ctx_override {
                Some(c) => Some(c),
                None => info.ctx_train,
            };
            match ctx {
                None => None,
                Some(c) => Some(KvShape { layers, ctx: c, kv_dim: kv_dim_spec(info) as u64 }),
            }
        },
    }
}

/// The shape of the KV cache of a model (see [`kv_shape_spec`]); its size
/// in bytes is `2 * layers * ctx * kv_dim` times the bytes per element.
pub fn kv_shape(info: &GgufInfo, ctx_override: Option<u64>) -> (r: Option<KvShape>)
    requires
        info@.n_layers is Some && (ctx_override is Some || info@.ctx_train is Some) ==> kv_dim_fits(
            info@,
        ),
    ensures
        r == kv_shape_spec(info@, ctx_override),
{
    let layers = match info.n_layers {
        Some(l) => l,
        None => return None,
    };
    let ctx = match ctx_override {
        Some(c) => c,
        None => match info.ctx_train {
            Some(c) => c,
            None => return None,
        },
    };
    let embd = match info.n_embd {
        Some(e) => e,
        None => 0,
    };
    let kv_dim = match (info.n_head, info.n_head_kv) {
        (Some(heads), Some(kv_heads)) => {
            if heads > 0 {
                proof {
                    if embd > 0 {
                        assert(embd * kv_heads <= u64::MAX);
                    }
                    assert(embd * kv_heads / (heads as int) <= embd * kv_heads) by (nonlinear_arith)
                        requires
                            heads > 0,
                            embd >= 0,
                            kv_heads >= 0,
                    ;
                }
                embd * kv_heads / heads
            } else {
                embd
            }
        },
        _ => embd,
    };
    Some(KvShape { layers, ctx, kv_dim })
}

/// The estimate from the file size and the size of the KV cache: the
/// weights are the file, and the GPU holds everything when all layers are
/// offloaded, else the KV cache.
pub fn memory_estimate(file_size: u64, kv_cache_bytes: u64, ctx_used: u64, gpu_offload_all: bool) -> (r:
    MemoryEstimate)
    requires
        file_size + kv_cache_bytes <= u64::MAX,
    ensures
        r.weights_bytes == file_size,
        r.kv_cache_bytes == kv_cache_bytes,
        r.ctx_used == ctx_used,
        r.gpu_bytes == (if gpu_offload_all {
            file_size + kv_cache_bytes
        } else {
            kv_cache_bytes as int
        }),
{
    let total = file_size + kv_cache_bytes;
    MemoryEstimate {
        weights_bytes: file_size,
        kv_cache_bytes,
        ctx_used,
        gpu_bytes: if gpu_offload_all {
            total
        } else {
            kv_cache_bytes
        },
    }
}


/// What the shape of the KV cache is made of. There is a shape exactly
/// when the layer count and a context (the chosen one, else the trained
/// one) are known; it has those layers and that context. Its width per
/// token is the embedding length (0 when unknown) whenever a head count is
/// unknown or the model has no heads; with both head counts known and
/// heads, it is the embedding length narrowed by `n_head_kv / n_head`.
pub proof fn lemma_kv_shape_parts(info: GgufInfoModel, ctx_override: Option<u64>)
    requires
        kv_dim_fits(info),
    ensures
        kv_shape_spec(info, ctx_override) is Some <==> (info.n_layers is Some && (ctx_override is Some
            || info.ctx_train is Some)),
        kv_shape_spec(info, ctx_override) is Some ==> {
            let s = kv_shape_spec(info, ctx_override).unwrap();
            let embd: int = if info.n_embd is Some {
                info.n_embd.unwrap() as int
            } else {
                0
            };
            &&& Some(s.layers) == info.n_layers
            &&& s.ctx == (if ctx_override is Some {
                ctx_override.unwrap()
            } else {
                info.ctx_train.unwrap()
            })
            &&& (info.n_head is None || info.n_head_kv is None || info.n_head == Some(0u64)) ==> s.kv_dim
                == embd
            &&& (info.n_head is Some && info.n_head_kv is Some && info.n_head.unwrap() > 0) ==> s.kv_dim
                == embd * (info.n_head_kv.unwrap() as int) / (info.n_head.unwrap() as int)
        },
{
    if let (Some(h), Some(k)) = (info.n_head, info.n_head_kv) {
        if h > 0 {
            let embd: int = if info.n_embd is Some {
                info.n_embd.unwrap() as int
            } else {
                0
            };
            assert(0 <= embd * (k as int) / (h as int) <= embd * (k as int)) by (nonlinear_arith)
                requires
                    h > 0,
                    embd >= 0,
                    k >= 0,
            ;
        }
    }
}

// ---------------------------------------------------------------------------
// Reading needs only a prefix
// ---------------------------------------------------------------------------

/// `s` is the beginning of `t`.
pub open spec fn prefix_of(s: Seq<u8>, t: Seq<u8>) -> bool {
    s.len() <= t.len() && t.take(s.len() as int) == s
}

proof fn lemma_same_bytes(s: Seq<u8>, t: Seq<u8>, p: int, n: int)
    requires
        prefix_of(s, t),
        0 <= n,
        has_bytes(s, p, n),
    ensures
        has_bytes(t, p, n),
        t.subrange(p, p + n) == s.subrange(p, p + n),
        forall|i: int| p <= i < p + n ==> t[i] == s[i],
{
    assert forall|i: int| p <= i < p + n implies t[i] == s[i] by {
        assert(t.take(s.len() as int)[i] == t[i]);
    }
    assert(t.subrange(p, p + n) =~= s.subrange(p, p + n));
}

proof fn lemma_take_u32(s: Seq<u8>, t: Seq<u8>, p: int)
    requires
        prefix_of(s, t),
        take_u32(s, p) != Err::<(int, u32), GgufError>(GgufError::UnexpectedEof),
    ensures
        take_u32(t, p) == take_u32(s, p),
{
    lemma_same_bytes(s, t, p, 4);
}

proof fn lemma_take_u64(s: Seq<u8>, t: Seq<u8>, p: int)
    requires
        prefix_of(s, t),
        take_u64(s, p) != Err::<(int, u64), GgufError>(GgufError::UnexpectedEof),
    ensures
        take_u64(t, p) == take_u64(s, p),
{
    lemma_same_bytes(s, t, p, 8);
}

proof fn lemma_take_string(s: Seq<u8>, t: Seq<u8>, p: int)
    requires
        prefix_of(s, t),
        take_string(s, p) != Err::<(int, Seq<char>), GgufError>(GgufError::UnexpectedEof),
    ensures
        take_string(t, p) == take_string(s, p),
{
    lemma_take_u64(s, t, p);
    if let Ok((q, len)) = take_u64(s, p) {
        if len <= max_string_len() && has_bytes(s, q, len as int) {
            lemma_same_bytes(s, t, q, len as int);
        }
    }
}

proof fn lemma_skip_array(s: Seq<u8>, t: Seq<u8>, p: int)
    requires
        prefix_of(s, t),
        skip_array_spec(s, p) != Err::<int, GgufError>(GgufError::UnexpectedEof),
    ensures
        skip_array_spec(t, p) == skip_array_spec(s, p),
    decreases s.len() - p, 0int,
{
    lemma_take_u32(s, t, p);
    if let Ok((q, ty)) = take_u32(s, p) {
        lemma_take_u64(s, t, q);
        if let Ok((r, count)) = take_u64(s, q) {
            if count <= max_array_len() {
                if ty == 8 || ty == 9 {
                    lemma_skip_elems(s, t, r, ty, count as nat);
                } else if let Some(size) = scalar_size_spec(ty) {
                    if size * count <= max_array_bytes() && has_bytes(s, r, size * count) {
                        lemma_same_bytes(s, t, r, size * count);
                    }
                }
            }
        }
    }
}

proof fn lemma_skip_elems(s: Seq<u8>, t: Seq<u8>, p: int, ty: u32, n: nat)
    requires
        prefix_of(s, t),
        skip_elems_spec(s, p, ty, n) != Err::<int, GgufError>(GgufError::UnexpectedEof),
    ensures
        skip_elems_spec(t, p, ty, n) == skip_elems_spec(s, p, ty, n),
    decreases s.len() - p, n + 1,
{
    if n > 0 {
        if ty == 8 {
            lemma_take_string(s, t, p);
            if let Ok((q, _)) = take_string(s, p) {
                if p < q <= s.len() {
                    lemma_skip_elems(s, t, q, ty, (n - 1) as nat);
                }
            }
        } else {
            lemma_skip_array(s, t, p);
            if let Ok(q) = skip_array_spec(s, p) {
                if p < q <= s.len() {
                    lemma_skip_elems(s, t, q, ty, (n - 1) as nat);
                }
            }
        }
    }
}

proof fn lemma_take_value(s: Seq<u8>, t: Seq<u8>, p: int, vt: u32)
    requires
        prefix_of(s, t),
        take_value(s, p, vt) != Err::<(int, MetaValue), GgufError>(GgufError::UnexpectedEof),
    ensures
        take_value(t, p, vt) == take_value(s, p, vt),
{
    if vt == 0 || vt == 7 || vt == 1 {
        if has_bytes(s, p, 1) {
            lemma_same_bytes(s, t, p, 1);
        }
    } else if vt == 2 || vt == 3 {
        if has_bytes(s, p, 2) {
            lemma_same_bytes(s, t, p, 2);
        }
    } else if 4 <= vt <= 6 {
        lemma_take_u32(s, t, p);
    } else if 10 <= vt <= 12 {
        lemma_take_u64(s, t, p);
    } else if vt == 8 {
        lemma_take_string(s, t, p);
    } else if vt == 9 {
        lemma_skip_array(s, t, p);
    }
}

proof fn lemma_take_entries(s: Seq<u8>, t: Seq<u8>, p: int, n: nat)
    requires
        prefix_of(s, t),
        take_entries(s, p, n) != Err::<(int, Seq<MetaEntry>), GgufError>(GgufError::UnexpectedEof),
    ensures
        take_entries(t, p, n) == take_entries(s, p, n),
    decreases n,
{
    if n > 0 {
        lemma_take_string(s, t, p);
        if let Ok((q, key)) = take_string(s, p) {
            lemma_take_u32(s, t, q);
            if let Ok((r, vt)) = take_u32(s, q) {
                lemma_take_value(s, t, r, vt);
                if let Ok((u, v)) = take_value(s, r, vt) {
                    lemma_take_entries(s, t, u, (n - 1) as nat);
                }
            }
        }
    }
}

/// Reading a header needs only the beginning of a file: whatever a prefix of
/// the bytes gives, unless it ran out of data, the whole file gives too.
pub proof fn lemma_header_prefix(s: Seq<u8>, t: Seq<u8>)
    requires
        prefix_of(s, t),
        parse_header(s) != Err::<HeaderModel, GgufError>(GgufError::UnexpectedEof),
    ensures
        parse_header(t) == parse_header(s),
{
    if s.len() >= 4 {
        lemma_same_bytes(s, t, 0, 4);
        assert(t.take(4) =~= s.take(4));
        if s.take(4) == magic() {
            lemma_take_u32(s, t, 4);
            if let Ok((p, version)) = take_u32(s, 4) {
                if version >= 2 {
                    lemma_take_u64(s, t, p);
                    if let Ok((q, _)) = take_u64(s, p) {
                        lemma_take_u64(s, t, q);
                        if let Ok((r, kv_count)) = take_u64(s, q) {
                            if kv_count <= max_kv_count() {
                                lemma_take_entries(s, t, r, kv_count as nat);
                            }
                        }
                    }
                }
            }
        }
    }
}

} // verus!

