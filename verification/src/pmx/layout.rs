//! The PMX byte layout, written as specification functions over the input
//! bytes.  Every parse function returns either the decoded value together
//! with the position just past it, or the error that stops the parse.
use vstd::prelude::*;

verus! {

/// Why a PMX byte stream was rejected.
#[derive(Debug, Clone, Copy, PartialEq, Eq, Structural)]
pub enum PmxError {
    /// The input ended before a field was complete.
    UnexpectedEof,
    /// The file does not start with the `PMX ` magic.
    NotPmx,
    /// The version field (given by its IEEE-754 bit pattern) is outside 2.0 ..= 2.2.
    UnsupportedVersion(u32),
    /// The header announces fewer than eight settings bytes.
    InvalidHeaderLength(u8),
    /// An index field width other than 1, 2 or 4.
    InvalidIndexSize(u8),
    /// A vertex index width other than 1, 2 or 4.
    InvalidVertexIndexSize(u8),
    /// A four-byte vertex index that is negative.
    NegativeVertexIndex(i32),
    /// An unknown bone-weight encoding.
    UnknownWeightType(u8),
    /// A negative string length or element count.
    NegativeLength(i32),
    /// Text that is not valid UTF-16 or UTF-8.
    InvalidText,
}

/// The settings that the header announces.
#[derive(Debug, Clone, Copy, PartialEq, Eq, Structural)]
pub struct PmxHeader {
    /// 0 for UTF-16LE text, anything else for UTF-8.
    pub encoding: u8,
    /// Number of extra four-component UV sets per vertex.
    pub additional_uv: u8,
    pub vertex_index_size: u8,
    pub texture_index_size: u8,
    pub material_index_size: u8,
}

/// A vertex record with its floating-point fields kept as IEEE-754 bit
/// patterns (`f32::from_bits` gives the numbers).
#[derive(Debug, Clone, Copy, PartialEq, Eq)]
pub struct PmxVertex {
    pub position: [u32; 3],
    pub normal: [u32; 3],
    pub uv: [u32; 2],
}

/// The parts of a material record that the renderer uses; colours are kept
/// as IEEE-754 bit patterns.
#[derive(Debug, Clone, Copy, PartialEq, Eq)]
pub struct PmxMaterial {
    pub diffuse: [u32; 4],
    pub specular: [u32; 3],
    pub shininess: u32,
    pub texture_index: Option<usize>,
    pub num_face_vertices: i32,
}

/// A parse outcome: the value and the position after it, or an error.
pub type Parsed<T> = Result<(T, int), PmxError>;

/// `n` bytes are available at position `p` of `s`.
pub open spec fn avail(s: Seq<u8>, p: int, n: int) -> bool {
    0 <= p && 0 <= n && p + n <= s.len()
}

/// Little-endian unsigned 16-bit value at `p`.
pub open spec fn le_u16(s: Seq<u8>, p: int) -> int {
    s[p] as int + 256 * (s[p + 1] as int)
}

/// Little-endian unsigned 32-bit value at `p`.
pub open spec fn le_u32(s: Seq<u8>, p: int) -> int {
    le_u16(s, p) + 65536 * le_u16(s, p + 2)
}

/// Two's-complement reading of an 8-bit pattern.
pub open spec fn signed8(v: int) -> int {
    if v < 0x80 { v } else { v - 0x100 }
}

/// Two's-complement reading of a 16-bit pattern.
pub open spec fn signed16(v: int) -> int {
    if v < 0x8000 { v } else { v - 0x1_0000 }
}

/// Two's-complement reading of a 32-bit pattern.
pub open spec fn signed32(v: int) -> int {
    if v < 0x8000_0000 { v } else { v - 0x1_0000_0000 }
}

/// Skips `n` bytes.
pub open spec fn spec_skip(s: Seq<u8>, p: int, n: int) -> Result<int, PmxError> {
    if avail(s, p, n) { Ok(p + n) } else { Err(PmxError::UnexpectedEof) }
}

pub open spec fn spec_u8(s: Seq<u8>, p: int) -> Parsed<u8> {
    if avail(s, p, 1) { Ok((s[p], p + 1)) } else { Err(PmxError::UnexpectedEof) }
}

pub open spec fn spec_i8(s: Seq<u8>, p: int) -> Parsed<i8> {
    if avail(s, p, 1) {
        Ok((signed8(s[p] as int) as i8, p + 1))
    } else {
        Err(PmxError::UnexpectedEof)
    }
}

pub open spec fn spec_u16(s: Seq<u8>, p: int) -> Parsed<u16> {
    if avail(s, p, 2) { Ok((le_u16(s, p) as u16, p + 2)) } else { Err(PmxError::UnexpectedEof) }
}

pub open spec fn spec_i16(s: Seq<u8>, p: int) -> Parsed<i16> {
    if avail(s, p, 2) {
        Ok((signed16(le_u16(s, p)) as i16, p + 2))
    } else {
        Err(PmxError::UnexpectedEof)
    }
}

pub open spec fn spec_i32(s: Seq<u8>, p: int) -> Parsed<i32> {
    if avail(s, p, 4) {
        Ok((signed32(le_u32(s, p)) as i32, p + 4))
    } else {
        Err(PmxError::UnexpectedEof)
    }
}

/// Reads the IEEE-754 bit pattern of a little-endian `f32`.
pub open spec fn spec_f32_bits(s: Seq<u8>, p: int) -> Parsed<u32> {
    if avail(s, p, 4) { Ok((le_u32(s, p) as u32, p + 4)) } else { Err(PmxError::UnexpectedEof) }
}

/// Three consecutive `f32` bit patterns.
pub open spec fn spec_vec3_bits(s: Seq<u8>, p: int) -> Parsed<[u32; 3]> {
    if avail(s, p, 12) {
        Ok(([le_u32(s, p) as u32, le_u32(s, p + 4) as u32, le_u32(s, p + 8) as u32], p + 12))
    } else {
        Err(PmxError::UnexpectedEof)
    }
}

/// Two consecutive `f32` bit patterns.
pub open spec fn spec_vec2_bits(s: Seq<u8>, p: int) -> Parsed<[u32; 2]> {
    if avail(s, p, 8) {
        Ok(([le_u32(s, p) as u32, le_u32(s, p + 4) as u32], p + 8))
    } else {
        Err(PmxError::UnexpectedEof)
    }
}

/// Four consecutive `f32` bit patterns.
pub open spec fn spec_vec4_bits(s: Seq<u8>, p: int) -> Parsed<[u32; 4]> {
    if avail(s, p, 16) {
        Ok((
            [
                le_u32(s, p) as u32,
                le_u32(s, p + 4) as u32,
                le_u32(s, p + 8) as u32,
                le_u32(s, p + 12) as u32,
            ],
            p + 16,
        ))
    } else {
        Err(PmxError::UnexpectedEof)
    }
}

/// A signed index of `size` bytes; only widths 1, 2 and 4 exist.
pub open spec fn spec_index(s: Seq<u8>, p: int, size: u8) -> Parsed<i32> {
    if size == 1 {
        match spec_i8(s, p) {
            Ok((v, q)) => Ok((v as i32, q)),
            Err(e) => Err(e),
        }
    } else if size == 2 {
        match spec_i16(s, p) {
            Ok((v, q)) => Ok((v as i32, q)),
            Err(e) => Err(e),
        }
    } else if size == 4 {
        spec_i32(s, p)
    } else {
        Err(PmxError::InvalidIndexSize(size))
    }
}

/// A vertex index of a face: unsigned for widths 1 and 2, a non-negative
/// signed value for width 4.
pub open spec fn spec_raw_vertex_index(s: Seq<u8>, p: int, size: u8) -> Parsed<i32> {
    if size == 1 {
        match spec_u8(s, p) {
            Ok((v, q)) => Ok((v as i32, q)),
            Err(e) => Err(e),
        }
    } else if size == 2 {
        match spec_u16(s, p) {
            Ok((v, q)) => Ok((v as i32, q)),
            Err(e) => Err(e),
        }
    } else if size == 4 {
        match spec_i32(s, p) {
            Ok((v, q)) => if v < 0 {
                Err(PmxError::NegativeVertexIndex(v))
            } else {
                Ok((v, q))
            },
            Err(e) => Err(e),
        }
    } else {
        Err(PmxError::InvalidVertexIndexSize(size))
    }
}

/// A texture reference: a negative index means "no texture".
pub open spec fn spec_texture_index(s: Seq<u8>, p: int, size: u8) -> Parsed<Option<usize>> {
    match spec_index(s, p, size) {
        Ok((v, q)) => Ok((if v < 0 { None } else { Some(v as usize) }, q)),
        Err(e) => Err(e),
    }
}

/// UTF-16 code units assembled little-endian from consecutive byte pairs; an
/// odd trailing byte is ignored.
pub open spec fn utf16_units(bytes: Seq<u8>) -> Seq<u16> {
    Seq::new((bytes.len() / 2) as nat, |i: int| le_u16(bytes, 2 * i) as u16)
}

/// Decoding of UTF-16: unpaired surrogates make the text invalid.
pub open spec fn utf16_decode(units: Seq<u16>) -> Option<Seq<char>>
    decreases units.len(),
{
    if units.len() == 0 {
        Some(Seq::empty())
    } else {
        let u = units[0] as int;
        if u < 0xD800 || u > 0xDFFF {
            match utf16_decode(units.drop_first()) {
                Some(rest) => Some(seq![u as char] + rest),
                None => None,
            }
        } else if u <= 0xDBFF && units.len() >= 2 && 0xDC00 <= units[1] <= 0xDFFF {
            let c = 0x1_0000 + (u - 0xD800) * 0x400 + (units[1] as int - 0xDC00);
            match utf16_decode(units.subrange(2, units.len() as int)) {
                Some(rest) => Some(seq![c as char] + rest),
                None => None,
            }
        } else {
            None
        }
    }
}

/// The text of a string body in the given encoding.
pub open spec fn decode_text(bytes: Seq<u8>, encoding: u8) -> Option<Seq<char>> {
    if encoding == 0 {
        utf16_decode(utf16_units(bytes))
    } else if vstd::utf8::valid_utf8(bytes) {
        Some(vstd::utf8::decode_utf8(bytes))
    } else {
        None
    }
}

/// A string: a signed 32-bit byte length followed by the encoded text.
pub open spec fn spec_string(s: Seq<u8>, p: int, encoding: u8) -> Parsed<Seq<char>> {
    match spec_i32(s, p) {
        Err(e) => Err(e),
        Ok((len, q)) => if len < 0 {
            Err(PmxError::NegativeLength(len))
        } else if len == 0 {
            Ok((Seq::empty(), q))
        } else if !avail(s, q, len as int) {
            Err(PmxError::UnexpectedEof)
        } else {
            match decode_text(s.subrange(q, q + len as int), encoding) {
                Some(t) => Ok((t, q + len as int)),
                None => Err(PmxError::InvalidText),
            }
        },
    }
}

/// Where reading a string stops when it fails: before the length when the
/// length is cut off, after the length when it is negative or the text is
/// cut off, and after the text when the text does not decode.
pub open spec fn string_error_pos(s: Seq<u8>, p: int) -> int {
    match spec_i32(s, p) {
        Err(_) => p,
        Ok((len, q)) => if len < 0 || !avail(s, q, len as int) { q } else { q + len },
    }
}

/// Where reading `n` strings in a row stops when one of them fails.
pub open spec fn strings_error_pos(s: Seq<u8>, p: int, encoding: u8, n: nat) -> int
    decreases n,
{
    if n == 0 {
        p
    } else {
        match spec_string(s, p, encoding) {
            Err(_) => string_error_pos(s, p),
            Ok((_, q)) => strings_error_pos(s, q, encoding, (n - 1) as nat),
        }
    }
}

/// `n` items in a row, each read by `item` from where the previous one ended.
pub open spec fn spec_repeat<T>(item: spec_fn(int) -> Parsed<T>, p: int, n: nat) -> Parsed<Seq<T>>
    decreases n,
{
    if n == 0 {
        Ok((Seq::empty(), p))
    } else {
        match spec_repeat(item, p, (n - 1) as nat) {
            Err(e) => Err(e),
            Ok((items, q)) => match item(q) {
                Err(e) => Err(e),
                Ok((x, q2)) => Ok((items.push(x), q2)),
            },
        }
    }
}

/// Once a run of items has failed, reading more of them fails the same way.
pub proof fn lemma_repeat_error_persists<T>(item: spec_fn(int) -> Parsed<T>, p: int, m: nat, n: nat)
    requires
        m <= n,
        spec_repeat(item, p, m) is Err,
    ensures
        spec_repeat(item, p, n) == spec_repeat(item, p, m),
    decreases n,
{
    if n > m {
        lemma_repeat_error_persists(item, p, m, (n - 1) as nat);
    }
}

/// Where reading `n` items in a row stops when one of them fails: where
/// `stop` says the first failing item's own read stops.
pub open spec fn repeat_error_pos<T>(item: spec_fn(int) -> Parsed<T>, stop: spec_fn(int) -> int, p: int, n: nat) -> int
    decreases n,
{
    if n == 0 {
        p
    } else {
        match spec_repeat(item, p, (n - 1) as nat) {
            Err(_) => repeat_error_pos(item, stop, p, (n - 1) as nat),
            Ok((_, q)) => stop(q),
        }
    }
}

/// When item `i` is the first to fail, a run of any longer length stops
/// where that item stops.
pub proof fn lemma_repeat_error_pos<T>(item: spec_fn(int) -> Parsed<T>, stop: spec_fn(int) -> int, p: int, i: nat, q: int, n: nat)
    requires
        spec_repeat(item, p, i) matches Ok((_, q2)) && q2 == q,
        item(q) is Err,
        i < n,
    ensures
        spec_repeat(item, p, n) is Err,
        repeat_error_pos(item, stop, p, n) == stop(q),
    decreases n,
{
    if n > i + 1 {
        lemma_repeat_error_pos(item, stop, p, i, q, (n - 1) as nat);
        lemma_repeat_error_persists(item, p, (n - 1) as nat, n);
    }
}

/// Where reading a section (a count, then that many items) stops when it
/// fails.
pub open spec fn section_error_pos<T>(s: Seq<u8>, p: int, item: spec_fn(int) -> Parsed<T>, stop: spec_fn(int) -> int) -> int {
    match spec_i32(s, p) {
        Err(_) => p,
        Ok((n, q)) => if n < 0 { q } else { repeat_error_pos(item, stop, q, n as nat) },
    }
}

/// Reading one string in the given encoding.
pub open spec fn string_item(s: Seq<u8>, encoding: u8) -> spec_fn(int) -> Parsed<Seq<char>> {
    |q: int| spec_string(s, q, encoding)
}

/// An element count: a signed 32-bit value that must not be negative.
pub open spec fn spec_count(s: Seq<u8>, p: int) -> Parsed<nat> {
    match spec_i32(s, p) {
        Err(e) => Err(e),
        Ok((n, q)) => if n < 0 { Err(PmxError::NegativeLength(n)) } else { Ok((n as nat, q)) },
    }
}

/// IEEE-754 bit patterns of 2.0 and of the `f32` nearest to 2.2.
pub const VERSION_MIN_BITS: u32 = 0x4000_0000;
pub const VERSION_MAX_BITS: u32 = 0x400C_CCCD;

/// Whether an `f32` version number, given by its bit pattern, lies in
/// 2.0 ..= 2.2.  Positive floats are ordered like their bit patterns, and
/// every negative float, infinity or NaN lies outside this band of patterns.
pub open spec fn version_supported(bits: u32) -> bool {
    VERSION_MIN_BITS <= bits <= VERSION_MAX_BITS
}

/// The file header: magic, version, settings length and settings.
pub open spec fn spec_header(s: Seq<u8>, p: int) -> Parsed<PmxHeader> {
    if !avail(s, p, 4) {
        Err(PmxError::UnexpectedEof)
    } else if s.subrange(p, p + 4) != seq![0x50u8, 0x4Du8, 0x58u8, 0x20u8] {
        Err(PmxError::NotPmx)
    } else {
        match spec_f32_bits(s, p + 4) {
            Err(e) => Err(e),
            Ok((version, q)) => if !version_supported(version) {
                Err(PmxError::UnsupportedVersion(version))
            } else {
                match spec_u8(s, q) {
                    Err(e) => Err(e),
                    Ok((n, r)) => if n < 8 {
                        Err(PmxError::InvalidHeaderLength(n))
                    } else if !avail(s, r, n as int) {
                        Err(PmxError::UnexpectedEof)
                    } else {
                        Ok((
                            PmxHeader {
                                encoding: s[r],
                                additional_uv: s[r + 1],
                                vertex_index_size: s[r + 2],
                                texture_index_size: s[r + 3],
                                material_index_size: s[r + 4],
                            },
                            r + n as int,
                        ))
                    },
                }
            },
        }
    }
}

/// Where reading the header stops when it fails: each field is consumed
/// only once it is complete, and a cut-off settings block is read up to
/// the end of the input.
pub open spec fn header_error_pos(s: Seq<u8>, p: int) -> int {
    if !avail(s, p, 4) {
        p
    } else if s.subrange(p, p + 4) != seq![0x50u8, 0x4Du8, 0x58u8, 0x20u8] {
        p + 4
    } else {
        match spec_f32_bits(s, p + 4) {
            Err(_) => p + 4,
            Ok((version, q)) => if !version_supported(version) {
                q
            } else {
                match spec_u8(s, q) {
                    Err(_) => q,
                    Ok((n, r)) => if n < 8 { r } else { s.len() as int },
                }
            },
        }
    }
}

/// The model name and comment, each in two languages.
pub open spec fn spec_model_info(s: Seq<u8>, p: int, encoding: u8) -> Result<int, PmxError> {
    match spec_repeat(string_item(s, encoding), p, 4) {
        Ok((_, q)) => Ok(q),
        Err(e) => Err(e),
    }
}

/// `n` signed indices of `size` bytes whose values are not kept.
pub open spec fn spec_skip_indices(s: Seq<u8>, p: int, size: u8, n: nat) -> Result<int, PmxError>
    decreases n,
{
    if n == 0 {
        Ok(p)
    } else {
        match spec_index(s, p, size) {
            Err(e) => Err(e),
            Ok((_, q)) => spec_skip_indices(s, q, size, (n - 1) as nat),
        }
    }
}

/// Where skipping `n` indices stops when one of them fails: at the start
/// of the failing index.
pub open spec fn skip_indices_error_pos(s: Seq<u8>, p: int, size: u8, n: nat) -> int
    decreases n,
{
    if n == 0 {
        p
    } else {
        match spec_index(s, p, size) {
            Err(_) => p,
            Ok((_, q)) => skip_indices_error_pos(s, q, size, (n - 1) as nat),
        }
    }
}

/// Number of bone indices of a known weight type.
pub open spec fn weight_index_count(t: u8) -> nat {
    if t == 0 { 1 } else if t == 1 || t == 3 { 2 } else { 4 }
}

/// Where skipping bone weights stops when it fails: before the type byte
/// when it is missing, just after it for an unknown type, at the start of
/// the failing bone index, or before the weights when they are cut off.
pub open spec fn bone_weights_error_pos(s: Seq<u8>, p: int, size: u8) -> int {
    match spec_u8(s, p) {
        Err(_) => p,
        Ok((t, q)) => if t > 4 {
            q
        } else {
            match spec_skip_indices(s, q, size, weight_index_count(t)) {
                Err(_) => skip_indices_error_pos(s, q, size, weight_index_count(t)),
                Ok(q2) => q2,
            }
        },
    }
}

/// The bone weights of a vertex, which the renderer does not use: a type
/// byte, then bone indices and `f32` weights (and, for type 3, three
/// vectors) whose number depends on the type.
pub open spec fn spec_bone_weights(s: Seq<u8>, p: int, size: u8) -> Result<int, PmxError> {
    match spec_u8(s, p) {
        Err(e) => Err(e),
        Ok((t, q)) => if t == 0 {
            spec_skip_indices(s, q, size, 1)
        } else if t == 1 {
            match spec_skip_indices(s, q, size, 2) {
                Ok(q2) => spec_skip(s, q2, 4),
                Err(e) => Err(e),
            }
        } else if t == 2 || t == 4 {
            match spec_skip_indices(s, q, size, 4) {
                Ok(q2) => spec_skip(s, q2, 16),
                Err(e) => Err(e),
            }
        } else if t == 3 {
            match spec_skip_indices(s, q, size, 2) {
                Ok(q2) => spec_skip(s, q2, 40),
                Err(e) => Err(e),
            }
        } else {
            Err(PmxError::UnknownWeightType(t))
        },
    }
}

/// One vertex: position, normal, UV, the additional UV sets, bone weights
/// and edge scale.
pub open spec fn spec_vertex(s: Seq<u8>, p: int, h: PmxHeader) -> Parsed<PmxVertex> {
    match spec_vec3_bits(s, p) {
        Err(e) => Err(e),
        Ok((position, p1)) => match spec_vec3_bits(s, p1) {
            Err(e) => Err(e),
            Ok((normal, p2)) => match spec_vec2_bits(s, p2) {
                Err(e) => Err(e),
                Ok((uv, p3)) => match spec_skip(s, p3, 16 * h.additional_uv) {
                    Err(e) => Err(e),
                    Ok(p4) => match spec_bone_weights(s, p4, h.vertex_index_size) {
                        Err(e) => Err(e),
                        Ok(p5) => match spec_skip(s, p5, 4) {
                            Err(e) => Err(e),
                            Ok(p6) => Ok((PmxVertex { position, normal, uv }, p6)),
                        },
                    },
                },
            },
        },
    }
}

pub open spec fn vertex_item(s: Seq<u8>, h: PmxHeader) -> spec_fn(int) -> Parsed<PmxVertex> {
    |q: int| spec_vertex(s, q, h)
}

/// The vertex section: a count, then that many vertices.
pub open spec fn spec_vertices(s: Seq<u8>, p: int, h: PmxHeader) -> Parsed<Seq<PmxVertex>> {
    match spec_count(s, p) {
        Err(e) => Err(e),
        Ok((n, q)) => spec_repeat(vertex_item(s, h), q, n),
    }
}

/// Where reading a face index stops when it fails: a negative four-byte
/// index has been read, anything else that fails reads nothing.
pub open spec fn raw_index_stop(s: Seq<u8>, size: u8) -> spec_fn(int) -> int {
    |q: int| {
        let negative = match spec_i32(s, q) {
            Ok((v, _)) => v < 0,
            Err(_) => false,
        };
        if size == 4 && negative { q + 4 } else { q }
    }
}

/// Where reading a vertex stops when it fails: each fixed-size field is
/// consumed only when complete, and bone weights stop as stated there.
pub open spec fn vertex_error_pos(s: Seq<u8>, p: int, h: PmxHeader) -> int {
    match spec_vec3_bits(s, p) {
        Err(_) => p,
        Ok((_, p1)) => match spec_vec3_bits(s, p1) {
            Err(_) => p1,
            Ok((_, p2)) => match spec_vec2_bits(s, p2) {
                Err(_) => p2,
                Ok((_, p3)) => match spec_skip(s, p3, 16 * h.additional_uv) {
                    Err(_) => p3,
                    Ok(p4) => match spec_bone_weights(s, p4, h.vertex_index_size) {
                        Err(_) => bone_weights_error_pos(s, p4, h.vertex_index_size),
                        Ok(p5) => p5,
                    },
                },
            },
        },
    }
}

pub open spec fn vertex_stop(s: Seq<u8>, h: PmxHeader) -> spec_fn(int) -> int {
    |q: int| vertex_error_pos(s, q, h)
}

pub open spec fn raw_index_item(s: Seq<u8>, size: u8) -> spec_fn(int) -> Parsed<i32> {
    |q: int| spec_raw_vertex_index(s, q, size)
}

/// The smallest element of a non-empty sequence.
pub open spec fn seq_min(raw: Seq<i32>) -> i32
    decreases raw.len(),
{
    if raw.len() <= 1 {
        raw[0]
    } else {
        let m = seq_min(raw.drop_last());
        if raw.last() < m { raw.last() } else { m }
    }
}

/// The base that face indices are counted from: the smallest index in the
/// file (files may count from 0 or from 1), or 1 when there is none.
pub open spec fn index_base(raw: Seq<i32>) -> i32 {
    if raw.len() == 0 { 1 } else { seq_min(raw) }
}

/// Triangles from consecutive triples of indices, rebased to count from 0;
/// one or two left-over indices are dropped.
pub open spec fn faces_from_raw(raw: Seq<i32>) -> Seq<[usize; 3]> {
    let b = index_base(raw) as int;
    Seq::new(
        (raw.len() / 3) as nat,
        |t: int|
            [
                (raw[3 * t] - b) as usize,
                (raw[3 * t + 1] - b) as usize,
                (raw[3 * t + 2] - b) as usize,
            ],
    )
}

/// The face section: a count of indices, the indices, grouped in triangles.
pub open spec fn spec_faces(s: Seq<u8>, p: int, size: u8) -> Parsed<Seq<[usize; 3]>> {
    match spec_count(s, p) {
        Err(e) => Err(e),
        Ok((n, q)) => match spec_repeat(raw_index_item(s, size), q, n) {
            Err(e) => Err(e),
            Ok((raw, q2)) => Ok((faces_from_raw(raw), q2)),
        },
    }
}

/// The base is at most every index and, when there are indices, is one of
/// them; with non-negative indices it is non-negative.
pub proof fn lemma_index_base_bounds(raw: Seq<i32>)
    ensures
        forall|k: int| 0 <= k < raw.len() ==> index_base(raw) <= raw[k],
        raw.len() > 0 ==> exists|k: int| 0 <= k < raw.len() && raw[k] == index_base(raw),
        (forall|k: int| 0 <= k < raw.len() ==> raw[k] >= 0) ==> index_base(raw) >= 0,
    decreases raw.len(),
{
    if raw.len() > 1 {
        let init = raw.drop_last();
        lemma_index_base_bounds(init);
        assert forall|k: int| 0 <= k < init.len() implies init[k] == raw[k] by {}
        let k0 = choose|k: int| 0 <= k < init.len() && init[k] == index_base(init);
        if raw.last() < seq_min(init) {
            assert(raw[raw.len() - 1] == index_base(raw));
        } else {
            assert(raw[k0] == index_base(raw));
        }
    } else if raw.len() == 1 {
        assert(raw[0] == index_base(raw));
    }
}

/// Colour block of a material: diffuse RGBA, specular RGB, shininess,
/// ambient RGB (skipped), draw flags (skipped), edge colour RGBA and edge
/// size (skipped).
pub open spec fn spec_material_colors(s: Seq<u8>, p: int) -> Parsed<([u32; 4], [u32; 3], u32)> {
    match spec_vec4_bits(s, p) {
        Err(e) => Err(e),
        Ok((diffuse, p1)) => match spec_vec3_bits(s, p1) {
            Err(e) => Err(e),
            Ok((specular, p2)) => match spec_f32_bits(s, p2) {
                Err(e) => Err(e),
                Ok((shininess, p3)) => match spec_skip(s, p3, 12) {
                    Err(e) => Err(e),
                    Ok(p4) => match spec_u8(s, p4) {
                        Err(e) => Err(e),
                        Ok((_, p5)) => match spec_skip(s, p5, 20) {
                            Err(e) => Err(e),
                            Ok(p6) => Ok(((diffuse, specular, shininess), p6)),
                        },
                    },
                },
            },
        },
    }
}

/// Texture block of a material: texture, sphere map and its mode, then
/// either a toon texture index (shared-toon flag 0) or a shared toon number.
pub open spec fn spec_material_textures(s: Seq<u8>, p: int, size: u8) -> Parsed<Option<usize>> {
    match spec_texture_index(s, p, size) {
        Err(e) => Err(e),
        Ok((tex, p1)) => match spec_index(s, p1, size) {
            Err(e) => Err(e),
            Ok((_, p2)) => match spec_u8(s, p2) {
                Err(e) => Err(e),
                Ok((_, p3)) => match spec_u8(s, p3) {
                    Err(e) => Err(e),
                    Ok((toon, p4)) => {
                        let toon_end = if toon == 0 {
                            match spec_index(s, p4, size) {
                                Ok((_, q)) => Ok(q),
                                Err(e) => Err(e),
                            }
                        } else {
                            match spec_u8(s, p4) {
                                Ok((_, q)) => Ok(q),
                                Err(e) => Err(e),
                            }
                        };
                        match toon_end {
                            Ok(q) => Ok((tex, q)),
                            Err(e) => Err(e),
                        }
                    },
                },
            },
        },
    }
}

/// One material: two names, colours, textures, a memo and the number of
/// face indices it covers.
pub open spec fn spec_material(s: Seq<u8>, p: int, h: PmxHeader) -> Parsed<PmxMaterial> {
    match spec_repeat(string_item(s, h.encoding), p, 2) {
        Err(e) => Err(e),
        Ok((_, p1)) => match spec_material_colors(s, p1) {
            Err(e) => Err(e),
            Ok(((diffuse, specular, shininess), p2)) => match spec_material_textures(s, p2, h.texture_index_size) {
                Err(e) => Err(e),
                Ok((texture_index, p3)) => match spec_string(s, p3, h.encoding) {
                    Err(e) => Err(e),
                    Ok((_, p4)) => match spec_i32(s, p4) {
                        Err(e) => Err(e),
                        Ok((num_face_vertices, p5)) => Ok((
                            PmxMaterial { diffuse, specular, shininess, texture_index, num_face_vertices },
                            p5,
                        )),
                    },
                },
            },
        },
    }
}

/// Where reading a material's colour block stops when it fails: at the
/// start of the field that is cut off.
pub open spec fn material_colors_error_pos(s: Seq<u8>, p: int) -> int {
    match spec_vec4_bits(s, p) {
        Err(_) => p,
        Ok((_, p1)) => match spec_vec3_bits(s, p1) {
            Err(_) => p1,
            Ok((_, p2)) => match spec_f32_bits(s, p2) {
                Err(_) => p2,
                Ok((_, p3)) => match spec_skip(s, p3, 12) {
                    Err(_) => p3,
                    Ok(p4) => match spec_u8(s, p4) {
                        Err(_) => p4,
                        Ok((_, p5)) => p5,
                    },
                },
            },
        },
    }
}

/// Where reading a material's texture block stops when it fails: at the
/// start of the field that fails.
pub open spec fn material_textures_error_pos(s: Seq<u8>, p: int, size: u8) -> int {
    match spec_texture_index(s, p, size) {
        Err(_) => p,
        Ok((_, p1)) => match spec_index(s, p1, size) {
            Err(_) => p1,
            Ok((_, p2)) => match spec_u8(s, p2) {
                Err(_) => p2,
                Ok((_, p3)) => match spec_u8(s, p3) {
                    Err(_) => p3,
                    Ok((_, p4)) => p4,
                },
            },
        },
    }
}

/// Where reading a material stops when it fails.
pub open spec fn material_error_pos(s: Seq<u8>, p: int, h: PmxHeader) -> int {
    match spec_repeat(string_item(s, h.encoding), p, 2) {
        Err(_) => strings_error_pos(s, p, h.encoding, 2),
        Ok((_, p1)) => match spec_material_colors(s, p1) {
            Err(_) => material_colors_error_pos(s, p1),
            Ok((_, p2)) => match spec_material_textures(s, p2, h.texture_index_size) {
                Err(_) => material_textures_error_pos(s, p2, h.texture_index_size),
                Ok((_, p3)) => match spec_string(s, p3, h.encoding) {
                    Err(_) => string_error_pos(s, p3),
                    Ok((_, p4)) => p4,
                },
            },
        },
    }
}

pub open spec fn material_stop(s: Seq<u8>, h: PmxHeader) -> spec_fn(int) -> int {
    |q: int| material_error_pos(s, q, h)
}

pub open spec fn material_item(s: Seq<u8>, h: PmxHeader) -> spec_fn(int) -> Parsed<PmxMaterial> {
    |q: int| spec_material(s, q, h)
}

/// The material section: a count, then that many materials.
pub open spec fn spec_materials(s: Seq<u8>, p: int, h: PmxHeader) -> Parsed<Seq<PmxMaterial>> {
    match spec_count(s, p) {
        Err(e) => Err(e),
        Ok((n, q)) => spec_repeat(material_item(s, h), q, n),
    }
}

/// The texture section: a count, then that many path strings.
pub open spec fn spec_textures(s: Seq<u8>, p: int, encoding: u8) -> Parsed<Seq<Seq<char>>> {
    match spec_count(s, p) {
        Err(e) => Err(e),
        Ok((n, q)) => spec_repeat(string_item(s, encoding), q, n),
    }
}

/// The sections of a PMX file that the renderer uses.
pub struct PmxModelView {
    pub vertices: Seq<PmxVertex>,
    pub faces: Seq<[usize; 3]>,
    pub textures: Seq<Seq<char>>,
    pub materials: Seq<PmxMaterial>,
}

/// A whole file: header, model information, vertices, faces, texture
/// paths and materials.  Whatever follows the materials is not read.
pub open spec fn spec_pmx(s: Seq<u8>) -> Result<PmxModelView, PmxError> {
    match spec_header(s, 0) {
        Err(e) => Err(e),
        Ok((h, p1)) => match spec_model_info(s, p1, h.encoding) {
            Err(e) => Err(e),
            Ok(p2) => match spec_vertices(s, p2, h) {
                Err(e) => Err(e),
                Ok((vertices, p3)) => match spec_faces(s, p3, h.vertex_index_size) {
                    Err(e) => Err(e),
                    Ok((faces, p4)) => match spec_textures(s, p4, h.encoding) {
                        Err(e) => Err(e),
                        Ok((textures, p5)) => match spec_materials(s, p5, h) {
                            Err(e) => Err(e),
                            Ok((materials, _)) => Ok(PmxModelView { vertices, faces, textures, materials }),
                        },
                    },
                },
            },
        },
    }
}

/// A vertex record begins with its position, its normal and its UV, each a
/// run of little-endian `f32` bit patterns in that order: the position at
/// `p`, the normal 12 bytes on, the UV 24 bytes on.  The record is at
/// least 37 bytes long (those 32 bytes, a weight-type byte and the edge
/// scale).
pub proof fn lemma_vertex_fields(s: Seq<u8>, p: int, h: PmxHeader)
    ensures
        spec_vertex(s, p, h) matches Ok((v, q)) ==> {
            &&& v.position == [le_u32(s, p) as u32, le_u32(s, p + 4) as u32, le_u32(s, p + 8) as u32]
            &&& v.normal == [le_u32(s, p + 12) as u32, le_u32(s, p + 16) as u32, le_u32(s, p + 20) as u32]
            &&& v.uv == [le_u32(s, p + 24) as u32, le_u32(s, p + 28) as u32]
            &&& p + 37 <= q <= s.len()
        },
{
    if let Ok((v, q)) = spec_vertex(s, p, h) {
        let p4 = p + 32 + 16 * h.additional_uv;
        let p5 = spec_bone_weights(s, p4, h.vertex_index_size).unwrap();
        assert(p5 >= p4 + 1) by {
            lemma_bone_weights_advance(s, p4, h.vertex_index_size);
        }
    }
}

/// Skipped bone weights take at least the type byte and end within the
/// input.
proof fn lemma_bone_weights_advance(s: Seq<u8>, p: int, size: u8)
    ensures
        spec_bone_weights(s, p, size) matches Ok(q) ==> p + 1 <= q <= s.len(),
{
    if let Ok((t, q)) = spec_u8(s, p) {
        let k: nat = if t == 0 { 1 } else if t == 1 || t == 3 { 2 } else { 4 };
        lemma_skip_indices_advance(s, q, size, k);
    }
}

/// Skipped indices move forward and end within the input.
proof fn lemma_skip_indices_advance(s: Seq<u8>, p: int, size: u8, n: nat)
    ensures
        spec_skip_indices(s, p, size, n) matches Ok(q) ==> p <= q && (n > 0 ==> q <= s.len()) && (n == 0 ==> q == p),
    decreases n,
{
    if n > 0 {
        if let Ok((_, q)) = spec_index(s, p, size) {
            lemma_skip_indices_advance(s, q, size, (n - 1) as nat);
        }
    }
}

/// A material's colours come straight after its two name strings, in file
/// order: diffuse red, green, blue, alpha at `c`, `c + 4`, `c + 8`,
/// `c + 12`, specular red, green, blue from `c + 16`, and shininess at
/// `c + 28`; its face-vertex count is the last four bytes of the record.
pub proof fn lemma_material_fields(s: Seq<u8>, p: int, h: PmxHeader)
    ensures
        spec_material(s, p, h) matches Ok((m, q)) ==> spec_repeat(string_item(s, h.encoding), p, 2) matches Ok((
            _,
            c,
        )) && {
            &&& m.diffuse == [
                le_u32(s, c) as u32,
                le_u32(s, c + 4) as u32,
                le_u32(s, c + 8) as u32,
                le_u32(s, c + 12) as u32,
            ]
            &&& m.specular == [le_u32(s, c + 16) as u32, le_u32(s, c + 20) as u32, le_u32(s, c + 24) as u32]
            &&& m.shininess == le_u32(s, c + 28) as u32
            &&& m.num_face_vertices == signed32(le_u32(s, q - 4)) as i32
            &&& c + 65 <= q <= s.len()
        },
{
    if let Ok((m, q)) = spec_material(s, p, h) {
        let (_, c) = spec_repeat(string_item(s, h.encoding), p, 2).unwrap();
        let ((d, sp, sh), c2) = spec_material_colors(s, c).unwrap();
        assert(c2 == c + 65);
        let (_, c3) = spec_material_textures(s, c2, h.texture_index_size).unwrap();
        assert(c3 >= c2) by {
            lemma_material_textures_advance(s, c2, h.texture_index_size);
        }
        let (_, c4) = spec_string(s, c3, h.encoding).unwrap();
        assert(c4 >= c3);
    }
}

/// The texture block moves forward.
proof fn lemma_material_textures_advance(s: Seq<u8>, p: int, size: u8)
    ensures
        spec_material_textures(s, p, size) matches Ok((_, q)) ==> p <= q,
{
}

/// Rebasing keeps every index's distance from the smallest one: corner `c`
/// of triangle `t` is raw index `3 t + c` minus the smallest raw index, and
/// the leftover one or two indices are dropped.
pub proof fn lemma_faces_rebased(raw: Seq<i32>)
    ensures
        faces_from_raw(raw).len() == raw.len() / 3,
        forall|t: int, c: int|
            0 <= t < raw.len() / 3 && 0 <= c < 3 ==> (#[trigger] faces_from_raw(raw)[t][c]) as int == raw[3 * t + c]
                - seq_min(raw),
{
    lemma_index_base_bounds(raw);
    assert forall|t: int, c: int|
        0 <= t < raw.len() / 3 && 0 <= c < 3 implies (#[trigger] faces_from_raw(raw)[t][c]) as int == raw[3 * t + c]
            - seq_min(raw) by {
        assert(3 * t + c < raw.len());
        assert(index_base(raw) == seq_min(raw));
        assert(index_base(raw) <= raw[3 * t + c]);
        assert(raw[3 * t + c] - index_base(raw) <= 0xFFFF_FFFF);
    }
}

} // verus!
