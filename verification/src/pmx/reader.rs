//! A cursor over the bytes of a PMX file.
use vstd::prelude::*;
use crate::pmx::layout::{self, PmxError, PmxHeader};

verus! {

/// Reads little-endian fields from an in-memory PMX file, front to back.
/// The public fields hold the settings announced by the file header.
pub struct Reader {
    data: Vec<u8>,
    pos: usize,
    settings: PmxHeader,
}

impl Reader {
    /// The whole input.
    pub closed spec fn bytes(&self) -> Seq<u8> {
        self.data@
    }

    /// The position of the next unread byte.
    pub closed spec fn pos(&self) -> int {
        self.pos as int
    }

    /// The position never passes the end of the input.
    #[verifier::type_invariant]
    spec fn pos_in_bounds(&self) -> bool {
        self.pos <= self.data@.len()
    }

    /// The position of the next unread byte, which is never past the end of
    /// the input.
    pub fn position(&self) -> (p: usize)
        ensures
            p == self.pos(),
            p <= self.bytes().len(),
    {
        proof {
            use_type_invariant(self);
        }
        self.pos
    }

    /// The settings in force (the defaults until a header has been read).
    pub closed spec fn settings(&self) -> PmxHeader {
        self.settings
    }

    /// Same input and same settings; only the position may differ.
    pub open spec fn same_source(&self, other: &Reader) -> bool {
        &&& self.bytes() == other.bytes()
        &&& self.settings() == other.settings()
    }

    /// The default settings of a reader that has not read a header yet.
    pub open spec fn default_settings() -> PmxHeader {
        PmxHeader {
            encoding: 0,
            additional_uv: 0,
            vertex_index_size: 4,
            texture_index_size: 4,
            material_index_size: 4,
        }
    }

    /// 0 for UTF-16LE strings, anything else for UTF-8.
    pub fn encoding(&self) -> (v: u8)
        ensures
            v == self.settings().encoding,
    {
        self.settings.encoding
    }

    /// Number of additional UV sets per vertex.
    pub fn additional_uv(&self) -> (v: u8)
        ensures
            v == self.settings().additional_uv,
    {
        self.settings.additional_uv
    }

    /// Width in bytes of a vertex index.
    pub fn vertex_index_size(&self) -> (v: u8)
        ensures
            v == self.settings().vertex_index_size,
    {
        self.settings.vertex_index_size
    }

    /// Width in bytes of a texture index.
    pub fn texture_index_size(&self) -> (v: u8)
        ensures
            v == self.settings().texture_index_size,
    {
        self.settings.texture_index_size
    }

    /// Width in bytes of a material index.
    pub fn material_index_size(&self) -> (v: u8)
        ensures
            v == self.settings().material_index_size,
    {
        self.settings.material_index_size
    }

    pub fn new(data: Vec<u8>) -> (r: Reader)
        ensures
            r.bytes() == data@,
            r.pos() == 0,
            r.settings() == Self::default_settings(),
    {
        Reader {
            data,
            pos: 0,
            settings: PmxHeader {
                encoding: 0,
                additional_uv: 0,
                vertex_index_size: 4,
                texture_index_size: 4,
                material_index_size: 4,
            },
        }
    }

    /// Whether `n` more bytes can be read.
    fn available(&self, n: usize) -> (b: bool)
        ensures
            b == layout::avail(self.bytes(), self.pos(), n as int),
            self.bytes().len() <= usize::MAX,
    {
        assert(self.data.len() == self.data@.len());
        n <= self.data.len() && self.pos <= self.data.len() - n
    }

    /// What a read leaves behind: the input and settings are untouched, and
    /// the result and the new position are those of `expected`.  Where a
    /// read stops on an error is stated by each read separately.
    pub open spec fn read_outcome<T>(
        expected: layout::Parsed<T>,
        r: Result<T, PmxError>,
        before: &Reader,
        after: &Reader,
    ) -> bool {
        &&& after.same_source(before)
        &&& match expected {
            Ok((v, p)) => r == Ok::<T, PmxError>(v) && after.pos() == p,
            Err(e) => r == Err::<T, PmxError>(e),
        }
    }

    /// The little-endian 16-bit value at `p`.
    fn le16_at(&self, p: usize) -> (v: u16)
        requires
            p + 2 <= self.bytes().len(),
            self.bytes().len() <= usize::MAX,
        ensures
            v == layout::le_u16(self.bytes(), p as int),
    {
        let lo = self.data[p] as u16;
        let hi = self.data[p + 1] as u16;
        lo + hi * 256
    }

    /// The little-endian 32-bit value at `p`.
    fn le32_at(&self, p: usize) -> (v: u32)
        requires
            p + 4 <= self.bytes().len(),
            self.bytes().len() <= usize::MAX,
        ensures
            v == layout::le_u32(self.bytes(), p as int),
    {
        let lo = self.le16_at(p) as u32;
        let hi = self.le16_at(p + 2) as u32;
        lo + hi * 65536
    }

    /// Moves past `n` bytes, failing if fewer remain.
    pub(crate) fn skip(&mut self, n: usize) -> (r: Result<(), PmxError>)
        ensures
            final(self).same_source(old(self)),
            match layout::spec_skip(old(self).bytes(), old(self).pos(), n as int) {
                Ok(p) => r == Ok::<(), PmxError>(()) && final(self).pos() == p,
                Err(e) => r == Err::<(), PmxError>(e) && final(self).pos() == old(self).pos(),
            },
    {
        if !self.available(n) {
            return Err(PmxError::UnexpectedEof);
        }
        self.pos = self.pos + n;
        Ok(())
    }

    pub fn read_u8(&mut self) -> (r: Result<u8, PmxError>)
        ensures
            Self::read_outcome(layout::spec_u8(old(self).bytes(), old(self).pos()), r, old(self), final(self)),
            r is Err ==> final(self).pos() == old(self).pos(),
    {
        if !self.available(1) {
            return Err(PmxError::UnexpectedEof);
        }
        let b = self.data[self.pos];
        self.pos = self.pos + 1;
        Ok(b)
    }

    pub fn read_i8(&mut self) -> (r: Result<i8, PmxError>)
        ensures
            Self::read_outcome(layout::spec_i8(old(self).bytes(), old(self).pos()), r, old(self), final(self)),
            r is Err ==> final(self).pos() == old(self).pos(),
    {
        if !self.available(1) {
            return Err(PmxError::UnexpectedEof);
        }
        let b = self.data[self.pos];
        self.pos = self.pos + 1;
        if b < 128 {
            Ok(b as i8)
        } else {
            Ok((b as i16 - 256) as i8)
        }
    }

    pub fn read_i16(&mut self) -> (r: Result<i16, PmxError>)
        ensures
            Self::read_outcome(layout::spec_i16(old(self).bytes(), old(self).pos()), r, old(self), final(self)),
            r is Err ==> final(self).pos() == old(self).pos(),
    {
        if !self.available(2) {
            return Err(PmxError::UnexpectedEof);
        }
        let v = self.le16_at(self.pos);
        self.pos = self.pos + 2;
        if v < 0x8000 {
            Ok(v as i16)
        } else {
            Ok((v as i32 - 0x1_0000) as i16)
        }
    }

    pub fn read_u16(&mut self) -> (r: Result<u16, PmxError>)
        ensures
            Self::read_outcome(layout::spec_u16(old(self).bytes(), old(self).pos()), r, old(self), final(self)),
            r is Err ==> final(self).pos() == old(self).pos(),
    {
        if !self.available(2) {
            return Err(PmxError::UnexpectedEof);
        }
        let v = self.le16_at(self.pos);
        self.pos = self.pos + 2;
        Ok(v)
    }

    pub fn read_i32(&mut self) -> (r: Result<i32, PmxError>)
        ensures
            Self::read_outcome(layout::spec_i32(old(self).bytes(), old(self).pos()), r, old(self), final(self)),
            r is Err ==> final(self).pos() == old(self).pos(),
    {
        if !self.available(4) {
            return Err(PmxError::UnexpectedEof);
        }
        let v = self.le32_at(self.pos);
        self.pos = self.pos + 4;
        if v < 0x8000_0000 {
            Ok(v as i32)
        } else {
            Ok((v as i64 - 0x1_0000_0000) as i32)
        }
    }

    /// The bit pattern of a little-endian `f32`; `f32::from_bits` gives the number.
    pub fn read_f32_bits(&mut self) -> (r: Result<u32, PmxError>)
        ensures
            Self::read_outcome(layout::spec_f32_bits(old(self).bytes(), old(self).pos()), r, old(self), final(self)),
            r is Err ==> final(self).pos() == old(self).pos(),
    {
        if !self.available(4) {
            return Err(PmxError::UnexpectedEof);
        }
        let v = self.le32_at(self.pos);
        self.pos = self.pos + 4;
        Ok(v)
    }

    /// Bit patterns of three consecutive `f32` values.
    pub fn read_vec3_bits(&mut self) -> (r: Result<[u32; 3], PmxError>)
        ensures
            Self::read_outcome(layout::spec_vec3_bits(old(self).bytes(), old(self).pos()), r, old(self), final(self)),
            r is Err ==> final(self).pos() == old(self).pos(),
    {
        if !self.available(12) {
            return Err(PmxError::UnexpectedEof);
        }
        let p = self.pos;
        let v = [self.le32_at(p), self.le32_at(p + 4), self.le32_at(p + 8)];
        self.pos = p + 12;
        Ok(v)
    }

    /// Bit patterns of two consecutive `f32` values.
    pub fn read_vec2_bits(&mut self) -> (r: Result<[u32; 2], PmxError>)
        ensures
            Self::read_outcome(layout::spec_vec2_bits(old(self).bytes(), old(self).pos()), r, old(self), final(self)),
            r is Err ==> final(self).pos() == old(self).pos(),
    {
        if !self.available(8) {
            return Err(PmxError::UnexpectedEof);
        }
        let p = self.pos;
        let v = [self.le32_at(p), self.le32_at(p + 4)];
        self.pos = p + 8;
        Ok(v)
    }

    /// Bit patterns of four consecutive `f32` values.
    pub fn read_vec4_bits(&mut self) -> (r: Result<[u32; 4], PmxError>)
        ensures
            Self::read_outcome(layout::spec_vec4_bits(old(self).bytes(), old(self).pos()), r, old(self), final(self)),
            r is Err ==> final(self).pos() == old(self).pos(),
    {
        if !self.available(16) {
            return Err(PmxError::UnexpectedEof);
        }
        let p = self.pos;
        let v = [self.le32_at(p), self.le32_at(p + 4), self.le32_at(p + 8), self.le32_at(p + 12)];
        self.pos = p + 16;
        Ok(v)
    }

    /// Copies the next `n` bytes out.
    fn take_bytes(&mut self, n: usize) -> (r: Result<Vec<u8>, PmxError>)
        ensures
            final(self).same_source(old(self)),
            layout::avail(old(self).bytes(), old(self).pos(), n as int) ==> {
                &&& r matches Ok(v) && v@ == old(self).bytes().subrange(old(self).pos(), old(self).pos() + n)
                &&& final(self).pos() == old(self).pos() + n
            },
            !layout::avail(old(self).bytes(), old(self).pos(), n as int) ==> r == Err::<Vec<u8>, PmxError>(PmxError::UnexpectedEof) && final(self).pos() == old(self).pos(),
    {
        if !self.available(n) {
            return Err(PmxError::UnexpectedEof);
        }
        let start = self.pos;
        let mut out: Vec<u8> = Vec::new();
        let mut i: usize = 0;
        while i < n
            invariant
                i <= n,
                start + n <= self.data.len(),
                out@ == self.data@.subrange(start as int, start + i),
            decreases n - i,
        {
            out.push(self.data[start + i]);
            i = i + 1;
        }
        self.pos = start + n;
        Ok(out)
    }

    /// Fills `buf` with the next `buf.len()` bytes.
    pub fn read_bytes(&mut self, buf: &mut [u8]) -> (r: Result<(), PmxError>)
        ensures
            final(self).same_source(old(self)),
            final(buf)@.len() == old(buf)@.len(),
            layout::avail(old(self).bytes(), old(self).pos(), old(buf)@.len() as int) ==> {
                &&& r == Ok::<(), PmxError>(())
                &&& final(buf)@ == old(self).bytes().subrange(old(self).pos(), old(self).pos() + old(buf)@.len())
                &&& final(self).pos() == old(self).pos() + old(buf)@.len()
            },
            !layout::avail(old(self).bytes(), old(self).pos(), old(buf)@.len() as int) ==> {
                &&& r == Err::<(), PmxError>(PmxError::UnexpectedEof)
                &&& final(buf)@ == old(buf)@
                &&& final(self).pos() == old(self).pos()
            },
    {
        let n = buf.len();
        if !self.available(n) {
            return Err(PmxError::UnexpectedEof);
        }
        let start = self.pos;
        let mut i: usize = 0;
        while i < n
            invariant
                i <= n,
                n == buf@.len(),
                start + n <= self.data.len(),
                forall|k: int| 0 <= k < i ==> buf@[k] == self.data@[start + k],
            decreases n - i,
        {
            buf[i] = self.data[start + i];
            i = i + 1;
        }
        assert(buf@ == self.data@.subrange(start as int, start + n));
        self.pos = start + n;
        Ok(())
    }
}

/// Little-endian UTF-16 code units from consecutive byte pairs; an odd last
/// byte is dropped.
fn utf16_units_of(bytes: &Vec<u8>) -> (units: Vec<u16>)
    ensures
        units@ == layout::utf16_units(bytes@),
{
    let n = bytes.len() / 2;
    let mut units: Vec<u16> = Vec::new();
    let mut k: usize = 0;
    while k < n
        invariant
            k <= n,
            n == bytes.len() / 2,
            units@.len() == k,
            forall|j: int| 0 <= j < k ==> units@[j] == layout::le_u16(bytes@, 2 * j) as u16,
        decreases n - k,
    {
        let lo = bytes[2 * k] as u16;
        let hi = bytes[2 * k + 1] as u16;
        units.push(lo + hi * 256);
        k = k + 1;
    }
    assert(units@ == layout::utf16_units(bytes@));
    units
}

/// `String::from_utf16`: succeeds exactly when the code units are valid
/// UTF-16 (no unpaired surrogate) and then holds the decoded characters.
#[verifier::external_body]
fn string_from_utf16(units: &[u16]) -> (r: Option<String>)
    ensures
        match r {
            Some(s) => layout::utf16_decode(units@) == Some(s@),
            None => layout::utf16_decode(units@) is None,
        },
{
    String::from_utf16(units).ok()
}

/// `String::from_utf8`: succeeds exactly when the bytes are valid UTF-8 and
/// then holds the decoded characters.
#[verifier::external_body]
fn string_from_utf8(bytes: Vec<u8>) -> (r: Option<String>)
    ensures
        match r {
            Some(s) => vstd::utf8::valid_utf8(bytes@) && s@ == vstd::utf8::decode_utf8(bytes@),
            None => !vstd::utf8::valid_utf8(bytes@),
        },
{
    String::from_utf8(bytes).ok()
}

impl Reader {
    /// A length-prefixed string in the file's text encoding.
    pub fn read_string(&mut self) -> (r: Result<String, PmxError>)
        ensures
            final(self).same_source(old(self)),
            match layout::spec_string(old(self).bytes(), old(self).pos(), old(self).settings().encoding) {
                Ok((t, p)) => r matches Ok(st) && st@ == t && final(self).pos() == p,
                Err(e) => r matches Err(e2) && e2 == e && final(self).pos() == layout::string_error_pos(old(self).bytes(), old(self).pos()),
            },
    {
        let len = match self.read_i32() {
            Ok(v) => v,
            Err(e) => return Err(e),
        };
        if len < 0 {
            return Err(PmxError::NegativeLength(len));
        }
        if len == 0 {
            return Ok(String::new());
        }
        let n = len as usize;
        let bytes = match self.take_bytes(n) {
            Ok(b) => b,
            Err(e) => return Err(e),
        };
        if self.settings.encoding == 0 {
            let units = utf16_units_of(&bytes);
            match string_from_utf16(units.as_slice()) {
                Some(st) => Ok(st),
                None => Err(PmxError::InvalidText),
            }
        } else {
            match string_from_utf8(bytes) {
                Some(st) => Ok(st),
                None => Err(PmxError::InvalidText),
            }
        }
    }

    /// A signed index of `size` bytes (1, 2 or 4).
    pub fn read_index(&mut self, size: u8) -> (r: Result<i32, PmxError>)
        ensures
            Self::read_outcome(layout::spec_index(old(self).bytes(), old(self).pos(), size), r, old(self), final(self)),
            r is Err ==> final(self).pos() == old(self).pos(),
    {
        if size == 1 {
            match self.read_i8() {
                Ok(v) => Ok(v as i32),
                Err(e) => Err(e),
            }
        } else if size == 2 {
            match self.read_i16() {
                Ok(v) => Ok(v as i32),
                Err(e) => Err(e),
            }
        } else if size == 4 {
            self.read_i32()
        } else {
            Err(PmxError::InvalidIndexSize(size))
        }
    }

    /// A vertex index of a face, in the width the header announced.
    pub fn read_raw_vertex_index(&mut self) -> (r: Result<i32, PmxError>)
        ensures
            Self::read_outcome(
                layout::spec_raw_vertex_index(old(self).bytes(), old(self).pos(), old(self).settings().vertex_index_size),
                r,
                old(self),
                final(self),
            ),
            r matches Err(e) ==> final(self).pos() == old(self).pos() + (if e is NegativeVertexIndex { 4int } else { 0int }),
    {
        let size = self.settings.vertex_index_size;
        if size == 1 {
            match self.read_u8() {
                Ok(v) => Ok(v as i32),
                Err(e) => Err(e),
            }
        } else if size == 2 {
            match self.read_u16() {
                Ok(v) => Ok(v as i32),
                Err(e) => Err(e),
            }
        } else if size == 4 {
            let v = match self.read_i32() {
                Ok(v) => v,
                Err(e) => return Err(e),
            };
            if v < 0 {
                return Err(PmxError::NegativeVertexIndex(v));
            }
            Ok(v)
        } else {
            Err(PmxError::InvalidVertexIndexSize(size))
        }
    }

    /// A texture reference; a negative index stands for "none".
    pub fn read_texture_index(&mut self) -> (r: Result<Option<usize>, PmxError>)
        ensures
            Self::read_outcome(
                layout::spec_texture_index(old(self).bytes(), old(self).pos(), old(self).settings().texture_index_size),
                r,
                old(self),
                final(self),
            ),
            r is Err ==> final(self).pos() == old(self).pos(),
    {
        let idx = match self.read_index(self.settings.texture_index_size) {
            Ok(v) => v,
            Err(e) => return Err(e),
        };
        if idx < 0 {
            Ok(None)
        } else {
            Ok(Some(idx as usize))
        }
    }
}

/// Reads the file header and adopts the settings it announces.  On an error
/// the reader keeps its previous settings.
#[verifier::loop_isolation(false)]
pub fn read_header(r: &mut Reader) -> (res: Result<(), PmxError>)
    ensures
        final(r).bytes() == old(r).bytes(),
        match layout::spec_header(old(r).bytes(), old(r).pos()) {
            Ok((h, p)) => res == Ok::<(), PmxError>(()) && final(r).pos() == p && final(r).settings() == h,
            Err(e) => {
                &&& res == Err::<(), PmxError>(e)
                &&& final(r).settings() == old(r).settings()
                &&& final(r).pos() == layout::header_error_pos(old(r).bytes(), old(r).pos())
            },
        },
{
    let ghost s = r.bytes();
    let ghost p0 = r.pos();
    let mut magic = [0u8; 4];
    match r.read_bytes(&mut magic) {
        Ok(()) => {},
        Err(e) => return Err(e),
    }
    let ghost want = seq![0x50u8, 0x4Du8, 0x58u8, 0x20u8];
    if !(magic[0] == 0x50 && magic[1] == 0x4D && magic[2] == 0x58 && magic[3] == 0x20) {
        assert(s.subrange(p0, p0 + 4) != want) by {
            if s.subrange(p0, p0 + 4) == want {
                assert(magic@[0] == want[0] && magic@[1] == want[1] && magic@[2] == want[2] && magic@[3] == want[3]);
            }
        }
        return Err(PmxError::NotPmx);
    }
    assert(s.subrange(p0, p0 + 4) =~= want);
    let version = match r.read_f32_bits() {
        Ok(v) => v,
        Err(e) => return Err(e),
    };
    if !(layout::VERSION_MIN_BITS <= version && version <= layout::VERSION_MAX_BITS) {
        return Err(PmxError::UnsupportedVersion(version));
    }
    let flags_len = match r.read_u8() {
        Ok(v) => v,
        Err(e) => return Err(e),
    };
    if flags_len < 8 {
        return Err(PmxError::InvalidHeaderLength(flags_len));
    }
    let ghost q = r.pos();
    assert(q == p0 + 9);
    let encoding = match r.read_u8() {
        Ok(v) => v,
        Err(e) => return Err(e),
    };
    let additional_uv = match r.read_u8() {
        Ok(v) => v,
        Err(e) => return Err(e),
    };
    let vertex_index_size = match r.read_u8() {
        Ok(v) => v,
        Err(e) => return Err(e),
    };
    let texture_index_size = match r.read_u8() {
        Ok(v) => v,
        Err(e) => return Err(e),
    };
    let material_index_size = match r.read_u8() {
        Ok(v) => v,
        Err(e) => return Err(e),
    };
    // bone, morph and rigid-body index widths are not needed
    match r.read_u8() {
        Ok(_) => {},
        Err(e) => return Err(e),
    }
    match r.read_u8() {
        Ok(_) => {},
        Err(e) => return Err(e),
    }
    match r.read_u8() {
        Ok(_) => {},
        Err(e) => return Err(e),
    }
    let mut i: u8 = 8;
    while i < flags_len
        invariant
            8 <= i <= flags_len,
            r.bytes() == s,
            r.settings() == old(r).settings(),
            r.pos() == q + i,
            layout::avail(s, q, i as int),
        decreases flags_len - i,
    {
        match r.read_u8() {
            Ok(_) => {},
            Err(e) => return Err(e),
        }
        i = i + 1;
    }
    r.settings = PmxHeader {
        encoding,
        additional_uv,
        vertex_index_size,
        texture_index_size,
        material_index_size,
    };
    Ok(())
}

/// Skips the model name and comment (four strings).
pub fn skip_model_info(r: &mut Reader) -> (res: Result<(), PmxError>)
    ensures
        final(r).same_source(old(r)),
        match layout::spec_model_info(old(r).bytes(), old(r).pos(), old(r).settings().encoding) {
            Ok(p) => res == Ok::<(), PmxError>(()) && final(r).pos() == p,
            Err(e) => res == Err::<(), PmxError>(e) && final(r).pos() == layout::strings_error_pos(old(r).bytes(), old(r).pos(), old(r).settings().encoding, 4),
        },
{
    let ghost s = r.bytes();
    let ghost enc = r.settings().encoding;
    let ghost p0 = r.pos();
    proof {
        reveal_with_fuel(layout::spec_repeat, 5);
        reveal_with_fuel(layout::strings_error_pos, 5);
    }
    match r.read_string() {
        Ok(_) => {},
        Err(e) => return Err(e),
    }
    match r.read_string() {
        Ok(_) => {},
        Err(e) => return Err(e),
    }
    match r.read_string() {
        Ok(_) => {},
        Err(e) => return Err(e),
    }
    match r.read_string() {
        Ok(_) => {},
        Err(e) => return Err(e),
    }
    Ok(())
}

} // verus!
