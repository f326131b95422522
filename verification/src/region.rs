use vstd::prelude::*;
use vstd::slice::slice_subrange;
use crate::error::MCLoadError;
use crate::text::parse_i32_chars;
use crate::text::parse_i32_range;
use crate::SECTOR_SIZE;
use crate::be_u24;

verus! {

// ---------------------------------------------------------------------------
// Region: one region file's raw bytes
// ---------------------------------------------------------------------------

/// One region of 32 x 32 chunks, addressed by its region coordinates.
///
/// Holds the raw bytes of the backing file once they have been loaded. To get
/// at the chunks, expand this into a `ChunkRegion`.
#[derive(Debug)]
pub struct Region {
    x: i32,
    y: i32,
    data: Option<Vec<u8>>,
}

/// The value of the big-endian 32-bit integer stored at `data[pos..pos + 4]`.
pub open spec fn be_u32(data: Seq<u8>, pos: int) -> int
    recommends
        0 <= pos,
        pos + 4 <= data.len(),
{
    data[pos] * 0x1000000 + data[pos + 1] * 0x10000 + data[pos + 2] * 0x100 + data[pos + 3]
}

/// The location entry of slot `index`: the 24-bit sector offset and 8-bit
/// sector count at byte `index * 4`; `None` when both fields are zero, which
/// marks the slot absent.
pub open spec fn spec_location(data: Seq<u8>, index: int) -> Option<(u32, u32)>
    recommends
        0 <= index,
        index * 4 + 4 <= data.len(),
{
    let off = be_u24(data, index * 4);
    let cnt = data[index * 4 + 3] as int;
    if off == 0 && cnt == 0 {
        None
    } else {
        Some((off as u32, cnt as u32))
    }
}

/// The byte range of slot `index`'s payload: its sector span converted to
/// bytes and clamped to the buffer's length; `None` for an absent slot.
pub open spec fn spec_chunk_range(data: Seq<u8>, index: int) -> Option<(int, int)>
    recommends
        0 <= index,
        index * 4 + 4 <= data.len(),
{
    match spec_location(data, index) {
        None => None,
        Some((off, cnt)) => {
            let start = off * (SECTOR_SIZE as int);
            let stop = start + cnt * (SECTOR_SIZE as int);
            let end = if stop <= data.len() { stop } else { data.len() as int };
            let begin = if start <= end { start } else { end };
            Some((begin, end))
        },
    }
}

// ---------------------------------------------------------------------------
// Chunk payload decoding
// ---------------------------------------------------------------------------

/// What inflating `s` as a zlib stream yields: the decompressed bytes, or
/// `None` for a malformed stream. Inflation is a function of the bytes alone.
pub uninterp spec fn zlib_inflated(s: Seq<u8>) -> Option<Seq<u8>>;

/// What inflating `s` as a gzip stream yields: the decompressed bytes, or
/// `None` for a malformed stream. Inflation is a function of the bytes alone.
pub uninterp spec fn gzip_inflated(s: Seq<u8>) -> Option<Seq<u8>>;

/// Relies on `flate2::read::ZlibDecoder` driven by `std::io::Read::read_to_end`:
/// inflates a zlib stream, reporting an error on malformed input; the outcome
/// depends on the input bytes alone.
#[verifier::external_body]
fn zlib_decompress(data: &[u8]) -> (r: Option<Vec<u8>>)
    ensures
        r is Some <==> zlib_inflated(data@) is Some,
        r matches Some(v) ==> zlib_inflated(data@) == Some(v@),
{
    let mut out = Vec::new();
    let mut decoder = flate2::read::ZlibDecoder::new(data);
    match std::io::Read::read_to_end(&mut decoder, &mut out) {
        Ok(_) => Some(out),
        Err(_) => None,
    }
}

/// Relies on `flate2::read::GzDecoder` driven by `std::io::Read::read_to_end`:
/// inflates a gzip stream, reporting an error on malformed input; the outcome
/// depends on the input bytes alone.
#[verifier::external_body]
fn gzip_decompress(data: &[u8]) -> (r: Option<Vec<u8>>)
    ensures
        r is Some <==> gzip_inflated(data@) is Some,
        r matches Some(v) ==> gzip_inflated(data@) == Some(v@),
{
    let mut out = Vec::new();
    let mut decoder = flate2::read::GzDecoder::new(data);
    match std::io::Read::read_to_end(&mut decoder, &mut out) {
        Ok(_) => Some(out),
        Err(_) => None,
    }
}

/// What decoding a slot's payload bytes yields.
///
/// The payload must hold a 4-byte big-endian declared length `n >= 1`, one
/// compression tag byte, and `n - 1` bytes of compressed data; anything
/// shorter is corrupt. Tag 1 is gzip, tag 2 is zlib, tag 3 is stored
/// uncompressed; every other tag is incompatible. A malformed compressed
/// stream is corrupt.
pub open spec fn spec_decode(data: Seq<u8>) -> Result<Seq<u8>, MCLoadError> {
    if data.len() < 5 {
        Err(MCLoadError::CorruptChunkData)
    } else {
        let n = be_u32(data, 0);
        if n == 0 || n + 4 > data.len() {
            Err(MCLoadError::CorruptChunkData)
        } else {
            let tag = data[4];
            let payload = data.subrange(5, 4 + n);
            if tag == 1 {
                match gzip_inflated(payload) {
                    Some(p) => Ok(p),
                    None => Err(MCLoadError::CorruptChunkData),
                }
            } else if tag == 2 {
                match zlib_inflated(payload) {
                    Some(p) => Ok(p),
                    None => Err(MCLoadError::CorruptChunkData),
                }
            } else if tag == 3 {
                Ok(payload)
            } else {
                Err(MCLoadError::IncompatibleCompressionType(tag))
            }
        }
    }
}

/// Decodes one slot's payload bytes: reads the declared length and the
/// compression tag, checks that the compressed data is all there, and
/// inflates it, exactly as `spec_decode` describes.
pub fn decode_chunk_payload(data: &[u8]) -> (r: Result<Vec<u8>, MCLoadError>)
    ensures
        match spec_decode(data@) {
            Ok(p) => r matches Ok(v) && v@ == p,
            Err(e) => r == Err::<Vec<u8>, MCLoadError>(e),
        },
{
    if data.len() < 5 {
        return Err(MCLoadError::CorruptChunkData);
    }
    let n: u64 = (data[0] as u64) * 0x1000000 + (data[1] as u64) * 0x10000 + (data[2] as u64)
        * 0x100 + (data[3] as u64);
    if n == 0 || n + 4 > data.len() as u64 {
        return Err(MCLoadError::CorruptChunkData);
    }
    let tag = data[4];
    let payload = slice_subrange(data, 5, 4 + (n as usize));
    if tag == 1 {
        match gzip_decompress(payload) {
            Some(p) => Ok(p),
            None => Err(MCLoadError::CorruptChunkData),
        }
    } else if tag == 2 {
        match zlib_decompress(payload) {
            Some(p) => Ok(p),
            None => Err(MCLoadError::CorruptChunkData),
        }
    } else if tag == 3 {
        let mut out: Vec<u8> = Vec::new();
        out.extend_from_slice(payload);
        Ok(out)
    } else {
        Err(MCLoadError::IncompatibleCompressionType(tag))
    }
}

/// The decoded payload of slot `index`: `Ok(None)` for an absent slot,
/// `Ok(Some(bytes))` for a decodable one, and the decoder's error otherwise;
/// a location entry that is not all inside the buffer is a read failure.
pub open spec fn spec_chunk_nbt(data: Seq<u8>, index: int) -> Result<
    Option<Seq<u8>>,
    MCLoadError,
> {
    if data.len() < index * 4 + 4 {
        Err(MCLoadError::IoError)
    } else {
        match spec_chunk_range(data, index) {
            None => Ok(None),
            Some((begin, end)) => match spec_decode(data.subrange(begin, end)) {
                Ok(p) => Ok(Some(p)),
                Err(e) => Err(e),
            },
        }
    }
}

/// What a region's buffer becomes when `bytes` are loaded into it: the bytes
/// themselves on first load, and the old buffer untouched afterwards.
pub open spec fn spec_load(data: Option<Seq<u8>>, bytes: Seq<u8>) -> Option<Seq<u8>> {
    match data {
        Some(d) => Some(d),
        None => Some(bytes),
    }
}

/// Loading is idempotent: however a second load's bytes were obtained, the
/// buffer after it is byte-identical to the buffer after the first load.
pub proof fn lemma_load_idempotent(data: Option<Seq<u8>>, first: Seq<u8>, second: Seq<u8>)
    ensures
        spec_load(spec_load(data, first), second) == spec_load(data, first),
{
}

/// A slot is absent exactly when both fields of its location entry — the
/// 3-byte sector offset and the 1-byte sector count — are zero.
pub proof fn lemma_absent_iff_entry_zero(data: Seq<u8>, index: int)
    requires
        0 <= index,
        index * 4 + 4 <= data.len(),
    ensures
        spec_location(data, index) is None <==> (be_u24(data, index * 4) == 0 && data[index * 4
            + 3] == 0),
{
}

/// A stored payload comes back unchanged: a slot whose declared length spans
/// the rest of its bytes and whose tag marks it uncompressed decodes to
/// exactly the bytes after its 5-byte header.
pub proof fn lemma_decode_stored(data: Seq<u8>)
    requires
        data.len() >= 5,
        be_u32(data, 0) == data.len() - 4,
        data[4] == 3,
    ensures
        spec_decode(data) == Ok::<Seq<u8>, MCLoadError>(data.subrange(5, data.len() as int)),
{
}

impl Region {
    /// The region's x coordinate.
    pub closed spec fn spec_x(&self) -> i32 {
        self.x
    }

    /// The region's z coordinate.
    pub closed spec fn spec_y(&self) -> i32 {
        self.y
    }

    /// The loaded bytes, or `None` before any load.
    pub closed spec fn spec_data(&self) -> Option<Seq<u8>> {
        match self.data {
            Some(d) => Some(d@),
            None => None,
        }
    }

    /// Whether the region's bytes have been loaded.
    pub open spec fn is_loaded(&self) -> bool {
        self.spec_data() is Some
    }

    /// A region that has not been loaded yet.
    pub fn new(x: i32, y: i32) -> (r: Region)
        ensures
            r.spec_x() == x,
            r.spec_y() == y,
            !r.is_loaded(),
    {
        Region { x, y, data: None }
    }

    /// Stores the file's bytes on first use. A region that is already loaded
    /// keeps its buffer byte-identical, whatever is handed in: loading is
    /// idempotent.
    pub fn load(&mut self, bytes: Vec<u8>)
        ensures
            final(self).spec_x() == old(self).spec_x(),
            final(self).spec_y() == old(self).spec_y(),
            final(self).spec_data() == spec_load(old(self).spec_data(), bytes@),
    {
        if self.data.is_none() {
            self.data = Some(bytes);
        }
    }

    /// Whether the region's bytes have been loaded.
    pub fn loaded(&self) -> (r: bool)
        ensures
            r == self.is_loaded(),
    {
        self.data.is_some()
    }

    /// The loaded bytes, or `None` before any load.
    pub fn raw_data(&self) -> (r: Option<&Vec<u8>>)
        ensures
            match r {
                Some(d) => self.spec_data() == Some(d@),
                None => self.spec_data() is None,
            },
    {
        match &self.data {
            Some(d) => Some(d),
            None => None,
        }
    }

    /// Reads slot `index`'s location entry: 3 bytes of big-endian sector
    /// offset and 1 byte of sector count. `Ok(None)` marks an absent slot,
    /// where both fields are zero; a buffer with fewer than 4 bytes at the
    /// entry, or none loaded at all, is a read failure.
    pub fn get_location(&self, index: usize) -> (r: Result<Option<(u32, u32)>, MCLoadError>)
        requires
            index < 1024,
        ensures
            match self.spec_data() {
                None => r == Err::<Option<(u32, u32)>, MCLoadError>(MCLoadError::IoError),
                Some(d) => if index * 4 + 4 <= d.len() {
                    r == Ok::<Option<(u32, u32)>, MCLoadError>(spec_location(d, index as int))
                } else {
                    r == Err::<Option<(u32, u32)>, MCLoadError>(MCLoadError::IoError)
                },
            },
    {
        let data = match &self.data {
            Some(d) => d,
            None => {
                return Err(MCLoadError::IoError);
            },
        };
        if data.len() < index * 4 + 4 {
            return Err(MCLoadError::IoError);
        }
        let pos = index * 4;
        let b0 = data[pos];
        let b1 = data[pos + 1];
        let b2 = data[pos + 2];
        let b3 = data[pos + 3];
        let position: u32 = (b0 as u32) * 0x10000 + (b1 as u32) * 0x100 + (b2 as u32);
        let size: u32 = b3 as u32;
        if position == 0 && size == 0 {
            Ok(None)
        } else {
            Ok(Some((position, size)))
        }
    }

    /// The byte range of slot `index`'s payload: its location entry's sector
    /// span converted to bytes and clamped to the buffer's length, so that a
    /// range claiming more than the file holds is cut short rather than read
    /// out of bounds; `Ok(None)` for an absent slot.
    pub fn payload_range(&self, index: usize) -> (r: Result<Option<(usize, usize)>, MCLoadError>)
        requires
            index < 1024,
        ensures
            match self.spec_data() {
                None => r == Err::<Option<(usize, usize)>, MCLoadError>(MCLoadError::IoError),
                Some(d) => if index * 4 + 4 <= d.len() {
                    match spec_chunk_range(d, index as int) {
                        None => r == Ok::<Option<(usize, usize)>, MCLoadError>(None),
                        Some((begin, end)) => r matches Ok(Some(p)) && p.0 == begin && p.1 == end
                            && p.1 <= d.len(),
                    }
                } else {
                    r == Err::<Option<(usize, usize)>, MCLoadError>(MCLoadError::IoError)
                },
            },
    {
        let data = match &self.data {
            Some(d) => d,
            None => {
                return Err(MCLoadError::IoError);
            },
        };
        if data.len() < index * 4 + 4 {
            return Err(MCLoadError::IoError);
        }
        match self.get_location(index)? {
            None => Ok(None),
            Some((position, size)) => {
                let start: u64 = (position as u64) * (SECTOR_SIZE as u64);
                let stop: u64 = start + (size as u64) * (SECTOR_SIZE as u64);
                let len: u64 = data.len() as u64;
                let end: u64 = if stop <= len {
                    stop
                } else {
                    len
                };
                let begin: u64 = if start <= end {
                    start
                } else {
                    end
                };
                Ok(Some((begin as usize, end as usize)))
            },
        }
    }

    /// The raw bytes of slot `index`'s sector span, clamped to the buffer's
    /// length; `Ok(None)` for an absent slot. This is the undecoded payload,
    /// headers and padding included.
    pub fn get_chunk_data(&self, index: usize) -> (r: Result<Option<&[u8]>, MCLoadError>)
        requires
            index < 1024,
        ensures
            match self.spec_data() {
                None => r == Err::<Option<&[u8]>, MCLoadError>(MCLoadError::IoError),
                Some(d) => if index * 4 + 4 <= d.len() {
                    match spec_chunk_range(d, index as int) {
                        None => r == Ok::<Option<&[u8]>, MCLoadError>(None),
                        Some((begin, end)) => r matches Ok(Some(s)) && s@ == d.subrange(begin, end),
                    }
                } else {
                    r == Err::<Option<&[u8]>, MCLoadError>(MCLoadError::IoError)
                },
            },
    {
        match self.payload_range(index)? {
            None => Ok(None),
            Some((begin, end)) => {
                let data = match &self.data {
                    Some(d) => d,
                    None => {
                        return Err(MCLoadError::IoError);
                    },
                };
                Ok(Some(slice_subrange(data.as_slice(), begin, end)))
            },
        }
    }

    /// The decoded payload of slot `index`: locates the slot, takes its
    /// clamped sector span, and decodes it. `Ok(None)` marks an absent slot;
    /// the bytes of a present one are ready for an NBT decoder.
    pub fn get_chunk_nbt_data(&self, index: usize) -> (r: Result<Option<Vec<u8>>, MCLoadError>)
        requires
            index < 1024,
        ensures
            match self.spec_data() {
                None => r == Err::<Option<Vec<u8>>, MCLoadError>(MCLoadError::IoError),
                Some(d) => match spec_chunk_nbt(d, index as int) {
                    Ok(None) => r == Ok::<Option<Vec<u8>>, MCLoadError>(None),
                    Ok(Some(p)) => r matches Ok(Some(v)) && v@ == p,
                    Err(e) => r == Err::<Option<Vec<u8>>, MCLoadError>(e),
                },
            },
    {
        match self.get_chunk_data(index)? {
            None => Ok(None),
            Some(data) => match decode_chunk_payload(data) {
                Ok(p) => Ok(Some(p)),
                Err(e) => Err(e),
            },
        }
    }

    /// The region's x coordinate.
    pub fn get_x_coord(&self) -> (r: i32)
        ensures
            r == self.spec_x(),
    {
        self.x
    }

    /// The region's z coordinate.
    pub fn get_z_coord(&self) -> (r: i32)
        ensures
            r == self.spec_y(),
    {
        self.y
    }
}

// ---------------------------------------------------------------------------
// Region filename parsing
// ---------------------------------------------------------------------------

/// The first index at or after `i` where `s` holds `c`, or `s.len()` when
/// there is none.
pub open spec fn find_from(s: Seq<char>, c: char, i: int) -> int
    decreases s.len() - i,
{
    if i < 0 || i >= s.len() {
        s.len() as int
    } else if s[i] == c {
        i
    } else {
        find_from(s, c, i + 1)
    }
}

proof fn lemma_find_from(s: Seq<char>, c: char, i: int, j: int)
    requires
        0 <= i <= j <= s.len(),
        forall|k: int| i <= k < j ==> s[k] != c,
        j == s.len() || s[j] == c,
    ensures
        find_from(s, c, i) == j,
    decreases j - i,
{
    if i < j {
        lemma_find_from(s, c, i + 1, j);
    }
}

/// The coordinates encoded in a region file's name: `s` must be exactly
/// `r.<x>.<z>.mca` with `<x>` and `<z>` optionally signed decimal `i32`s;
/// any other name parses to `None`.
pub open spec fn parse_region_name(s: Seq<char>) -> Option<(i32, i32)> {
    if s.len() >= 2 && s[0] == 'r' && s[1] == '.' {
        let d1 = find_from(s, '.', 2);
        if d1 < s.len() {
            let d2 = find_from(s, '.', d1 + 1);
            if d2 + 4 == s.len() && s[d2 + 1] == 'm' && s[d2 + 2] == 'c' && s[d2 + 3] == 'a' {
                match (parse_i32_chars(s.subrange(2, d1)), parse_i32_chars(
                    s.subrange(d1 + 1, d2),
                )) {
                    (Some(x), Some(z)) => Some((x, z)),
                    _ => None,
                }
            } else {
                None
            }
        } else {
            None
        }
    } else {
        None
    }
}

/// Parses a region filename of the form `r.<x>.<z>.mca` into its coordinate
/// pair; a name of any other shape yields `None` rather than a failure, so a
/// directory scan can skip it.
pub fn get_region_coords(filename: &str) -> (r: Option<(i32, i32)>)
    ensures
        r == parse_region_name(filename@),
{
    let ghost s = filename@;
    let n = filename.unicode_len();
    if n < 2 || filename.get_char(0) != 'r' || filename.get_char(1) != '.' {
        return None;
    }
    // first '.' at or after index 2
    let mut d1: usize = 2;
    while d1 < n && filename.get_char(d1) != '.'
        invariant
            s == filename@,
            2 <= d1 <= n == s.len(),
            forall|k: int| 2 <= k < d1 ==> s[k] != '.',
        decreases n - d1,
    {
        d1 = d1 + 1;
    }
    proof {
        lemma_find_from(s, '.', 2, d1 as int);
    }
    if d1 == n {
        return None;
    }
    // first '.' after d1
    let mut d2 = d1 + 1;
    while d2 < n && filename.get_char(d2) != '.'
        invariant
            s == filename@,
            d1 + 1 <= d2 <= n == s.len(),
            forall|k: int| d1 + 1 <= k < d2 ==> s[k] != '.',
        decreases n - d2,
    {
        d2 = d2 + 1;
    }
    proof {
        lemma_find_from(s, '.', d1 as int + 1, d2 as int);
    }
    if n < 4 || d2 != n - 4 {
        return None;
    }
    if !(filename.get_char(d2 + 1) == 'm' && filename.get_char(d2 + 2) == 'c' && filename.get_char(
        d2 + 3,
    ) == 'a') {
        return None;
    }
    let x = parse_i32_range(filename, 2, d1);
    let z = parse_i32_range(filename, d1 + 1, d2);
    match (x, z) {
        (Some(xv), Some(zv)) => Some((xv, zv)),
        _ => None,
    }
}

} // verus!
