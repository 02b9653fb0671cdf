//! PNG steganography engine.
//!
//! A PNG file is an 8-byte signature followed by chunks, each framed as
//! `[4-byte big-endian length][4-byte ASCII type][data][4-byte CRC-32 of
//! type and data]`, ending with a chunk of type `IEND`. The engine hides the
//! base64-encoded payload in a private ancillary chunk of type `lpNg`
//! (lowercase first letter: ancillary; lowercase second: private; lowercase
//! fourth: safe to copy), inserted immediately before `IEND`, where standard
//! readers ignore it.

use crate::encoding::{b64_decode, b64_decoding, b64_encode, b64_encoding, MAX_ENCODABLE_LEN};
use crate::error::LupinError;
use vstd::prelude::*;

verus! {

/// Hides a payload in a private ancillary chunk before a PNG's `IEND` chunk.
pub struct PngEngine;

/// Greatest payload length whose base64 encoding still fits a PNG chunk's
/// 4-byte length field.
pub const PNG_MAX_PAYLOAD_LEN: usize = 3221225469;

// --- CRC-32 (ISO 3309, as PNG uses it) ---

/// One shift step of the bit-reversed CRC-32 polynomial `0xEDB88320`.
pub open spec fn crc_step_bit(s: u32) -> u32 {
    if s & 1 == 1 {
        (s >> 1) ^ 0xEDB88320u32
    } else {
        s >> 1
    }
}

/// `n` shift steps.
pub open spec fn crc_bits(s: u32, n: nat) -> u32
    decreases n,
{
    if n == 0 {
        s
    } else {
        crc_step_bit(crc_bits(s, (n - 1) as nat))
    }
}

/// The CRC state after absorbing one byte: xor it in, then eight shift steps.
pub open spec fn crc_step_byte(s: u32, b: u8) -> u32 {
    crc_bits(s ^ (b as u32), 8)
}

/// The CRC state after absorbing `td[i..]`, starting from state `s`.
pub open spec fn crc_from(td: Seq<u8>, i: int, s: u32) -> u32
    decreases td.len() - i,
{
    if i < 0 || i >= td.len() {
        s
    } else {
        crc_from(td, i + 1, crc_step_byte(s, td[i]))
    }
}

/// CRC-32 of `td`: initial state all ones, final state inverted.
pub open spec fn png_crc(td: Seq<u8>) -> u32 {
    crc_from(td, 0, 0xFFFFFFFFu32) ^ 0xFFFFFFFFu32
}

// --- chunk layout ---

/// The big-endian 32-bit value whose four bytes start at `pos` of `d`.
pub open spec fn be32_at(d: Seq<u8>, pos: int) -> int {
    d[pos] * 0x1000000 + d[pos + 1] * 0x10000 + d[pos + 2] * 0x100 + d[pos + 3]
}

/// The four big-endian bytes of a 32-bit value.
pub open spec fn be32_bytes(v: u32) -> Seq<u8> {
    seq![(v >> 24) as u8, ((v >> 16) & 0xff) as u8, ((v >> 8) & 0xff) as u8, (v & 0xff) as u8]
}

/// The chunk whose header starts at `pos` of `d` has type `t`.
pub open spec fn chunk_type_at(d: Seq<u8>, pos: int, t: Seq<u8>) -> bool {
    &&& t.len() == 4
    &&& d[pos + 4] == t[0]
    &&& d[pos + 5] == t[1]
    &&& d[pos + 6] == t[2]
    &&& d[pos + 7] == t[3]
}

/// The `IEND` chunk type.
pub open spec fn iend_type() -> Seq<u8> {
    seq![0x49u8, 0x45u8, 0x4eu8, 0x44u8]
}

/// The `lpNg` record chunk type.
pub open spec fn record_type() -> Seq<u8> {
    seq![0x6cu8, 0x70u8, 0x4eu8, 0x67u8]
}

/// Header start of the first chunk of type `t` at or after `pos` in the chunk
/// walk of `d`; `None` when the walk runs out of input first.
pub open spec fn png_find_chunk(d: Seq<u8>, pos: int, t: Seq<u8>) -> Option<int>
    decreases d.len() - pos,
{
    if pos < 0 || pos + 8 > d.len() {
        None
    } else if chunk_type_at(d, pos, t) {
        Some(pos)
    } else {
        let next = pos + 12 + be32_at(d, pos);
        if next + 8 > d.len() {
            None
        } else {
            png_find_chunk(d, next, t)
        }
    }
}

/// As `png_find_chunk`, but the walk also stops at an `IEND` chunk, as
/// extraction does.
pub open spec fn png_find_stop(d: Seq<u8>, pos: int, t: Seq<u8>) -> Option<int>
    decreases d.len() - pos,
{
    if pos < 0 || pos + 8 > d.len() {
        None
    } else if chunk_type_at(d, pos, t) {
        Some(pos)
    } else if chunk_type_at(d, pos, iend_type()) {
        None
    } else {
        let next = pos + 12 + be32_at(d, pos);
        if next + 8 > d.len() {
            None
        } else {
            png_find_stop(d, next, t)
        }
    }
}

/// A full chunk image: length, type, data, CRC of type and data.
pub open spec fn png_chunk_bytes(t: Seq<u8>, data: Seq<u8>) -> Seq<u8> {
    be32_bytes(data.len() as u32) + t + data + be32_bytes(png_crc(t + data))
}

// --- the record chunk of a carrier ---

/// Header start of the carrier's record chunk, as extraction locates it.
pub open spec fn png_record_pos(c: Seq<u8>) -> Option<int> {
    png_find_stop(c, 8, record_type())
}

/// Declared data length of the record chunk.
pub open spec fn png_record_len(c: Seq<u8>) -> int
    recommends
        png_record_pos(c) is Some,
{
    be32_at(c, png_record_pos(c)->0)
}

/// The record chunk's declared extent (data and CRC) lies inside the carrier.
pub open spec fn png_record_fits(c: Seq<u8>) -> bool {
    match png_record_pos(c) {
        Some(f) => f + 12 + be32_at(c, f) <= c.len(),
        None => false,
    }
}

/// The record chunk's data bytes.
pub open spec fn png_record_data(c: Seq<u8>) -> Seq<u8>
    recommends
        png_record_fits(c),
{
    c.subrange(png_record_pos(c)->0 + 8, png_record_pos(c)->0 + 8 + png_record_len(c))
}

/// The record chunk's stored CRC field.
pub open spec fn png_stored_crc(c: Seq<u8>) -> int
    recommends
        png_record_fits(c),
{
    be32_at(c, png_record_pos(c)->0 + 8 + png_record_len(c))
}

/// A record chunk is present, lies inside the carrier, and its stored CRC
/// matches the CRC of its type and data.
pub open spec fn png_record_ok(c: Seq<u8>) -> bool {
    png_record_fits(c) && png_stored_crc(c) == png_crc(record_type() + png_record_data(c))
}

/// A record chunk is present and inside the carrier, but its stored CRC does
/// not match: extraction reports corruption.
pub open spec fn png_corrupted(c: Seq<u8>) -> bool {
    png_record_fits(c) && png_stored_crc(c) != png_crc(record_type() + png_record_data(c))
}

/// Extraction from `c` succeeds and yields exactly `p`.
pub open spec fn png_extracts_to(c: Seq<u8>, p: Seq<u8>) -> bool {
    png_record_ok(c) && b64_decoding(png_record_data(c)) == Some(p)
}

/// The carrier `embed` produces on success: the record chunk spliced in
/// immediately before the `IEND` chunk.
pub open spec fn png_embed_output(c: Seq<u8>, p: Seq<u8>) -> Seq<u8>
    recommends
        png_find_chunk(c, 8, iend_type()) is Some,
{
    let f = png_find_chunk(c, 8, iend_type())->0;
    c.take(f) + png_chunk_bytes(record_type(), b64_encoding(p)) + c.skip(f)
}

/// Full postcondition of `PngEngine::extract_custom_chunk` on carrier `c` and
/// chunk type `t`: the walk's outcome pins the result for every input.
pub open spec fn png_chunk_lookup_result(c: Seq<u8>, t: Seq<u8>, r: Result<Vec<u8>, LupinError>) -> bool {
    &&& (png_find_stop(c, 8, t) is None ==> (r matches Err(e) && e is PngNoHiddenData))
    &&& (match png_find_stop(c, 8, t) {
        Some(f) => {
            &&& (f + 12 + be32_at(c, f) > c.len() ==> (r matches Err(e) && e is PngNoHiddenData))
            &&& (f + 12 + be32_at(c, f) <= c.len() && be32_at(c, f + 8 + be32_at(c, f)) != png_crc(
                t + c.subrange(f + 8, f + 8 + be32_at(c, f)),
            ) ==> (r matches Err(e) && e is PngCorruptedData))
            &&& (f + 12 + be32_at(c, f) <= c.len() && be32_at(c, f + 8 + be32_at(c, f)) == png_crc(
                t + c.subrange(f + 8, f + 8 + be32_at(c, f)),
            ) ==> (r matches Ok(v) && v@ == c.subrange(f + 8, f + 8 + be32_at(c, f))))
        },
        None => true,
    })
}

/// Full postcondition of `PngEngine::embed`. A carrier without an `IEND`
/// chunk is rejected; otherwise the output is pinned byte-for-byte, and when
/// the carrier held no record before, extraction on the output returns
/// exactly the payload.
pub open spec fn png_embed_result(c: Seq<u8>, p: Seq<u8>, r: Result<Vec<u8>, LupinError>) -> bool {
    &&& (png_find_chunk(c, 8, iend_type()) is None ==> (r matches Err(e) && e is PngNoIdatChunk))
    &&& (png_find_chunk(c, 8, iend_type()) is Some ==> (r matches Ok(out) && out@
        == png_embed_output(c, p)))
    &&& (r matches Ok(out) ==> (png_record_pos(c) is None ==> png_extracts_to(out@, p)))
}

/// Full postcondition of `PngEngine::extract`: the record chunk's state pins
/// the result for every input.
pub open spec fn png_extract_result(c: Seq<u8>, r: Result<Vec<u8>, LupinError>) -> bool {
    &&& (png_record_pos(c) is None ==> (r matches Err(e) && e is PngNoHiddenData))
    &&& (png_record_pos(c) is Some && !png_record_fits(c) ==> (r matches Err(e)
        && e is PngNoHiddenData))
    &&& (png_corrupted(c) ==> (r matches Err(e) && e is PngCorruptedData))
    &&& (png_record_ok(c) && b64_decoding(png_record_data(c)) is None ==> (r matches Err(e)
        && e is PngCorruptedData))
    &&& (forall|p: Seq<u8>|
        png_extracts_to(c, p) ==> (r matches Ok(v) && v@ == p))
}

/// A found chunk lies at or after the walk's start, with its header inside
/// the input.
pub proof fn lemma_png_find_chunk_props(d: Seq<u8>, pos: int, t: Seq<u8>)
    ensures
        png_find_chunk(d, pos, t) matches Some(f) ==> pos <= f && f + 8 <= d.len()
            && chunk_type_at(d, f, t),
    decreases d.len() - pos,
{
    if !(pos < 0 || pos + 8 > d.len()) && !chunk_type_at(d, pos, t) {
        let next = pos + 12 + be32_at(d, pos);
        if next + 8 <= d.len() {
            lemma_png_find_chunk_props(d, next, t);
        }
    }
}

/// Reads the big-endian 32-bit value at `pos`.
fn read_be_u32(data: &[u8], pos: usize) -> (r: u32)
    requires
        pos + 4 <= data@.len(),
    ensures
        r as int == be32_at(data@, pos as int),
{
    (data[pos] as u32) * 0x1000000 + (data[pos + 1] as u32) * 0x10000 + (data[pos + 2] as u32)
        * 0x100 + (data[pos + 3] as u32)
}

/// Appends the four big-endian bytes of `v` to `out`.
fn push_be_u32(out: &mut Vec<u8>, v: u32)
    ensures
        final(out)@ == old(out)@ + be32_bytes(v),
{
    out.push((v >> 24) as u8);
    out.push(((v >> 16) & 0xff) as u8);
    out.push(((v >> 8) & 0xff) as u8);
    out.push((v & 0xff) as u8);
    assert(out@ =~= old(out)@ + be32_bytes(v));
}

/// The `lpNg` chunk type as bytes.
fn record_type_bytes() -> (r: Vec<u8>)
    ensures
        r@ == record_type(),
{
    let mut r: Vec<u8> = Vec::new();
    r.push(0x6c);
    r.push(0x70);
    r.push(0x4e);
    r.push(0x67);
    assert(r@ =~= record_type());
    r
}

/// One byte of CRC state evolution: xor the byte in, then eight shift steps.
fn crc_byte_update(crc: u32, byte: u8) -> (r: u32)
    ensures
        r == crc_step_byte(crc, byte),
{
    let mut c: u32 = crc ^ (byte as u32);
    let mut k: usize = 0;
    while k < 8
        invariant
            k <= 8,
            c == crc_bits(crc ^ (byte as u32), k as nat),
        decreases 8 - k,
    {
        if c & 1 == 1 {
            c = (c >> 1) ^ 0xEDB88320;
        } else {
            c = c >> 1;
        }
        k = k + 1;
    }
    c
}

/// The eight-byte PNG signature.
pub open spec fn png_magic() -> Seq<u8> {
    seq![0x89u8, 0x50u8, 0x4eu8, 0x47u8, 0x0du8, 0x0au8, 0x1au8, 0x0au8]
}

impl PngEngine {
    /// Creates a new PNG engine.
    pub fn new() -> (r: Self) {
        PngEngine
    }

    /// The eight signature bytes that identify the format.
    pub fn magic_bytes(&self) -> (r: Vec<u8>)
        ensures
            r@ == png_magic(),
    {
        let mut r: Vec<u8> = Vec::new();
        r.push(0x89);
        r.push(0x50);
        r.push(0x4e);
        r.push(0x47);
        r.push(0x0d);
        r.push(0x0a);
        r.push(0x1a);
        r.push(0x0a);
        assert(r@ =~= png_magic());
        r
    }

    /// The format's human-readable name.
    pub fn format_name(&self) -> (r: &'static str)
        ensures
            r@ == "PNG"@,
    {
        "PNG"
    }

    /// The format's file extension.
    pub fn format_ext(&self) -> (r: &'static str)
        ensures
            r@ == "png"@,
    {
        "png"
    }

    /// CRC-32 over the chunk type and data fields, with the bit-reversed
    /// polynomial `0xEDB88320`, initial value all ones, final value inverted.
    pub fn calculate_crc(chunk_type: &[u8], data: &[u8]) -> (r: u32)
        ensures
            r == png_crc(chunk_type@ + data@),
    {
        let ghost td = chunk_type@ + data@;
        let mut crc: u32 = 0xFFFFFFFF;
        let mut i: usize = 0;
        while i < chunk_type.len()
            invariant
                i <= chunk_type@.len(),
                td == chunk_type@ + data@,
                crc_from(td, 0, 0xFFFFFFFFu32) == crc_from(td, i as int, crc),
            decreases chunk_type@.len() - i,
        {
            proof {
                assert(td[i as int] == chunk_type@[i as int]);
            }
            crc = crc_byte_update(crc, chunk_type[i]);
            i = i + 1;
        }
        let mut j: usize = 0;
        while j < data.len()
            invariant
                j <= data@.len(),
                td == chunk_type@ + data@,
                crc_from(td, 0, 0xFFFFFFFFu32) == crc_from(td, chunk_type@.len() + j, crc),
            decreases data@.len() - j,
        {
            proof {
                assert(td[chunk_type@.len() + j] == data@[j as int]);
            }
            crc = crc_byte_update(crc, data[j]);
            j = j + 1;
        }
        crc ^ 0xFFFFFFFF
    }

    /// Walks the chunk directory from offset 8 for the `IEND` chunk and
    /// returns its header start; fails when the directory ends without one.
    pub fn find_iend_position(data: &[u8]) -> (r: Result<usize, LupinError>)
        ensures
            r matches Ok(p) ==> png_find_chunk(data@, 8, iend_type()) == Some(p as int),
            r matches Err(e) ==> (png_find_chunk(data@, 8, iend_type()) is None
                && e is PngNoIdatChunk),
    {
        let n = data.len();
        let mut pos: usize = 8;
        while pos + 8 <= n
            invariant
                n == data@.len(),
                8 <= pos,
                pos == 8 || pos + 8 <= n,
                png_find_chunk(data@, 8, iend_type()) == png_find_chunk(
                    data@,
                    pos as int,
                    iend_type(),
                ),
            decreases data@.len() - pos,
        {
            let l = read_be_u32(data, pos);
            if data[pos + 4] == 0x49 && data[pos + 5] == 0x45 && data[pos + 6] == 0x4e && data[pos
                + 7] == 0x44 {
                assert(chunk_type_at(data@, pos as int, iend_type()));
                return Ok(pos);
            }
            assert(!chunk_type_at(data@, pos as int, iend_type()));
            if data.len() - pos < 20 {
                return Err(LupinError::PngNoIdatChunk);
            }
            let maxl = data.len() - pos - 20;
            if l as u64 > maxl as u64 {
                return Err(LupinError::PngNoIdatChunk);
            }
            pos = pos + 12 + (l as usize);
        }
        Err(LupinError::PngNoIdatChunk)
    }

    /// Builds a chunk: 4-byte big-endian data length, type, data, CRC-32 of
    /// type and data.
    pub fn create_chunk(chunk_type: &[u8], data: &[u8]) -> (r: Vec<u8>)
        requires
            data@.len() <= u32::MAX,
        ensures
            r@ == png_chunk_bytes(chunk_type@, data@),
    {
        let mut chunk: Vec<u8> = Vec::new();
        push_be_u32(&mut chunk, data.len() as u32);
        crate::push_range(&mut chunk, chunk_type, 0, chunk_type.len());
        crate::push_range(&mut chunk, data, 0, data.len());
        let crc = Self::calculate_crc(chunk_type, data);
        push_be_u32(&mut chunk, crc);
        assert(chunk_type@.subrange(0, chunk_type@.len() as int) =~= chunk_type@);
        assert(data@.subrange(0, data@.len() as int) =~= data@);
        assert(chunk@ =~= png_chunk_bytes(chunk_type@, data@));
        chunk
    }

    /// Walks the chunk directory from offset 8 for the first chunk of type
    /// `chunk_type`, stopping at `IEND`; verifies the found chunk's CRC and
    /// returns its data bytes.
    pub fn extract_custom_chunk(data: &[u8], chunk_type: &[u8]) -> (r: Result<Vec<u8>, LupinError>)
        ensures
            png_chunk_lookup_result(data@, chunk_type@, r),
    {
        let n = data.len();
        let mut pos: usize = 8;
        while pos + 8 <= n
            invariant
                n == data@.len(),
                8 <= pos,
                pos == 8 || pos + 8 <= n,
                png_find_stop(data@, 8, chunk_type@) == png_find_stop(
                    data@,
                    pos as int,
                    chunk_type@,
                ),
            decreases data@.len() - pos,
        {
            let l = read_be_u32(data, pos);
            let matched = chunk_type.len() == 4 && data[pos + 4] == chunk_type[0] && data[pos + 5]
                == chunk_type[1] && data[pos + 6] == chunk_type[2] && data[pos + 7]
                == chunk_type[3];
            if matched {
                assert(chunk_type_at(data@, pos as int, chunk_type@));
                if data.len() - pos < 12 {
                    return Err(LupinError::PngNoHiddenData);
                }
                let maxl = data.len() - pos - 12;
                if l as u64 > maxl as u64 {
                    return Err(LupinError::PngNoHiddenData);
                }
                let data_end = pos + 8 + (l as usize);
                let chunk_data = vstd::slice::slice_subrange(data, pos + 8, data_end);
                let stored = read_be_u32(data, data_end);
                let computed = Self::calculate_crc(chunk_type, chunk_data);
                if stored != computed {
                    return Err(LupinError::PngCorruptedData);
                }
                return Ok(vstd::slice::slice_to_vec(chunk_data));
            }
            assert(!chunk_type_at(data@, pos as int, chunk_type@));
            if data[pos + 4] == 0x49 && data[pos + 5] == 0x45 && data[pos + 6] == 0x4e && data[pos
                + 7] == 0x44 {
                assert(chunk_type_at(data@, pos as int, iend_type()));
                return Err(LupinError::PngNoHiddenData);
            }
            assert(!chunk_type_at(data@, pos as int, iend_type()));
            if data.len() - pos < 20 {
                return Err(LupinError::PngNoHiddenData);
            }
            let maxl = data.len() - pos - 20;
            if l as u64 > maxl as u64 {
                return Err(LupinError::PngNoHiddenData);
            }
            pos = pos + 12 + (l as usize);
        }
        Err(LupinError::PngNoHiddenData)
    }

    /// Embeds `payload` into the PNG carrier: splices an `lpNg` chunk holding
    /// the payload's base64 encoding immediately before the `IEND` chunk.
    /// Fails with `PngNoIdatChunk` when the chunk directory has no `IEND`.
    /// On success the output is pinned byte-for-byte, and when the carrier
    /// held no record chunk, extraction on the output returns exactly
    /// `payload`.
    pub fn embed(&self, source_data: &[u8], payload: &[u8]) -> (r: Result<Vec<u8>, LupinError>)
        requires
            payload@.len() <= PNG_MAX_PAYLOAD_LEN,
            payload@.len() <= MAX_ENCODABLE_LEN,
        ensures
            png_embed_result(source_data@, payload@, r),
    {
        let iend_pos = match Self::find_iend_position(source_data) {
            Ok(p) => p,
            Err(e) => {
                return Err(e);
            },
        };
        proof {
            lemma_png_find_chunk_props(source_data@, 8, iend_type());
        }
        let enc = b64_encode(payload);
        proof {
            vstd::arithmetic::div_mod::lemma_div_is_ordered(
                payload@.len() as int + 2,
                PNG_MAX_PAYLOAD_LEN as int + 2,
                3,
            );
        }
        let record = record_type_bytes();
        let chunk = Self::create_chunk(record.as_slice(), enc.as_slice());
        let mut out: Vec<u8> = Vec::new();
        crate::push_range(&mut out, source_data, 0, iend_pos);
        crate::push_range(&mut out, chunk.as_slice(), 0, chunk.len());
        crate::push_range(&mut out, source_data, iend_pos, source_data.len());
        assert(out@ =~= source_data@.take(iend_pos as int) + png_chunk_bytes(
            record_type(),
            enc@,
        ) + source_data@.skip(iend_pos as int));
        proof {
            if png_record_pos(source_data@) is None {
                lemma_png_round_trip(source_data@, enc@, payload@, iend_pos as int);
            }
        }
        Ok(out)
    }

    /// Extracts the hidden payload: locates the `lpNg` chunk, verifies its
    /// CRC, and decodes its data. Fails with `PngNoHiddenData` when no such
    /// chunk is found (or its declared extent runs past the carrier), and
    /// with `PngCorruptedData` on a CRC mismatch or undecodable data.
    pub fn extract(&self, source_data: &[u8]) -> (r: Result<Vec<u8>, LupinError>)
        ensures
            png_extract_result(source_data@, r),
    {
        let record = record_type_bytes();
        let encoded = match Self::extract_custom_chunk(source_data, record.as_slice()) {
            Ok(v) => v,
            Err(e) => {
                return Err(e);
            },
        };
        match b64_decode(encoded.as_slice()) {
            Some(v) => Ok(v),
            None => Err(LupinError::PngCorruptedData),
        }
    }
}

/// One CRC shift step is injective in the state.
proof fn lemma_crc_step_bit_injective(a: u32, b: u32)
    requires
        crc_step_bit(a) == crc_step_bit(b),
    ensures
        a == b,
{
    assert(crc_step_bit(a) == crc_step_bit(b) ==> a == b) by (bit_vector);
}

/// `n` CRC shift steps are injective in the state.
proof fn lemma_crc_bits_injective(a: u32, b: u32, n: nat)
    requires
        crc_bits(a, n) == crc_bits(b, n),
    ensures
        a == b,
    decreases n,
{
    if n > 0 {
        lemma_crc_step_bit_injective(crc_bits(a, (n - 1) as nat), crc_bits(b, (n - 1) as nat));
        lemma_crc_bits_injective(a, b, (n - 1) as nat);
    }
}

/// Absorbing one byte is injective in the state.
proof fn lemma_crc_step_byte_injective(s1: u32, s2: u32, b: u8)
    requires
        crc_step_byte(s1, b) == crc_step_byte(s2, b),
    ensures
        s1 == s2,
{
    lemma_crc_bits_injective(s1 ^ (b as u32), s2 ^ (b as u32), 8);
    assert(s1 ^ (b as u32) == s2 ^ (b as u32) ==> s1 == s2) by (bit_vector);
}

/// Distinct CRC states stay distinct over a common byte suffix.
proof fn lemma_crc_from_distinct(td1: Seq<u8>, td2: Seq<u8>, i: int, s1: u32, s2: u32)
    requires
        td1.len() == td2.len(),
        forall|j: int| i <= j < td1.len() ==> td1[j] == td2[j],
        s1 != s2,
    ensures
        crc_from(td1, i, s1) != crc_from(td2, i, s2),
    decreases td1.len() - i,
{
    if 0 <= i < td1.len() {
        let n1 = crc_step_byte(s1, td1[i]);
        let n2 = crc_step_byte(s2, td2[i]);
        if n1 == n2 {
            lemma_crc_step_byte_injective(s1, s2, td1[i]);
        }
        lemma_crc_from_distinct(td1, td2, i + 1, n1, n2);
    }
}

/// From position `i` on, the inputs agree except at position `k`, where they
/// differ: the CRC runs diverge.
proof fn lemma_crc_from_single_diff(td1: Seq<u8>, td2: Seq<u8>, k: int, i: int, s: u32)
    requires
        td1.len() == td2.len(),
        0 <= i <= k < td1.len(),
        forall|j: int| i <= j < td1.len() && j != k ==> td1[j] == td2[j],
        td1[k] != td2[k],
    ensures
        crc_from(td1, i, s) != crc_from(td2, i, s),
    decreases k - i,
{
    if i == k {
        let b1 = td1[k];
        let b2 = td2[k];
        assert(s ^ (b1 as u32) != s ^ (b2 as u32)) by (bit_vector)
            requires
                b1 != b2,
        ;
        if crc_step_byte(s, b1) == crc_step_byte(s, b2) {
            lemma_crc_bits_injective(s ^ (b1 as u32), s ^ (b2 as u32), 8);
        }
        lemma_crc_from_distinct(td1, td2, k + 1, crc_step_byte(s, b1), crc_step_byte(s, b2));
    } else {
        lemma_crc_from_single_diff(td1, td2, k, i + 1, crc_step_byte(s, td1[i]));
    }
}

/// CRC-32 detects every single-byte change: two equal-length inputs that
/// differ in exactly one byte have different checksums.
pub proof fn lemma_png_crc_single_byte(td1: Seq<u8>, td2: Seq<u8>, k: int)
    requires
        td1.len() == td2.len(),
        0 <= k < td1.len(),
        forall|j: int| 0 <= j < td1.len() && j != k ==> td1[j] == td2[j],
        td1[k] != td2[k],
    ensures
        png_crc(td1) != png_crc(td2),
{
    lemma_crc_from_single_diff(td1, td2, k, 0, 0xFFFFFFFFu32);
    let c1 = crc_from(td1, 0, 0xFFFFFFFFu32);
    let c2 = crc_from(td2, 0, 0xFFFFFFFFu32);
    assert(c1 ^ 0xFFFFFFFFu32 != c2 ^ 0xFFFFFFFFu32) by (bit_vector)
        requires
            c1 != c2,
    ;
}

/// The four big-endian bytes of a 32-bit value read back as that value.
proof fn lemma_be32_bytes_roundtrip(v: u32)
    ensures
        be32_bytes(v).len() == 4,
        be32_bytes(v)[0] * 0x1000000 + be32_bytes(v)[1] * 0x10000 + be32_bytes(v)[2] * 0x100
            + be32_bytes(v)[3] == v,
{
    let b0 = (v >> 24) as u8;
    let b1 = ((v >> 16) & 0xff) as u8;
    let b2 = ((v >> 8) & 0xff) as u8;
    let b3 = (v & 0xff) as u8;
    assert(b0 * 0x1000000 + b1 * 0x10000 + b2 * 0x100 + b3 == v) by (bit_vector)
        requires
            b0 == (v >> 24) as u8,
            b1 == ((v >> 16) & 0xff) as u8,
            b2 == ((v >> 8) & 0xff) as u8,
            b3 == (v & 0xff) as u8,
    ;
}

/// Carries the extraction walk over to a modified carrier: `out` agrees with
/// `c` below `ipos` (where `c`'s walk finds `IEND` and no record chunk) and
/// holds a record-typed chunk header at `ipos`, so the walk over `out` finds
/// exactly the chunk at `ipos`.
proof fn lemma_png_walk_transfer(c: Seq<u8>, out: Seq<u8>, pos: int, ipos: int)
    requires
        0 <= pos <= ipos,
        png_find_chunk(c, pos, iend_type()) == Some(ipos),
        png_find_stop(c, pos, record_type()) is None,
        forall|j: int| 0 <= j < ipos ==> out[j] == c[j],
        ipos + 8 <= out.len(),
        chunk_type_at(out, ipos, record_type()),
    ensures
        png_find_stop(out, pos, record_type()) == Some(ipos),
    decreases c.len() - pos,
{
    lemma_png_find_chunk_props(c, pos, iend_type());
    if chunk_type_at(c, pos, iend_type()) {
        assert(pos == ipos);
    } else {
        let next = pos + 12 + be32_at(c, pos);
        assert(next + 8 <= c.len());
        lemma_png_find_chunk_props(c, next, iend_type());
        assert(next <= ipos);
        assert(be32_at(out, pos) == be32_at(c, pos));
        assert(!chunk_type_at(out, pos, record_type()));
        assert(!chunk_type_at(out, pos, iend_type()));
        lemma_png_walk_transfer(c, out, next, ipos);
    }
}

impl crate::SteganographyEngine for PngEngine {
    fn magic_bytes(&self) -> Vec<u8> {
        PngEngine::magic_bytes(self)
    }

    fn format_name(&self) -> &'static str {
        PngEngine::format_name(self)
    }

    fn format_ext(&self) -> &'static str {
        PngEngine::format_ext(self)
    }

    fn embed(&self, source_data: &[u8], payload: &[u8]) -> Result<Vec<u8>, LupinError> {
        PngEngine::embed(self, source_data, payload)
    }

    fn extract(&self, source_data: &[u8]) -> Result<Vec<u8>, LupinError> {
        PngEngine::extract(self, source_data)
    }
}

/// Round trip for the PNG layout: take any carrier whose chunk walk finds
/// `IEND` at `ipos` and holds no record chunk before it, and splice in, right
/// before `IEND`, an `lpNg` chunk carrying any text `enc` that decodes to
/// `p`. From the resulting carrier, extraction locates exactly that chunk,
/// its CRC verifies, and decoding returns exactly `p`.
pub proof fn lemma_png_round_trip(c: Seq<u8>, enc: Seq<u8>, p: Seq<u8>, ipos: int)
    requires
        png_find_chunk(c, 8, iend_type()) == Some(ipos),
        png_find_stop(c, 8, record_type()) is None,
        enc.len() <= u32::MAX,
        b64_decoding(enc) == Some(p),
    ensures
        png_extracts_to(c.take(ipos) + png_chunk_bytes(record_type(), enc) + c.skip(ipos), p),
{
    let chunk = png_chunk_bytes(record_type(), enc);
    let out = c.take(ipos) + chunk + c.skip(ipos);
    lemma_png_find_chunk_props(c, 8, iend_type());
    lemma_be32_bytes_roundtrip(enc.len() as u32);
    lemma_be32_bytes_roundtrip(png_crc(record_type() + enc));
    assert(chunk.len() == 12 + enc.len());
    assert(out.len() == c.len() + 12 + enc.len());
    assert forall|j: int| 0 <= j < ipos implies out[j] == c[j] by {}
    assert forall|k: int| 0 <= k < chunk.len() implies out[ipos + k] == chunk[k] by {}
    assert(chunk_type_at(out, ipos, record_type()));
    lemma_png_walk_transfer(c, out, 8, ipos);
    assert(png_record_pos(out) == Some(ipos));
    assert(be32_at(out, ipos) == enc.len()) by {
        assert(out[ipos + 0] == be32_bytes(enc.len() as u32)[0]);
        assert(out[ipos + 1] == be32_bytes(enc.len() as u32)[1]);
        assert(out[ipos + 2] == be32_bytes(enc.len() as u32)[2]);
        assert(out[ipos + 3] == be32_bytes(enc.len() as u32)[3]);
    }
    assert(png_record_fits(out));
    assert(png_record_data(out) =~= enc);
    let dend = ipos + 8 + enc.len();
    assert(png_stored_crc(out) == png_crc(record_type() + enc)) by {
        assert(out[dend + 0] == be32_bytes(png_crc(record_type() + enc))[0]);
        assert(out[dend + 1] == be32_bytes(png_crc(record_type() + enc))[1]);
        assert(out[dend + 2] == be32_bytes(png_crc(record_type() + enc))[2]);
        assert(out[dend + 3] == be32_bytes(png_crc(record_type() + enc))[3]);
    }
    assert(png_record_ok(out));
}

/// Integrity for the PNG layout: take a carrier produced by a successful
/// embed (the record chunk spliced in at `ipos`), and flip any single bit of
/// the record chunk's data or CRC fields. Extraction on the flipped carrier
/// still locates the record chunk, but its stored CRC no longer matches the
/// CRC of its type and data, so extraction reports corruption.
pub proof fn lemma_png_bit_flip_detected(
    c: Seq<u8>,
    enc: Seq<u8>,
    ipos: int,
    out: Seq<u8>,
    flipped: Seq<u8>,
    j: int,
    bit: u8,
)
    requires
        png_find_chunk(c, 8, iend_type()) == Some(ipos),
        png_find_stop(c, 8, record_type()) is None,
        enc.len() <= u32::MAX,
        out == c.take(ipos) + png_chunk_bytes(record_type(), enc) + c.skip(ipos),
        flipped.len() == out.len(),
        ipos + 8 <= j < ipos + 12 + enc.len(),
        bit < 8,
        flipped[j] == (out[j] ^ (1u8 << bit)),
        forall|m: int| 0 <= m < out.len() && m != j ==> flipped[m] == out[m],
    ensures
        png_corrupted(flipped),
{
    let chunk = png_chunk_bytes(record_type(), enc);
    lemma_png_find_chunk_props(c, 8, iend_type());
    lemma_be32_bytes_roundtrip(enc.len() as u32);
    lemma_be32_bytes_roundtrip(png_crc(record_type() + enc));
    assert(chunk.len() == 12 + enc.len());
    assert(out.len() == c.len() + 12 + enc.len());
    assert forall|m: int| 0 <= m < ipos implies flipped[m] == c[m] by {
        assert(out[m] == c[m]);
    }
    assert forall|k: int| 0 <= k < chunk.len() && ipos + k != j implies flipped[ipos + k]
        == chunk[k] by {
        assert(out[ipos + k] == chunk[k]);
    }
    assert(chunk_type_at(flipped, ipos, record_type()));
    lemma_png_walk_transfer(c, flipped, 8, ipos);
    assert(png_record_pos(flipped) == Some(ipos));
    assert(be32_at(flipped, ipos) == enc.len()) by {
        assert(flipped[ipos + 0] == be32_bytes(enc.len() as u32)[0]);
        assert(flipped[ipos + 1] == be32_bytes(enc.len() as u32)[1]);
        assert(flipped[ipos + 2] == be32_bytes(enc.len() as u32)[2]);
        assert(flipped[ipos + 3] == be32_bytes(enc.len() as u32)[3]);
    }
    assert(png_record_fits(flipped));
    let b = out[j];
    let fb = flipped[j];
    assert(fb != b) by (bit_vector)
        requires
            fb == (b ^ (1u8 << bit)),
            bit < 8,
    ;
    let dend = ipos + 8 + enc.len();
    if j < dend {
        // a data byte changed: the stored CRC is the CRC of the original
        // data, which differs from the CRC of the changed data
        let d1 = record_type() + enc;
        let d2 = record_type() + png_record_data(flipped);
        assert(d2.len() == 4 + enc.len());
        let k = 4 + (j - (ipos + 8));
        assert(d2[k] == fb);
        assert(d1[k] == enc[j - (ipos + 8)] && enc[j - (ipos + 8)] == chunk[8 + (j - (ipos + 8))]
            && chunk[8 + (j - (ipos + 8))] == out[j]);
        assert forall|m: int| 0 <= m < d1.len() && m != k implies d1[m] == d2[m] by {
            if m >= 4 {
                assert(d2[m] == flipped[ipos + 8 + (m - 4)]);
                assert(d1[m] == enc[m - 4] && enc[m - 4] == chunk[8 + (m - 4)] && chunk[8 + (m
                    - 4)] == out[ipos + 8 + (m - 4)]);
            }
        }
        lemma_png_crc_single_byte(d1, d2, k);
        assert(png_stored_crc(flipped) == png_crc(d1)) by {
            assert(flipped[dend + 0] == be32_bytes(png_crc(record_type() + enc))[0]);
            assert(flipped[dend + 1] == be32_bytes(png_crc(record_type() + enc))[1]);
            assert(flipped[dend + 2] == be32_bytes(png_crc(record_type() + enc))[2]);
            assert(flipped[dend + 3] == be32_bytes(png_crc(record_type() + enc))[3]);
        }
    } else {
        // a stored-CRC byte changed: the data is unchanged, so the computed
        // CRC equals the original stored value, and the stored field differs
        assert(png_record_data(flipped) =~= enc);
        let b0 = out[dend + 0];
        let b1 = out[dend + 1];
        let b2 = out[dend + 2];
        let b3 = out[dend + 3];
        let f0 = flipped[dend + 0];
        let f1 = flipped[dend + 1];
        let f2 = flipped[dend + 2];
        let f3 = flipped[dend + 3];
        assert(b0 * 0x1000000 + b1 * 0x10000 + b2 * 0x100 + b3 == png_crc(record_type() + enc)) by {
            assert(out[dend + 0] == be32_bytes(png_crc(record_type() + enc))[0]);
            assert(out[dend + 1] == be32_bytes(png_crc(record_type() + enc))[1]);
            assert(out[dend + 2] == be32_bytes(png_crc(record_type() + enc))[2]);
            assert(out[dend + 3] == be32_bytes(png_crc(record_type() + enc))[3]);
        }
        assert(b0 != f0 || b1 != f1 || b2 != f2 || b3 != f3);
        assert((b0 != f0 || b1 != f1 || b2 != f2 || b3 != f3) ==> b0 * 0x1000000 + b1 * 0x10000
            + b2 * 0x100 + b3 != f0 * 0x1000000 + f1 * 0x10000 + f2 * 0x100 + f3) by (bit_vector);
        assert(png_stored_crc(flipped) == f0 * 0x1000000 + f1 * 0x10000 + f2 * 0x100 + f3);
    }
}

/// A carrier whose chunk walk finds no record chunk holds no record:
/// extraction cannot yield any payload.
pub proof fn lemma_png_extract_absence(c: Seq<u8>)
    requires
        png_record_pos(c) is None,
    ensures
        forall|p: Seq<u8>| !png_extracts_to(c, p),
{
}

} // verus!
