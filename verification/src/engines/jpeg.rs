//! JPEG steganography engine.
//!
//! A JPEG file is a sequence of 2-byte markers `0xFFxx`; most carry a 2-byte
//! big-endian length (which counts itself but not the marker) and that many
//! bytes of data. `SOI` (`0xFFD8`) and `RSTn` (`0xFFD0`-`0xFFD7`) carry no
//! length; `SOS` (`0xFFDA`) begins entropy-coded data after which marker
//! parsing stops; `EOI` (`0xFFD9`) ends the file. The engine hides the
//! base64-encoded payload in an `APP13` (`0xFFED`) application segment
//! spliced in right after `SOI`, where readers keep application metadata.
//! Any `APP13` segment found is treated as this engine's record.

use crate::encoding::{b64_decode, b64_decoding, b64_encode, b64_encoding, MAX_ENCODABLE_LEN};
use crate::error::LupinError;
use vstd::prelude::*;

verus! {

/// Hides a payload in an `APP13` application segment right after a JPEG's
/// `SOI` marker.
pub struct JpegEngine;

/// The big-endian 16-bit value whose two bytes start at `pos` of `d`.
pub open spec fn be16_at(d: Seq<u8>, pos: int) -> int {
    d[pos] * 0x100 + d[pos + 1]
}

/// The two big-endian bytes of a 16-bit value.
pub open spec fn be16_bytes(v: int) -> Seq<u8> {
    seq![(v / 0x100) as u8, (v % 0x100) as u8]
}

/// The carrier begins with the `SOI` marker.
pub open spec fn soi_ok(c: Seq<u8>) -> bool {
    c.len() >= 2 && c[0] == 0xff && c[1] == 0xd8
}

/// Start of the first `APP13` segment at or after `pos` in the marker walk:
/// the walk stops without a match at a byte that is no marker, at `SOS` or
/// `EOI`, and when the input runs out; markers without a length field are
/// stepped over.
pub open spec fn jpeg_find_app13(d: Seq<u8>, pos: int) -> Option<int>
    decreases d.len() - pos,
{
    if pos < 0 || pos + 4 >= d.len() {
        None
    } else if d[pos] != 0xff {
        None
    } else if be16_at(d, pos) == 0xffda || be16_at(d, pos) == 0xffd9 {
        None
    } else if be16_at(d, pos) == 0xffd8 || (0xffd0 <= be16_at(d, pos) && be16_at(d, pos)
        <= 0xffd7) {
        jpeg_find_app13(d, pos + 2)
    } else if be16_at(d, pos) == 0xffed {
        Some(pos)
    } else {
        let next = pos + 2 + be16_at(d, pos + 2);
        if next + 4 >= d.len() {
            None
        } else {
            jpeg_find_app13(d, next)
        }
    }
}

/// Start of the carrier's record segment, as the walk from offset 2 finds it.
pub open spec fn jpeg_record_pos(c: Seq<u8>) -> Option<int> {
    jpeg_find_app13(c, 2)
}

/// Declared length of the record segment (counts itself, not the marker).
pub open spec fn jpeg_record_len(c: Seq<u8>) -> int
    recommends
        jpeg_record_pos(c) is Some,
{
    be16_at(c, jpeg_record_pos(c)->0 + 2)
}

/// The record segment's declared extent covers its own length field and lies
/// inside the carrier.
pub open spec fn jpeg_record_fits(c: Seq<u8>) -> bool {
    match jpeg_record_pos(c) {
        Some(s) => 2 <= be16_at(c, s + 2) && s + 2 + be16_at(c, s + 2) <= c.len(),
        None => false,
    }
}

/// The record segment's data: the bytes between its length field and its end.
pub open spec fn jpeg_record_data(c: Seq<u8>) -> Seq<u8>
    recommends
        jpeg_record_fits(c),
{
    c.subrange(jpeg_record_pos(c)->0 + 4, jpeg_record_pos(c)->0 + 2 + jpeg_record_len(c))
}

/// Extraction from `c` succeeds and yields exactly `p`.
pub open spec fn jpeg_extracts_to(c: Seq<u8>, p: Seq<u8>) -> bool {
    jpeg_record_fits(c) && b64_decoding(jpeg_record_data(c)) == Some(p)
}

/// The carrier `embed` produces on success: the `APP13` segment holding the
/// payload's base64 encoding, spliced in at offset 2.
pub open spec fn jpeg_embed_output(c: Seq<u8>, p: Seq<u8>) -> Seq<u8> {
    c.take(2) + seq![0xffu8, 0xedu8] + be16_bytes((2 + b64_encoding(p).len()) as int) + b64_encoding(p)
        + c.skip(2)
}

/// Full postcondition of `JpegEngine::embed`. The first four hypotheses are
/// exhaustive and mutually exclusive, so they pin the result for every input;
/// the last clause states the round trip and the collision guarantee for the
/// produced carrier (a two-byte carrier with an empty payload yields a
/// six-byte output, too short for the walk to look at).
pub open spec fn jpeg_embed_result(c: Seq<u8>, p: Seq<u8>, r: Result<Vec<u8>, LupinError>) -> bool {
    &&& (jpeg_record_pos(c) is Some ==> (r matches Err(e) && e is EmbedCollision))
    &&& (jpeg_record_pos(c) is None && !soi_ok(c) ==> (r matches Err(e)
        && e is JpegInvalidFormat))
    &&& (jpeg_record_pos(c) is None && soi_ok(c) && 4 * ((p.len() + 2) / 3) > 0xfffd ==> (
    r matches Err(e) && e matches LupinError::JpegPayloadTooLarge { max_size, actual_size }
        && max_size == 0xfffd && actual_size == 4 * ((p.len() + 2) / 3)))
    &&& (jpeg_record_pos(c) is None && soi_ok(c) && 4 * ((p.len() + 2) / 3) <= 0xfffd ==> (
    r matches Ok(out) && out@ == jpeg_embed_output(c, p)))
    &&& (r matches Ok(out) ==> ((c.len() > 2 || p.len() > 0) ==> jpeg_extracts_to(out@, p)
        && jpeg_record_pos(out@) == Some(2int)))
}

/// Full postcondition of `JpegEngine::extract`: the record segment's state
/// pins the result for every input.
pub open spec fn jpeg_extract_result(c: Seq<u8>, r: Result<Vec<u8>, LupinError>) -> bool {
    &&& (jpeg_record_pos(c) is None ==> (r matches Err(e) && e is JpegNoHiddenData))
    &&& (jpeg_record_pos(c) is Some && !jpeg_record_fits(c) ==> (r matches Err(e)
        && e is JpegInvalidFormat))
    &&& (jpeg_record_fits(c) && b64_decoding(jpeg_record_data(c)) is None ==> (r matches Err(e)
        && e is JpegExtractionFailed))
    &&& (forall|p: Seq<u8>|
        jpeg_extracts_to(c, p) ==> (r matches Ok(v) && v@ == p))
}

/// A found record segment lies at or after the walk's start, with its marker
/// and length field inside the input.
proof fn lemma_jpeg_find_app13_props(d: Seq<u8>, pos: int)
    ensures
        jpeg_find_app13(d, pos) matches Some(s) ==> pos <= s && s + 4 < d.len() && be16_at(d, s)
            == 0xffed,
    decreases d.len() - pos,
{
    if !(pos < 0 || pos + 4 >= d.len()) && d[pos] == 0xff && !(be16_at(d, pos) == 0xffda || be16_at(
        d,
        pos,
    ) == 0xffd9) {
        if be16_at(d, pos) == 0xffd8 || (0xffd0 <= be16_at(d, pos) && be16_at(d, pos) <= 0xffd7) {
            lemma_jpeg_find_app13_props(d, pos + 2);
        } else if be16_at(d, pos) != 0xffed {
            let next = pos + 2 + be16_at(d, pos + 2);
            if next + 4 < d.len() {
                lemma_jpeg_find_app13_props(d, next);
            }
        }
    }
}

/// Round trip and collision for the JPEG layout: splicing an `APP13` segment
/// that carries any text `enc` decoding to `p` right after the `SOI` marker
/// yields a carrier whose walk finds that segment at offset 2 and whose
/// extraction returns exactly `p`.
pub proof fn lemma_jpeg_round_trip(c: Seq<u8>, enc: Seq<u8>, p: Seq<u8>, out: Seq<u8>)
    requires
        soi_ok(c),
        enc.len() + 2 <= 0xffff,
        b64_decoding(enc) == Some(p),
        c.len() > 2 || enc.len() > 0,
        out == c.take(2) + seq![0xffu8, 0xedu8] + be16_bytes((2 + enc.len()) as int) + enc + c.skip(2),
    ensures
        jpeg_record_pos(out) == Some(2int),
        jpeg_extracts_to(out, p),
{
    let v = 2 + enc.len() as int;
    assert(out.len() == c.len() + 4 + enc.len());
    assert(out[2] == 0xff && out[3] == 0xed);
    assert(be16_at(out, 2) == 0xffed);
    assert(jpeg_find_app13(out, 2) == Some(2int));
    assert(out[4] == (v / 0x100) as u8 && out[5] == (v % 0x100) as u8);
    assert(be16_at(out, 4) == v) by {
        assert(v / 0x100 <= 0xff);
        assert((v / 0x100) * 0x100 + v % 0x100 == v) by {
            vstd::arithmetic::div_mod::lemma_fundamental_div_mod(v, 0x100);
        }
    }
    assert(jpeg_record_fits(out));
    assert(jpeg_record_data(out) =~= enc);
}

/// A carrier whose marker walk finds no `APP13` segment holds no record:
/// extraction cannot yield any payload.
pub proof fn lemma_jpeg_extract_absence(c: Seq<u8>)
    requires
        jpeg_record_pos(c) is None,
    ensures
        forall|p: Seq<u8>| !jpeg_extracts_to(c, p),
{
}

/// The JPEG magic bytes: `SOI` plus the first byte of the following marker.
pub open spec fn jpeg_magic() -> Seq<u8> {
    seq![0xffu8, 0xd8u8, 0xffu8]
}

impl JpegEngine {
    /// Creates a new JPEG engine.
    pub fn new() -> (r: Self) {
        JpegEngine
    }

    /// The magic bytes that identify the format.
    pub fn magic_bytes(&self) -> (r: Vec<u8>)
        ensures
            r@ == jpeg_magic(),
    {
        let mut r: Vec<u8> = Vec::new();
        r.push(0xff);
        r.push(0xd8);
        r.push(0xff);
        assert(r@ =~= jpeg_magic());
        r
    }

    /// The format's human-readable name.
    pub fn format_name(&self) -> (r: &'static str)
        ensures
            r@ == "JPEG"@,
    {
        "JPEG"
    }

    /// The format's file extension.
    pub fn format_ext(&self) -> (r: &'static str)
        ensures
            r@ == ".jpg"@,
    {
        ".jpg"
    }

    /// Reads a big-endian 16-bit value from the first two bytes of a slice.
    pub fn read_u16_be(data: &[u8]) -> (r: u16)
        requires
            2 <= data@.len(),
        ensures
            r as int == be16_at(data@, 0),
    {
        (data[0] as u16) * 0x100 + (data[1] as u16)
    }

    /// Writes a 16-bit value as two big-endian bytes.
    pub fn write_u16_be(value: u16) -> (r: [u8; 2])
        ensures
            r@ == be16_bytes(value as int),
    {
        let r = [(value / 0x100) as u8, (value % 0x100) as u8];
        proof {
            vstd::arithmetic::div_mod::lemma_fundamental_div_mod(value as int, 0x100);
            assert(r@ =~= be16_bytes(value as int));
        }
        r
    }

    /// Validates the `SOI` marker and returns the insertion point for the
    /// record segment: offset 2, immediately after `SOI`.
    pub fn find_insert_position(&self, jpeg_data: &[u8]) -> (r: Result<usize, LupinError>)
        ensures
            soi_ok(jpeg_data@) ==> (r matches Ok(p) && p == 2),
            !soi_ok(jpeg_data@) ==> (r matches Err(e) && e is JpegInvalidFormat),
    {
        if jpeg_data.len() < 2 {
            return Err(LupinError::JpegInvalidFormat { reason: "file too short".to_owned() });
        }
        let soi = Self::read_u16_be(jpeg_data);
        if soi != 0xffd8 {
            return Err(
                LupinError::JpegInvalidFormat { reason: "missing SOI marker".to_owned() },
            );
        }
        Ok(2)
    }

    /// Walks the markers from offset 2 for an existing `APP13` record segment
    /// and returns its start.
    pub fn find_lupin_com_segment(&self, jpeg_data: &[u8]) -> (r: Option<usize>)
        ensures
            match r {
                Some(s) => jpeg_find_app13(jpeg_data@, 2) == Some(s as int),
                None => jpeg_find_app13(jpeg_data@, 2) is None,
            },
    {
        let n = jpeg_data.len();
        if n < 7 {
            return None;
        }
        let mut pos: usize = 2;
        while pos < n - 4
            invariant
                n == jpeg_data@.len(),
                7 <= n,
                2 <= pos,
                jpeg_find_app13(jpeg_data@, 2) == jpeg_find_app13(jpeg_data@, pos as int),
            decreases jpeg_data@.len() - pos,
        {
            if jpeg_data[pos] != 0xff {
                return None;
            }
            let marker = (jpeg_data[pos] as u16) * 0x100 + (jpeg_data[pos + 1] as u16);
            assert(marker as int == be16_at(jpeg_data@, pos as int));
            if marker == 0xffda || marker == 0xffd9 {
                return None;
            }
            if marker == 0xffd8 || (0xffd0 <= marker && marker <= 0xffd7) {
                pos = pos + 2;
            } else if marker == 0xffed {
                return Some(pos);
            } else {
                let l = (jpeg_data[pos + 2] as usize) * 0x100 + (jpeg_data[pos + 3] as usize);
                assert(l as int == be16_at(jpeg_data@, pos + 2));
                if n - pos < 7 {
                    return None;
                }
                let maxl = n - pos - 7;
                if l > maxl {
                    return None;
                }
                pos = pos + 2 + l;
            }
        }
        None
    }

    /// Embeds `payload` into the JPEG carrier: splices an `APP13` segment
    /// holding the payload's base64 encoding in at offset 2, right after
    /// `SOI`. Fails with `EmbedCollision` when the marker walk already finds
    /// an `APP13` segment, with `JpegInvalidFormat` when the carrier is
    /// shorter than two bytes or does not start with `SOI`, and with
    /// `JpegPayloadTooLarge` when the encoded payload does not fit the
    /// segment's 16-bit length field. On success the output is pinned
    /// byte-for-byte, extraction on it returns exactly `payload`, and a
    /// second embed collides.
    pub fn embed(&self, source_data: &[u8], payload: &[u8]) -> (r: Result<Vec<u8>, LupinError>)
        requires
            payload@.len() <= MAX_ENCODABLE_LEN,
        ensures
            jpeg_embed_result(source_data@, payload@, r),
    {
        if let Some(_existing) = self.find_lupin_com_segment(source_data) {
            return Err(LupinError::EmbedCollision);
        }
        let insert_pos = match self.find_insert_position(source_data) {
            Ok(p) => p,
            Err(e) => {
                return Err(e);
            },
        };
        let enc = b64_encode(payload);
        if enc.len() > 0xfffd {
            return Err(
                LupinError::JpegPayloadTooLarge { max_size: 0xfffd, actual_size: enc.len() },
            );
        }
        let seg_len: u16 = (enc.len() as u16) + 2;
        let seg_bytes = Self::write_u16_be(seg_len);
        let mut out: Vec<u8> = Vec::new();
        crate::push_range(&mut out, source_data, 0, insert_pos);
        out.push(0xff);
        out.push(0xed);
        out.push(seg_bytes[0]);
        out.push(seg_bytes[1]);
        crate::push_range(&mut out, enc.as_slice(), 0, enc.len());
        crate::push_range(&mut out, source_data, insert_pos, source_data.len());
        assert(out@ =~= jpeg_embed_output(source_data@, payload@));
        proof {
            if source_data@.len() > 2 || payload@.len() > 0 {
                lemma_jpeg_round_trip(source_data@, enc@, payload@, out@);
            }
        }
        Ok(out)
    }

    /// Extracts the hidden payload: locates the `APP13` segment and decodes
    /// its data. Fails with `JpegNoHiddenData` when the walk finds no such
    /// segment, `JpegInvalidFormat` when the found segment's length field
    /// runs past the carrier (or cannot cover itself), and
    /// `JpegExtractionFailed` when the data does not decode.
    pub fn extract(&self, source_data: &[u8]) -> (r: Result<Vec<u8>, LupinError>)
        ensures
            jpeg_extract_result(source_data@, r),
    {
        let seg_start = match self.find_lupin_com_segment(source_data) {
            Some(s) => s,
            None => {
                return Err(LupinError::JpegNoHiddenData);
            },
        };
        proof {
            lemma_jpeg_find_app13_props(source_data@, 2);
        }
        let n = source_data.len();
        assert(seg_start + 4 < n);
        let l = (source_data[seg_start + 2] as usize) * 0x100 + (source_data[seg_start
            + 3] as usize);
        assert(l as int == be16_at(source_data@, seg_start + 2));
        if l < 2 || n - seg_start - 2 < l {
            return Err(
                LupinError::JpegInvalidFormat {
                    reason: "record segment length out of bounds".to_owned(),
                },
            );
        }
        let seg_end = seg_start + 2 + l;
        let encoded = vstd::slice::slice_subrange(source_data, seg_start + 4, seg_end);
        match b64_decode(encoded) {
            Some(v) => Ok(v),
            None => Err(LupinError::JpegExtractionFailed),
        }
    }
}

impl crate::SteganographyEngine for JpegEngine {
    fn magic_bytes(&self) -> Vec<u8> {
        JpegEngine::magic_bytes(self)
    }

    fn format_name(&self) -> &'static str {
        JpegEngine::format_name(self)
    }

    fn format_ext(&self) -> &'static str {
        JpegEngine::format_ext(self)
    }

    fn embed(&self, source_data: &[u8], payload: &[u8]) -> Result<Vec<u8>, LupinError> {
        JpegEngine::embed(self, source_data, payload)
    }

    fn extract(&self, source_data: &[u8]) -> Result<Vec<u8>, LupinError> {
        JpegEngine::extract(self, source_data)
    }
}

} // verus!
