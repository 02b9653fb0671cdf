use lupin::engines::jpeg::JpegEngine;
use lupin::engines::pdf::PdfEngine;
use lupin::engines::png::PngEngine;
use lupin::error::LupinError;
use lupin::operations;

fn create_minimal_pdf() -> Vec<u8> {
    b"%PDF-1.4\n1 0 obj\n<<\n/Type /Catalog\n>>\nendobj\nxref\n0 1\n0000000000 65535 f\ntrailer\n<<\n/Size 1\n/Root 1 0 R\n>>\nstartxref\n73\n%%EOF".to_vec()
}

fn create_minimal_png() -> Vec<u8> {
    let mut png = Vec::new();
    png.extend_from_slice(b"\x89PNG\r\n\x1a\n");
    png.extend_from_slice(&13u32.to_be_bytes());
    png.extend_from_slice(b"IHDR");
    png.extend_from_slice(&10u32.to_be_bytes());
    png.extend_from_slice(&10u32.to_be_bytes());
    png.push(8);
    png.push(2);
    png.push(0);
    png.push(0);
    png.push(0);
    png.extend_from_slice(&[0x9a, 0x76, 0x82, 0x70]);
    let pixel_data = vec![0u8; 500];
    png.extend_from_slice(&(pixel_data.len() as u32).to_be_bytes());
    png.extend_from_slice(b"IDAT");
    png.extend_from_slice(&pixel_data);
    png.extend_from_slice(&[0x00, 0x00, 0x00, 0x00]);
    png.extend_from_slice(&0u32.to_be_bytes());
    png.extend_from_slice(b"IEND");
    png.extend_from_slice(&[0xae, 0x42, 0x60, 0x82]);
    png
}

fn create_minimal_jpeg() -> Vec<u8> {
    vec![
        0xFF, 0xD8, // SOI
        0xFF, 0xDB, // DQT marker
        0x00, 0x04, // Length
        0x00, 0x00, // Table data (shortened)
        0xFF, 0xD9, // EOI
    ]
}

// Round trip through the routed operations, for every supported format.
#[test]
fn round_trip_all_formats_via_operations() {
    let payload = b"\x00\x7f binary and text \xff\x01";
    for carrier in [create_minimal_pdf(), create_minimal_png(), create_minimal_jpeg()] {
        let (embedded, _) = operations::embed(&carrier, payload).expect("embed should succeed");
        let (extracted, _) = operations::extract(&embedded).expect("extract should succeed");
        assert_eq!(extracted, payload.to_vec());
    }
}

// Empty payloads round-trip where the format permits them: PNG and JPEG frame
// the record, so an empty record is still found; PDF stores the bare base64
// text, so an empty payload leaves no record at all.
#[test]
fn round_trip_empty_payload_png_and_jpeg() {
    for carrier in [create_minimal_png(), create_minimal_jpeg()] {
        let (embedded, _) = operations::embed(&carrier, b"").expect("embed should succeed");
        let (extracted, _) = operations::extract(&embedded).expect("extract should succeed");
        assert_eq!(extracted, b"".to_vec());
    }
    let pdf = create_minimal_pdf();
    let (embedded, _) = operations::embed(&pdf, b"").expect("embed should succeed");
    assert!(matches!(
        operations::extract(&embedded),
        Err(LupinError::PdfNoHiddenData)
    ));
}

// Embedding twice into the same carrier succeeds first and fails with
// EmbedCollision second, for the PDF and JPEG engines. The PNG engine
// performs no collision check: a second embed adds a second chunk.
#[test]
fn second_embed_collides_pdf_and_jpeg() {
    for carrier in [create_minimal_pdf(), create_minimal_jpeg()] {
        let (embedded, _) = operations::embed(&carrier, b"first").expect("embed should succeed");
        let second = operations::embed(&embedded, b"second");
        assert!(matches!(second, Err(LupinError::EmbedCollision { .. })));
    }
}

// The PNG engine accepts a second embed (an intentional asymmetry); the
// second record chunk sits closer to IEND, so extraction still returns the
// first record.
#[test]
fn png_second_embed_adds_second_chunk() {
    let engine = PngEngine::new();
    let carrier = create_minimal_png();
    let embedded_once = engine.embed(&carrier, b"first").expect("embed should succeed");
    let embedded_twice = engine.embed(&embedded_once, b"second").expect("embed should succeed");
    assert!(embedded_twice.len() > embedded_once.len());
    let extracted = engine.extract(&embedded_twice).expect("extract should succeed");
    assert_eq!(extracted, b"first".to_vec());
}

// Flipping any single bit inside the inserted chunk's data or CRC fields
// makes PNG extraction fail with PngCorruptedData.
#[test]
fn png_single_bit_flip_is_detected() {
    let engine = PngEngine::new();
    let carrier = create_minimal_png();
    let payload = b"integrity-checked payload";
    let embedded = engine.embed(&carrier, payload).expect("embed should succeed");
    let iend_pos = PngEngine::find_iend_position(&carrier).expect("carrier has IEND");
    let chunk_len = embedded.len() - carrier.len(); // 12 bytes overhead + encoded data
    // the data and CRC fields of the inserted chunk
    let first = iend_pos + 8;
    let last = iend_pos + chunk_len;
    for byte_index in first..last {
        for bit in 0..8 {
            let mut flipped = embedded.clone();
            flipped[byte_index] ^= 1u8 << bit;
            let result = engine.extract(&flipped);
            assert!(
                matches!(result, Err(LupinError::PngCorruptedData)),
                "flip of bit {} in byte {} went undetected",
                bit,
                byte_index
            );
        }
    }
}

// A payload whose base64 encoding plus 2 exceeds 0xFFFF fails JPEG embed
// with JpegPayloadTooLarge; one byte smaller succeeds and round-trips.
#[test]
fn jpeg_capacity_boundary() {
    let engine = JpegEngine::new();
    let carrier = create_minimal_jpeg();

    let too_large = vec![7u8; 49150]; // encodes to 65536 bytes; 2 + 65536 > 0xFFFF
    let result = engine.embed(&carrier, &too_large);
    match result {
        Err(LupinError::JpegPayloadTooLarge { max_size, actual_size }) => {
            assert_eq!(max_size, 0xFFFF - 2);
            assert_eq!(actual_size, 65536);
        },
        other => panic!("Expected JpegPayloadTooLarge, got {:?}", other.map(|v| v.len())),
    }

    let just_fits = vec![7u8; 49149]; // encodes to 65532 bytes; 2 + 65532 <= 0xFFFF
    let embedded = engine.embed(&carrier, &just_fits).expect("embed should succeed");
    let extracted = engine.extract(&embedded).expect("extract should succeed");
    assert_eq!(extracted, just_fits);
}

// Two embed calls with identical carrier and payload produce byte-identical
// output, for every format.
#[test]
fn embed_is_deterministic() {
    let payload = b"determinism check";
    for carrier in [create_minimal_pdf(), create_minimal_png(), create_minimal_jpeg()] {
        let (out1, _) = operations::embed(&carrier, payload).expect("embed should succeed");
        let (out2, _) = operations::embed(&carrier, payload).expect("embed should succeed");
        assert_eq!(out1, out2);
    }
}

// Concrete scenario: the 125-byte minimal PDF with payload "secret message"
// embeds to 145 bytes ending in the payload's base64 text, and extraction
// returns the payload exactly.
#[test]
fn pdf_scenario_embed_then_extract() {
    let engine = PdfEngine::new();
    let carrier = create_minimal_pdf();
    assert_eq!(carrier.len(), 125);
    let embedded = engine.embed(&carrier, b"secret message").expect("embed should succeed");
    assert_eq!(embedded.len(), 145);
    assert!(embedded.ends_with(b"c2VjcmV0IG1lc3NhZ2U="));
    let extracted = engine.extract(&embedded).expect("extract should succeed");
    assert_eq!(extracted, b"secret message".to_vec());
}

// Concrete scenario: a minimal PNG with only IHDR/IDAT/IEND and an empty
// payload grows by exactly the 12-byte chunk overhead, and extraction
// returns the empty payload.
#[test]
fn png_scenario_empty_payload_overhead() {
    let engine = PngEngine::new();
    let carrier = create_minimal_png();
    let embedded = engine.embed(&carrier, b"").expect("embed should succeed");
    assert_eq!(embedded.len(), carrier.len() + 12);
    let extracted = engine.extract(&embedded).expect("extract should succeed");
    assert_eq!(extracted, b"".to_vec());
}

// Concrete scenario: a minimal JPEG embedded with one payload rejects a
// second embed with EmbedCollision.
#[test]
fn jpeg_scenario_second_embed_collides() {
    let engine = JpegEngine::new();
    let carrier = create_minimal_jpeg();
    let embedded = engine
        .embed(&carrier, b"Secret message hidden in JPEG!")
        .expect("embed should succeed");
    let second = engine.embed(&embedded, b"another payload");
    assert!(matches!(second, Err(LupinError::EmbedCollision { .. })));
}

// A JPEG record segment whose text is not valid base64 fails extraction
// with JpegExtractionFailed.
#[test]
fn jpeg_extract_invalid_base64() {
    let engine = JpegEngine::new();
    let mut carrier = vec![0xFFu8, 0xD8];
    carrier.extend_from_slice(&[0xFF, 0xED, 0x00, 0x06]); // APP13, length 6
    carrier.extend_from_slice(b"!@#$"); // not base64 text
    carrier.extend_from_slice(&[0xFF, 0xD9]);
    let result = engine.extract(&carrier);
    assert!(matches!(result, Err(LupinError::JpegExtractionFailed)));
}

// A PNG whose chunk directory has no IEND rejects embedding.
#[test]
fn png_embed_without_iend() {
    let engine = PngEngine::new();
    let mut png = Vec::new();
    png.extend_from_slice(b"\x89PNG\r\n\x1a\n");
    png.extend_from_slice(&13u32.to_be_bytes());
    png.extend_from_slice(b"IHDR");
    png.extend_from_slice(&[0u8; 13]);
    png.extend_from_slice(&[0u8; 4]);
    let result = engine.embed(&png, b"payload");
    assert!(matches!(result, Err(LupinError::PngNoIdatChunk)));
}

// The engines share the capability trait, so callers can stay generic.
#[test]
fn engines_work_through_the_trait() {
    fn round_trip<E: lupin::SteganographyEngine>(engine: &E, carrier: &[u8], payload: &[u8]) {
        assert!(!engine.magic_bytes().is_empty());
        assert!(!engine.format_name().is_empty());
        assert!(!engine.format_ext().is_empty());
        let embedded = engine.embed(carrier, payload).expect("embed should succeed");
        let extracted = engine.extract(&embedded).expect("extract should succeed");
        assert_eq!(extracted, payload.to_vec());
    }
    round_trip(&PdfEngine::new(), &create_minimal_pdf(), b"via the trait");
    round_trip(&PngEngine::new(), &create_minimal_png(), b"via the trait");
    round_trip(&JpegEngine::new(), &create_minimal_jpeg(), b"via the trait");
}

// Each error carries a short description.
#[test]
fn error_messages_describe_the_failure() {
    let engine = PdfEngine::new();
    let no_eof = engine.extract(b"%PDF-1.4 without a trailer").unwrap_err();
    assert!(no_eof.message().contains("%%EOF"));
    let clean = create_minimal_pdf();
    let no_data = engine.extract(&clean).unwrap_err();
    assert!(no_data.message().contains("no hidden data"));
}

// The embedded output stores base64 text, not the raw payload bytes.
#[test]
fn record_is_encoded_not_raw() {
    let engine = PdfEngine::new();
    let carrier = create_minimal_pdf();
    let payload = b"\x00\x01\x02\x03binary";
    let embedded = engine.embed(&carrier, payload).expect("embed should succeed");
    let tail = &embedded[carrier.len()..];
    assert_ne!(tail, payload);
    assert!(tail.iter().all(|b| b.is_ascii_alphanumeric() || *b == b'+' || *b == b'/' || *b == b'='));
}
