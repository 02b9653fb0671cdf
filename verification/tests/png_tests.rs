use base64::engine::general_purpose::STANDARD as BASE64;
use base64::Engine;
use lupin::engines::png::PngEngine;
use lupin::error::LupinError;

/// Creates a minimal valid PNG file for testing
fn create_minimal_png() -> Vec<u8> {
    let mut png = Vec::new();

    // PNG signature
    png.extend_from_slice(b"\x89PNG\r\n\x1a\n");

    // IHDR chunk (13 bytes data)
    png.extend_from_slice(&13u32.to_be_bytes()); // Length
    png.extend_from_slice(b"IHDR"); // Type
    png.extend_from_slice(&10u32.to_be_bytes()); // Width: 10
    png.extend_from_slice(&10u32.to_be_bytes()); // Height: 10
    png.push(8); // Bit depth
    png.push(2); // Color type: RGB
    png.push(0); // Compression
    png.push(0); // Filter
    png.push(0); // Interlace
    png.extend_from_slice(&[0x9a, 0x76, 0x82, 0x70]); // CRC (dummy)

    // IDAT chunk with pixel data (100 bytes for 10x10 RGB = 300 bytes needed, simplified)
    let pixel_data = vec![0u8; 500]; // Plenty of space for testing
    png.extend_from_slice(&(pixel_data.len() as u32).to_be_bytes()); // Length
    png.extend_from_slice(b"IDAT"); // Type
    png.extend_from_slice(&pixel_data);
    png.extend_from_slice(&[0x00, 0x00, 0x00, 0x00]); // CRC (dummy)

    // IEND chunk
    png.extend_from_slice(&0u32.to_be_bytes()); // Length
    png.extend_from_slice(b"IEND"); // Type
    png.extend_from_slice(&[0xae, 0x42, 0x60, 0x82]); // CRC

    png
}

#[test]
fn png_test_magic_bytes() {
    let engine = PngEngine::new();

    let magic = engine.magic_bytes();

    assert_eq!(magic, b"\x89PNG\r\n\x1a\n".to_vec());
}

#[test]
fn png_test_format_name() {
    let engine = PngEngine::new();

    let name = engine.format_name();

    assert_eq!(name, "PNG");
}

#[test]
fn png_test_format_ext() {
    let engine = PngEngine::new();

    let ext = engine.format_ext();

    assert_eq!(ext, "png");
}

#[test]
fn test_find_iend_position() {
    let png_data = create_minimal_png();

    let result = PngEngine::find_iend_position(&png_data);

    assert!(result.is_ok());
    let iend_pos = result.unwrap();
    // IEND should be near the end
    assert!(iend_pos > 8, "IEND position should be after PNG signature");
    // Verify it's actually at IEND
    assert_eq!(&png_data[iend_pos + 4..iend_pos + 8], b"IEND");
}

#[test]
fn test_find_iend_no_iend() {
    // PNG with only signature and IHDR, no IEND
    let mut png = Vec::new();
    png.extend_from_slice(b"\x89PNG\r\n\x1a\n");
    png.extend_from_slice(&13u32.to_be_bytes());
    png.extend_from_slice(b"IHDR");
    png.extend_from_slice(&[0u8; 13]); // IHDR data
    png.extend_from_slice(&[0u8; 4]); // CRC

    let result = PngEngine::find_iend_position(&png);

    assert!(result.is_err());
    match result {
        Err(LupinError::PngNoIdatChunk) => (), // Reusing this error
        other => panic!("Expected error, got {:?}", other),
    }
}

#[test]
fn png_test_embed_success() {
    let engine = PngEngine::new();
    let source = create_minimal_png();
    let payload = b"Hello, PNG steganography!";
    let expected_size = source.len() + BASE64.encode(payload).len() + 12; // payload + 12 byte chunk header

    let result = engine.embed(&source, payload);

    assert!(result.is_ok());
    let embedded = result.unwrap();

    assert!(
        expected_size == embedded.len(),
        "Expect output to grow by payload size plus chunk overhead"
    );
    assert!(embedded.starts_with(b"\x89PNG\r\n\x1a\n")); // Still valid PNG
}

#[test]
fn test_embed_and_extract_round_trip() {
    let engine = PngEngine::new();
    let source = create_minimal_png();
    let payload = b"Secret message hidden in PNG!";

    let embedded = engine
        .embed(&source, payload)
        .expect("Embed should succeed");

    let extracted = engine.extract(&embedded).expect("Extract should succeed");

    assert_eq!(extracted, payload);
}

#[test]
fn png_test_extract_no_hidden_data() {
    let engine = PngEngine::new();
    let source = create_minimal_png(); // Fresh PNG with no custom chunk

    let result = engine.extract(&source);

    // Should not find our custom chunk
    assert!(result.is_err(), "Should fail to find hidden data");
    match result {
        Err(LupinError::PngNoHiddenData) => (),
        other => panic!("Expected PngNoHiddenData error, got {:?}", other),
    }
}

#[test]
fn png_test_round_trip_with_binary_data() {
    let engine = PngEngine::new();
    let source = create_minimal_png();
    let payload: Vec<u8> = (0..=255).cycle().take(100).collect(); // Binary data

    let embedded = engine
        .embed(&source, &payload)
        .expect("Embed should succeed");
    let extracted = engine.extract(&embedded).expect("Extract should succeed");

    assert_eq!(extracted, payload);
}

#[test]
fn test_round_trip_with_empty_payload() {
    let engine = PngEngine::new();
    let source = create_minimal_png();
    let payload = b"";

    let result = engine.embed(&source, payload);

    // empty payload should succeed in embedding
    assert!(result.is_ok(), "Empty payload should be embeddable");

    if let Ok(embedded) = result {
        let extracted = engine.extract(&embedded).expect("Extract should succeed");
        assert_eq!(extracted, payload, "Extracted empty payload should match");
    }
}

#[test]
fn test_crc_calculation() {
    let crc = PngEngine::calculate_crc(b"IEND", &[]);

    // Known CRC for IEND chunk with no data
    assert_eq!(crc, 0xae426082);
}
