use lupin::engines::pdf::PdfEngine;
use lupin::error::LupinError;

fn create_minimal_pdf() -> Vec<u8> {
    b"%PDF-1.4\n1 0 obj\n<<\n/Type /Catalog\n>>\nendobj\nxref\n0 1\n0000000000 65535 f\ntrailer\n<<\n/Size 1\n/Root 1 0 R\n>>\nstartxref\n73\n%%EOF".to_vec()
}

fn create_invalid_pdf_no_eof() -> Vec<u8> {
    b"%PDF-1.4\n1 0 obj\n<<\n/Type /Catalog\n>>\nendobj".to_vec()
}

#[test]
fn pdf_test_magic_bytes() {
    let engine = PdfEngine::new();

    assert_eq!(engine.magic_bytes(), b"%PDF".to_vec()); // Magic bytes should match PDF file format signature
}

#[test]
fn pdf_test_format_name() {
    let engine = PdfEngine::new();

    assert_eq!(engine.format_name(), "PDF"); // Format name should be human-readable identifier
}

#[test]
fn pdf_test_format_ext() {
    let engine = PdfEngine::new();

    assert_eq!(engine.format_ext(), ".pdf"); // File extension should include the dot
}

#[test]
fn test_find_eof_end() {
    let engine = PdfEngine::new();
    let pdf = create_minimal_pdf();

    let eof_end = engine.find_eof_end(&pdf);

    assert!(eof_end.is_some()); // Should find %%EOF marker in valid PDF
    let pos = eof_end.unwrap();
    assert_eq!(pos, 125); // Position should be immediately after %%EOF in minimal PDF (120 + 5 = 125)
    assert_eq!(&pdf[120..125], b"%%EOF"); // Should find the actual %%EOF marker at position 120
}

#[test]
fn test_find_eof_end_multiple_eof() {
    let engine = PdfEngine::new();
    let mut pdf = create_minimal_pdf();
    pdf.extend_from_slice(b"\n%%EOF\nfake_data");

    let eof_end = engine.find_eof_end(&pdf);

    assert!(eof_end.is_some()); // Should find the last %%EOF marker when multiple exist
    let pos = eof_end.unwrap();
    assert_eq!(pos, 131); // Should point to end of second %%EOF (125 + 6 = 131)
    assert_eq!(&pdf[126..131], b"%%EOF"); // Should find the second %%EOF marker
    assert_eq!(&pdf[131..], b"\nfake_data"); // Content after second %%EOF should remain
}

#[test]
fn test_find_eof_end_no_eof() {
    let engine = PdfEngine::new();
    let pdf = create_invalid_pdf_no_eof();

    let eof_end = engine.find_eof_end(&pdf);

    assert!(eof_end.is_none()); // Should return None when no %%EOF marker is found
}

#[test]
fn pdf_test_embed_success() {
    let engine = PdfEngine::new();
    let pdf = create_minimal_pdf();
    let payload = b"secret message";

    let result = engine.embed(&pdf, payload);

    assert!(result.is_ok()); // Embed operation should succeed with valid PDF

    let embedded = result.unwrap();
    assert_eq!(embedded.len(), 145); // Original PDF (125 bytes) + base64 encoded payload (20 bytes) = 145
    assert!(embedded.starts_with(b"%PDF")); // Should preserve PDF magic bytes at start
    assert!(embedded.ends_with(b"c2VjcmV0IG1lc3NhZ2U=")); // Should end with base64 of "secret message"
}

#[test]
fn test_embed_no_eof_marker() {
    let engine = PdfEngine::new();
    let invalid_pdf = create_invalid_pdf_no_eof();
    let payload = b"secret message";

    let result = engine.embed(&invalid_pdf, payload);

    assert!(result.is_err()); // Should fail when PDF has no %%EOF marker

    match result.unwrap_err() {
        LupinError::PdfNoEofMarker => (), // Should return specific error for missing %%EOF
        other => panic!("Expected PdfNoEofMarker, got {:?}", other),
    }
}

#[test]
fn test_embed_empty_payload() {
    let engine = PdfEngine::new();
    let pdf = create_minimal_pdf();
    let payload = b"";

    let result = engine.embed(&pdf, payload);

    assert!(result.is_ok()); // Empty payload should still embed successfully

    let embedded = result.unwrap();
    assert_eq!(embedded.len(), 125); // Original PDF (125 bytes) + base64 of empty string (0 bytes) = 125
}

#[test]
fn test_embed_into_already_embedded_pdf() {
    let engine = PdfEngine::new();
    let mut pdf = create_minimal_pdf();
    pdf.extend_from_slice(b"c2VjcmV0IG1lc3NhZ2U="); // base64 of "secret message"

    let result = engine.embed(&pdf, "more secret".as_bytes());

    assert!(result.is_err()); // Should fail when base64 data is corrupted

    match result.unwrap_err() {
        LupinError::EmbedCollision { .. } => (), // Should return specific error for embed collision
        other => panic!("Expected EmbedCollision, got {:?}", other),
    }
}

#[test]
fn test_extract_success() {
    let engine = PdfEngine::new();
    let mut pdf = create_minimal_pdf();
    pdf.extend_from_slice(b"c2VjcmV0IG1lc3NhZ2U="); // base64 of "secret message"

    let result = engine.extract(&pdf);

    assert!(result.is_ok()); // Extract should succeed with valid embedded data

    let extracted_payload = result.unwrap();
    assert_eq!(extracted_payload, b"secret message"); // Should extract exact original payload
}

#[test]
fn test_extract_no_eof_marker() {
    let engine = PdfEngine::new();
    let invalid_pdf = create_invalid_pdf_no_eof();

    let result = engine.extract(&invalid_pdf);

    assert!(result.is_err()); // Should fail when PDF has no %%EOF marker

    match result.unwrap_err() {
        LupinError::PdfNoEofMarker => (), // Should return specific error for missing %%EOF
        other => panic!("Expected PdfNoEofMarker, got {:?}", other),
    }
}

#[test]
fn pdf_test_extract_no_hidden_data() {
    let engine = PdfEngine::new();
    let clean_pdf = create_minimal_pdf();

    let result = engine.extract(&clean_pdf);

    assert!(result.is_err()); // Should fail when no data exists after %%EOF

    match result.unwrap_err() {
        LupinError::PdfNoHiddenData => (), // Should return specific error for no hidden data
        other => panic!("Expected PdfNoHiddenData, got {:?}", other),
    }
}

#[test]
fn test_extract_corrupted_data() {
    let engine = PdfEngine::new();
    let mut pdf = create_minimal_pdf();

    // Add invalid base64 data after %%EOF
    pdf.extend_from_slice(b"invalid@base64!");

    let result = engine.extract(&pdf);

    assert!(result.is_err()); // Should fail when base64 data is corrupted

    match result.unwrap_err() {
        LupinError::PdfCorruptedData => (), // Should return specific error for corrupted base64
        other => panic!("Expected PdfCorruptedData, got {:?}", other),
    }
}

#[test]
fn test_extract_with_whitespace() {
    let engine = PdfEngine::new();
    let pdf = create_minimal_pdf();

    // Create embedded data with whitespace manually
    let mut embedded = Vec::new();
    embedded.extend_from_slice(&pdf);
    embedded.extend_from_slice(b"  \n\t"); // Add whitespace after %%EOF
    embedded.extend_from_slice(b"dGVzdCB3aXRoIHNwYWNlcw=="); // base64 of "test with spaces"

    let result = engine.extract(&embedded);

    assert!(result.is_ok()); // Should succeed despite whitespace after %%EOF

    let extracted_payload = result.unwrap();
    assert_eq!(extracted_payload, b"test with spaces"); // Should extract correct payload ignoring whitespace
}

#[test]
fn pdf_test_round_trip_with_binary_data() {
    let engine = PdfEngine::new();
    let pdf = create_minimal_pdf();

    let binary_payload = b"\x00\x01\x02\xff";
    let embedded2 = engine.embed(&pdf, binary_payload).unwrap();
    let extracted2 = engine.extract(&embedded2).unwrap();

    assert_eq!(extracted2, b"\x00\x01\x02\xff"); // Binary data should round-trip correctly
}

#[test]
fn test_round_trip_with_unicode_data() {
    let engine = PdfEngine::new();
    let pdf = create_minimal_pdf();

    let unicode_payload = "unicode: üïµÔ∏è Œ±Œ≤Œ≥ Œ¥ŒµŒ∂".as_bytes();
    let embedded3 = engine.embed(&pdf, unicode_payload).unwrap();
    let extracted3 = engine.extract(&embedded3).unwrap();

    assert_eq!(extracted3, "unicode: üïµÔ∏è Œ±Œ≤Œ≥ Œ¥ŒµŒ∂".as_bytes()); // Unicode should round-trip correctly
}
