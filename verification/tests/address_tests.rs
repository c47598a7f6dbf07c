use ermis_call_node_wasm::address::{decode_endpoint_addr, encode_endpoint_addr, AddrError};

#[test]
fn encode_known_text() {
    assert_eq!(encode_endpoint_addr(b"hello world~"), "aGVsbG8gd29ybGR+");
    assert_eq!(encode_endpoint_addr(b""), "");
    assert_eq!(encode_endpoint_addr(&[0xff, 0x00]), "/wA=");
}

#[test]
fn decode_known_text() {
    assert_eq!(decode_endpoint_addr("aGVsbG8gd29ybGR+Cg=="), Ok(b"hello world~\n".to_vec()));
}

#[test]
fn address_round_trip() {
    let samples: Vec<Vec<u8>> = vec![vec![], vec![1], vec![1, 2], vec![1, 2, 3], (0u8..=255).collect()];
    for bytes in samples {
        let text = encode_endpoint_addr(&bytes);
        assert_eq!(decode_endpoint_addr(&text), Ok(bytes));
    }
}

#[test]
fn decode_rejects_invalid_text() {
    assert_eq!(decode_endpoint_addr("not base64!"), Err(AddrError::InvalidBase64));
    assert_eq!(decode_endpoint_addr("abc"), Err(AddrError::InvalidBase64));
    assert_eq!(decode_endpoint_addr("/wA"), Err(AddrError::InvalidBase64));
    assert_eq!(decode_endpoint_addr("/wB="), Err(AddrError::InvalidBase64));
}

#[test]
fn encoded_text_shape() {
    for n in 0..20usize {
        let bytes: Vec<u8> = (0..n).map(|i| (i * 37 + 200) as u8).collect();
        let text = encode_endpoint_addr(&bytes);
        assert_eq!(text.len() % 4, 0);
        assert!(text.chars().all(|c| c.is_ascii_alphanumeric() || c == '+' || c == '/' || c == '='));
        assert!(!text.trim_end_matches('=').contains('='));
    }
}

#[test]
fn decode_rejects_foreign_symbols() {
    assert_eq!(decode_endpoint_addr("%%%%"), Err(AddrError::InvalidBase64));
    assert_eq!(decode_endpoint_addr("aGk=\n"), Err(AddrError::InvalidBase64));
}
