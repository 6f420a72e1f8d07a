use ironrdp::graphics::zgfx::{
    compress_and_wrap_egfx, wrap_uncompressed, CompressionMode, Compressor, Decompressor,
};
use rdpweb::zgfx::{measure, OUTPUT_LIMIT, WINDOW};

/// A single compressed segment with the bits of `text`.
fn tokens(text: &str) -> Vec<u8> {
    let bits: Vec<char> = text.chars().filter(|c| *c == '0' || *c == '1').collect();
    let mut payload = vec![0xe0, 0x24];
    for byte in bits.chunks(8) {
        let mut value = 0;
        for place in 0..8 {
            value = value * 2 + u8::from(byte.get(place) == Some(&'1'));
        }
        payload.push(value);
    }
    payload.push(((8 - bits.len() % 8) % 8) as u8);
    payload
}

fn unfolded(payload: &[u8]) -> Result<Vec<u8>, String> {
    let mut output = Vec::new();
    match Decompressor::new().decompress(payload, &mut output) {
        Ok(_) => Ok(output),
        Err(error) => Err(error.to_string()),
    }
}

/// What both the measure and the decompressor say of a payload that has a shape.
fn check(payload: &[u8], expected: &[u8]) {
    assert_eq!(measure(payload, 0), Some(expected.len() as u64));
    assert_eq!(unfolded(payload), Ok(expected.to_vec()));
}

#[test]
fn plain_segments_are_measured() {
    check(&[0xe0, 0x04], &[]);
    check(&[0xe0, 0x04, 1, 2, 3], &[1, 2, 3]);
    check(&[0xe0, 0x24], &[]);
    check(&[0xe0, 0x24, 0], &[]);
    let long: Vec<u8> = (0..200_000).map(|i: usize| i as u8).collect();
    check(&wrap_uncompressed(&long), &long);
}

#[test]
fn broken_headers_have_no_shape() {
    for payload in [
        &[][..],
        &[0xe0],
        &[0xe2, 0x04],
        &[0xe0, 0x05],
        &[0xe1],
        &[0xe1, 1, 0, 0, 0, 0],
        &[0xe1, 1, 0, 0, 0, 0, 0],
        &[0xe1, 1, 0, 1, 0, 0, 0, 9, 0, 0, 0, 4, 1],
        &[0xe1, 1, 0, 1, 0, 0, 0, 2, 0, 0, 0, 5, 1],
        &[0xe1, 1, 0, 1, 0, 0, 0, 0, 0, 0, 0],
    ] {
        assert_eq!(measure(payload, 0), None, "{payload:?}");
    }
}

#[test]
fn lists_of_segments_are_measured() {
    check(&[0xe1, 0, 0, 0, 0, 0, 0], &[]);
    check(&[0xe1, 2, 0, 3, 0, 0, 0, 2, 0, 0, 0, 4, 7, 3, 0, 0, 0, 4, 8, 9], &[7, 8, 9]);
    let wrong_size = [0xe1, 1, 0, 9, 0, 0, 0, 2, 0, 0, 0, 4, 7];
    assert_eq!(measure(&wrong_size, 0), Some(1));
    assert!(unfolded(&wrong_size).is_err());
}

#[test]
fn tokens_are_measured() {
    check(&tokens("0 01000001"), b"A");
    check(&tokens("11000 11001 110100 110101 110110"), &[0, 1, 2, 3, 0xff]);
    check(&tokens("1101110 1101111 1110000 1111101"), &[4, 5, 6, 0x80]);
    check(&tokens("11111100 11111101 11111110 11111111"), &[0x0c, 0x38, 0x39, 0x66]);
    check(&tokens("0 01000001 10001 00001 0"), b"AAAA");
    check(&tokens("0 01000001 10001 00001 10 01"), &[b'A'; 6]);
    check(&tokens("0 01000001 10001 00001 110 111"), &[b'A'; 16]);
    check(&tokens("10001 00000 000000000000010 0000000 01000001 01000010"), b"AB");
}

#[test]
fn unfinished_tokens_have_no_shape() {
    for text in [
        "0",
        "0 0100000",
        "1",
        "1100",
        "11010",
        "110111",
        "1111111",
        "10001",
        "1000100",
        "10000 000",
        "10001 0000",
        "10111110",
        "0 01000001 10001 00001",
        "0 01000001 10001 00001 1",
        "0 01000001 10001 00001 10 0",
        "10001 00000 00000000000001",
        "10001 00000 000000000000001 0000000 0100000",
    ] {
        assert_eq!(measure(&tokens(text), 0), None, "{text}");
    }
    assert_eq!(measure(&[0xe0, 0x24, 9], 0), None);
    assert_eq!(measure(&[0xe0, 0x24, 0x55, 9], 0), None);
}

#[test]
fn unknown_prefixes_end_the_payload() {
    let payload = tokens("11000 10000 0000 11001");
    assert_eq!(measure(&payload, 0), Some(1));
    assert!(unfolded(&payload).is_err());
    assert_eq!(measure(&tokens("101111111"), 0), Some(0));
}

#[test]
fn copies_stay_within_the_window() {
    let copy = |distance: u32| format!("10111101 {:021b} 0", distance - 2_414_240);
    let at_most = copy(2_500_000);
    let too_far = copy(2_500_001);
    check(&tokens(&at_most), &[0, 0, 0]);
    assert_eq!(measure(&tokens(&too_far), 0), None);
    assert_eq!(measure(&tokens(&too_far), 1), Some(3));
    let mut decompressor = Decompressor::new();
    let mut output = Vec::new();
    assert!(decompressor.decompress(&[0xe0, 0x04, 7], &mut output).is_ok());
    output.clear();
    assert!(decompressor.decompress(&tokens(&too_far), &mut output).is_ok());
    assert_eq!(output.len(), 3);
}

#[test]
fn output_is_limited() {
    let ones = |count: usize| "1".repeat(count);
    let zeros = |count: usize| "0".repeat(count);
    assert_eq!(OUTPUT_LIMIT, isize::MAX as u64 / 2);
    let copy = format!("0 01000001 10001 00001 {} 0 {}", ones(28), zeros(29));
    assert_eq!(measure(&tokens(&copy), 0), Some(1 + (1 << 29)));
    let bits = (OUTPUT_LIMIT + 1).trailing_zeros() as usize;
    let largest = format!("10001 00001 {} 0 {}", ones(bits - 2), ones(bits - 1));
    assert_eq!(measure(&tokens(&largest), 0), Some(OUTPUT_LIMIT));
    assert_eq!(measure(&tokens(&format!("0 01000001 {largest}")), 0), None);
    let larger = format!("10001 00001 {} 0 {}", ones(bits - 1), zeros(bits));
    assert_eq!(measure(&tokens(&larger), 0), None);
}

#[test]
fn compressed_data_is_measured_across_payloads() {
    let mut compressor = Compressor::new();
    let mut decompressor = Decompressor::new();
    let mut position = 0u64;
    for round in 0..40usize {
        let data: Vec<u8> = (0..9_000)
            .map(|i: usize| ((i * i + round) / 7 % 19) as u8 ^ (i / 1000) as u8)
            .collect();
        let mode = if round % 3 == 0 { CompressionMode::Auto } else { CompressionMode::Always };
        let payload = match compress_and_wrap_egfx(&data, &mut compressor, mode) {
            Ok(payload) => payload,
            Err(error) => panic!("{error}"),
        };
        assert_eq!(measure(&payload, position), Some(data.len() as u64));
        let mut output = Vec::new();
        assert!(decompressor.decompress(&payload, &mut output).is_ok());
        assert_eq!(output, data);
        position = (position + data.len() as u64) % WINDOW;
    }
}

#[test]
fn what_has_a_shape_is_unfolded() {
    let mut seed = 0x1234_5678_9abc_def1u64;
    let mut next = move || {
        seed ^= seed << 13;
        seed ^= seed >> 7;
        seed ^= seed << 17;
        seed
    };
    let mut decompressor = Decompressor::new();
    let mut position = 0u64;
    let mut shaped = 0;
    for _ in 0..60_000 {
        let length = next() % 24;
        let mut payload = vec![0xe0, 0x24];
        for _ in 0..length {
            // Fewer ones make fewer copies of absurd lengths.
            payload.push((next() & next()) as u8);
        }
        payload.push((next() % 10) as u8);
        match measure(&payload, position) {
            Some(written) if written < 1_000_000 => {
                shaped += 1;
                let mut output = Vec::new();
                let outcome = decompressor.decompress(&payload, &mut output);
                assert_eq!(output.len() as u64, written);
                if let Ok(count) = outcome {
                    assert_eq!(count as u64, written);
                }
                position = (position + written) % WINDOW;
            }
            _ => {}
        }
    }
    assert!(shaped > 5_000, "{shaped}");
}
