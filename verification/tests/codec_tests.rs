//! Tests of the pixel codec: round trips, fixed vectors, lookup-table
//! geometry, residual width selection and the error taxonomy.
use hnd::codec::{compress_data_impl, decode, encode_u16, encode_u32};
use hnd::errors::{DecodeError, EncodeError};

#[test]
fn it_works() {
    assert_eq!(2 + 2, 4);
}

#[test]
fn test_read_raw_16() {}

/// Little-endian literal bytes of a u32, for building payloads by hand.
fn le4(v: u32) -> Vec<u8> {
    vec![
        (v & 0xFF) as u8,
        ((v >> 8) & 0xFF) as u8,
        ((v >> 16) & 0xFF) as u8,
        ((v >> 24) & 0xFF) as u8,
    ]
}

/// A 4x3 grid whose residuals use both 1- and 2-byte widths, and the
/// payload it must encode to, byte for byte.
fn sample_4x3() -> (Vec<u32>, Vec<u8>) {
    let grid: Vec<u32> = vec![10, 12, 11, 13, 10, 1000, 11, 9, 500, 20, 20, 20];
    // codes: [1,1,0,1,1,1,0] packed as 69, 5
    let mut payload: Vec<u8> = vec![69, 5];
    for &v in &[10u32, 12, 11, 13, 10] {
        payload.extend(le4(v));
    }
    // residuals: 988, -988, -4, 494, -1470, 989, 2
    payload.extend([0xDC, 0x03]);
    payload.extend([0x24, 0xFC]);
    payload.extend([0xFC]);
    payload.extend([0xEE, 0x01]);
    payload.extend([0x42, 0xFA]);
    payload.extend([0xDD, 0x03]);
    payload.extend([0x02]);
    (grid, payload)
}

#[test]
fn encode_matches_fixed_vector() {
    let (grid, payload) = sample_4x3();
    let encoded = encode_u32(&grid, 4, 3).unwrap();
    assert_eq!(encoded, payload);
}

#[test]
fn decode_matches_fixed_vector() {
    let (grid, payload) = sample_4x3();
    let decoded = decode(&payload, 4, 3).unwrap();
    assert_eq!(decoded, grid);
}

#[test]
fn decode_ignores_trailing_bytes() {
    let (grid, mut payload) = sample_4x3();
    payload.push(0xAB);
    payload.push(0xCD);
    let decoded = decode(&payload, 4, 3).unwrap();
    assert_eq!(decoded, grid);
}

#[test]
fn pixel_round_trip_u32() {
    let width = 6;
    let height = 5;
    let mut grid: Vec<u32> = Vec::new();
    for i in 0..(width * height) as u32 {
        grid.push((i * 7919) % 100_000 + (i % 3) * 40_000);
    }
    let encoded = encode_u32(&grid, width, height).unwrap();
    let decoded = decode(&encoded, width, height).unwrap();
    assert_eq!(decoded, grid);
}

#[test]
fn pixel_round_trip_u16() {
    let width = 4;
    let height = 4;
    let mut grid: Vec<u16> = Vec::new();
    for i in 0..(width * height) as u16 {
        grid.push(i.wrapping_mul(2741));
    }
    let encoded = encode_u16(&grid, width, height).unwrap();
    let decoded = decode(&encoded, width, height).unwrap();
    let widened: Vec<u32> = grid.iter().map(|&x| x as u32).collect();
    assert_eq!(decoded, widened);
}

#[test]
fn encode_u16_widens_like_u32() {
    let grid16: Vec<u16> = vec![7, 65535, 0, 300, 9, 9, 1, 2, 1000, 4];
    let grid32: Vec<u32> = grid16.iter().map(|&x| x as u32).collect();
    let a = encode_u16(&grid16, 5, 2).unwrap();
    let b = encode_u32(&grid32, 5, 2).unwrap();
    assert_eq!(a, b);
}

#[test]
fn lut_size_uses_floor_division() {
    // w * (h - 1) == 5: not divisible by 4, floor gives a 1-byte table
    // holding the 4 codes.
    let grid: Vec<u32> = vec![0; 10];
    let encoded = encode_u32(&grid, 5, 2).unwrap();
    // 1 LUT byte + 6 literals of 4 bytes + 4 one-byte residuals
    assert_eq!(encoded.len(), 1 + 24 + 4);
    assert_eq!(encoded[0], 0);
    assert_eq!(decode(&encoded, 5, 2).unwrap(), grid);

    // w * (h - 1) == 4: exactly one byte, three codes used.
    let grid: Vec<u32> = vec![0; 8];
    let encoded = encode_u32(&grid, 4, 2).unwrap();
    assert_eq!(encoded.len(), 1 + 20 + 3);
    assert_eq!(decode(&encoded, 4, 2).unwrap(), grid);

    // w * (h - 1) == 8: two bytes, seven codes used.
    let grid: Vec<u32> = vec![1; 12];
    let encoded = encode_u32(&grid, 4, 3).unwrap();
    assert_eq!(encoded.len(), 2 + 20 + 7);
}

#[test]
fn lut_capacity_short_dimensions_are_rejected() {
    // w * (h - 1) is 2 or 3 modulo 4: the floor-sized table cannot hold
    // one code per predicted pixel.
    let grid: Vec<u32> = vec![0; 4];
    assert_eq!(encode_u32(&grid, 2, 2), Err(EncodeError::InvalidDims));
    let grid: Vec<u32> = vec![0; 6];
    assert_eq!(encode_u32(&grid, 3, 2), Err(EncodeError::InvalidDims));
    assert_eq!(decode(&vec![0u8; 64], 2, 2), Err(DecodeError::InvalidDims));
    assert_eq!(decode(&vec![0u8; 64], 3, 2), Err(DecodeError::InvalidDims));
}

#[test]
fn zero_and_one_dimensions_are_rejected() {
    let grid: Vec<u32> = vec![0; 4];
    assert_eq!(encode_u32(&grid, 0, 4), Err(EncodeError::InvalidDims));
    assert_eq!(encode_u32(&grid, 4, 1), Err(EncodeError::InvalidDims));
    assert_eq!(decode(&vec![0u8; 64], 0, 4), Err(DecodeError::InvalidDims));
    assert_eq!(decode(&vec![0u8; 64], 4, 1), Err(DecodeError::InvalidDims));
}

#[test]
fn grid_length_mismatch_is_rejected() {
    let grid: Vec<u32> = vec![0; 9];
    assert_eq!(encode_u32(&grid, 4, 2), Err(EncodeError::InvalidDims));
    let grid16: Vec<u16> = vec![0; 7];
    assert_eq!(encode_u16(&grid16, 4, 2), Err(EncodeError::InvalidDims));
}

#[test]
fn residual_width_is_minimal() {
    // Each call packs into a fresh one-byte lookup table at slot 0; the
    // appended residual shows the chosen width.
    let cases: [(i64, usize, u8); 8] = [
        (127, 1, 0),
        (-128, 1, 0),
        (128, 2, 1),
        (-129, 2, 1),
        (32767, 2, 1),
        (-32768, 2, 1),
        (32768, 4, 2),
        (-32769, 4, 2),
    ];
    for &(diff, nbytes, code) in cases.iter() {
        let mut data: Vec<u8> = vec![0];
        let mut lut_off: usize = 0;
        let mut lut_idx: usize = 0;
        compress_data_impl(&mut data, diff, &mut lut_off, &mut lut_idx);
        assert_eq!(data.len(), 1 + nbytes, "width for diff {}", diff);
        assert_eq!(data[0], code, "code for diff {}", diff);
        assert_eq!(lut_off, 1);
        assert_eq!(lut_idx, 0);
    }
}

#[test]
fn lut_codes_pack_low_pair_first() {
    let mut data: Vec<u8> = vec![0];
    let mut lut_off: usize = 0;
    let mut lut_idx: usize = 0;
    // codes 1, 2, 0, 1 -> 1 + 2*4 + 0*16 + 1*64 == 73
    compress_data_impl(&mut data, 1000, &mut lut_off, &mut lut_idx);
    compress_data_impl(&mut data, 100_000, &mut lut_off, &mut lut_idx);
    compress_data_impl(&mut data, -3, &mut lut_off, &mut lut_idx);
    compress_data_impl(&mut data, -1000, &mut lut_off, &mut lut_idx);
    assert_eq!(data[0], 73);
    assert_eq!(lut_off, 0);
    assert_eq!(lut_idx, 1);
}

#[test]
fn truncated_residual_stream_is_an_error() {
    let (_, payload) = sample_4x3();
    let short = payload[..payload.len() - 1].to_vec();
    assert_eq!(decode(&short, 4, 3), Err(DecodeError::Truncated));
}

#[test]
fn truncated_literal_region_is_an_error() {
    let (_, payload) = sample_4x3();
    let short = payload[..10].to_vec();
    assert_eq!(decode(&short, 4, 3), Err(DecodeError::Truncated));
}

#[test]
fn reserved_lut_code_is_an_error() {
    let (_, mut payload) = sample_4x3();
    payload[0] = 3;
    assert_eq!(decode(&payload, 4, 3), Err(DecodeError::InvalidLutCode));
}

#[test]
fn negative_pixel_is_an_error() {
    // 2x3 zero literals, then a residual of -1: the first predicted
    // pixel would be negative.
    let mut payload: Vec<u8> = vec![0];
    payload.extend(vec![0u8; 12]);
    payload.extend([0xFF, 0x00, 0x00]);
    assert_eq!(decode(&payload, 2, 3), Err(DecodeError::PixelOutOfRange));
}

#[test]
fn pixel_round_trip_at_reference_dimensions() {
    // The dimensions of the reference projection images.
    let width = 1024;
    let height = 768;
    let mut grid: Vec<u32> = Vec::with_capacity(width * height);
    let mut x: u32 = 0x2545_F491;
    for _ in 0..(width * height) {
        // xorshift keeps the samples irregular across all residual widths
        x ^= x << 13;
        x ^= x >> 17;
        x ^= x << 5;
        grid.push(x % 70_000);
    }
    let encoded = encode_u32(&grid, width, height).unwrap();
    let decoded = decode(&encoded, width, height).unwrap();
    assert_eq!(decoded, grid);
}

#[test]
fn residual_overflow_is_an_error() {
    let grid: Vec<u32> = vec![0, 0, 0, u32::MAX, 0, 0];
    assert_eq!(encode_u32(&grid, 2, 3), Err(EncodeError::ResidualOverflow));
}
