//! Tests of the header codec: the golden sample layout, both round-trip
//! directions, and the error taxonomy.
use hnd::errors::DecodeError;
use hnd::header::hnd_header_t;

/// Writes `bytes` into `buf` at `off`.
fn put(buf: &mut Vec<u8>, off: usize, bytes: &[u8]) {
    for (i, &b) in bytes.iter().enumerate() {
        buf[off + i] = b;
    }
}

/// The golden sample header buffer: known field values at their fixed
/// offsets, everything else zero.
fn golden_buffer() -> Vec<u8> {
    let mut buf = vec![0u8; 1024];
    put(&mut buf, 0, b"VARIAN_VA_INTERNAL_HND_1.0");
    put(&mut buf, 32, &3146752u32.to_le_bytes());
    put(&mut buf, 36, b"CRC-");
    put(&mut buf, 44, b"20190610");
    put(&mut buf, 52, b"120000");
    put(&mut buf, 120, &1024u32.to_le_bytes());
    put(&mut buf, 124, &768u32.to_le_bytes());
    put(
        &mut buf,
        432,
        &(-71.01111111111112f64).to_bits().to_le_bytes(),
    );
    put(&mut buf, 440, &1164.0f64.to_bits().to_le_bytes());
    buf
}

#[test]
fn golden_header_decodes_to_known_values() {
    let header = hnd_header_t::from_raw(golden_buffer()).unwrap();
    assert_eq!(header.sFileType, b"VARIAN_VA_INTERNAL_HND_1.0".to_vec());
    assert_eq!(header.sCreationDate, b"20190610".to_vec());
    assert_eq!(header.FileLength, 3146752);
    assert_eq!(header.SizeX, 1024);
    assert_eq!(header.SizeY, 768);
    assert_eq!(f64::from_bits(header.dCTProjectionAngle), -71.01111111111112);
    assert_eq!(f64::from_bits(header.dCTNormChamber), 1164.0);
}

#[test]
fn golden_header_reencodes_byte_for_byte() {
    let buf = golden_buffer();
    let header = hnd_header_t::from_raw(buf.clone()).unwrap();
    assert_eq!(header.to_raw(), buf);
}

#[test]
fn header_record_round_trips() {
    let mut h = hnd_header_t::new();
    h.sFileType = b"VARIAN_VA_INTERNAL_HND_1.0".to_vec();
    h.FileLength = 3146752;
    h.chasChecksumSpec = b"CRC-".to_vec();
    h.nCheckSum = 0xDEADBEEF;
    h.sCreationDate = b"20190610".to_vec();
    h.sCreationTime = b"23:59:59".to_vec();
    h.sPatientID = b"P-0001".to_vec();
    h.nPatientSer = 17;
    h.sSeriesID = b"S-0002".to_vec();
    h.nSeriesSer = 18;
    h.sSliceID = b"L-0003".to_vec();
    h.nSliceSer = 19;
    h.SizeX = 1024;
    h.SizeY = 768;
    h.dSliceZPos = 12.5f64.to_bits();
    h.sModality = b"XI".to_vec();
    h.nWindow = 400;
    h.nLevel = 40;
    h.nPixelOffset = 1024;
    h.sImageType = b"PROJ".to_vec();
    h.dGantryRtn = (-0.25f64).to_bits();
    h.dCTProjectionAngle = (-71.01111111111112f64).to_bits();
    h.dCTNormChamber = 1164.0f64.to_bits();
    h.dGating4DInfoTime = 0.125f64.to_bits();

    let raw = h.to_raw();
    assert_eq!(raw.len(), 1024);
    let h2 = hnd_header_t::from_raw(raw).unwrap();
    assert_eq!(h2.sFileType, h.sFileType);
    assert_eq!(h2.FileLength, h.FileLength);
    assert_eq!(h2.chasChecksumSpec, h.chasChecksumSpec);
    assert_eq!(h2.nCheckSum, h.nCheckSum);
    assert_eq!(h2.sCreationDate, h.sCreationDate);
    assert_eq!(h2.sCreationTime, h.sCreationTime);
    assert_eq!(h2.sPatientID, h.sPatientID);
    assert_eq!(h2.nPatientSer, h.nPatientSer);
    assert_eq!(h2.sSeriesID, h.sSeriesID);
    assert_eq!(h2.nSeriesSer, h.nSeriesSer);
    assert_eq!(h2.sSliceID, h.sSliceID);
    assert_eq!(h2.nSliceSer, h.nSliceSer);
    assert_eq!(h2.SizeX, h.SizeX);
    assert_eq!(h2.SizeY, h.SizeY);
    assert_eq!(h2.dSliceZPos, h.dSliceZPos);
    assert_eq!(h2.sModality, h.sModality);
    assert_eq!(h2.nWindow, h.nWindow);
    assert_eq!(h2.nLevel, h.nLevel);
    assert_eq!(h2.nPixelOffset, h.nPixelOffset);
    assert_eq!(h2.sImageType, h.sImageType);
    assert_eq!(h2.dGantryRtn, h.dGantryRtn);
    assert_eq!(h2.dCTProjectionAngle, h.dCTProjectionAngle);
    assert_eq!(h2.dCTNormChamber, h.dCTNormChamber);
    assert_eq!(h2.dGating4DInfoTime, h.dGating4DInfoTime);
}

#[test]
fn multibyte_text_survives_the_round_trip() {
    let mut h = hnd_header_t::new();
    h.sPatientID = "Müller".as_bytes().to_vec();
    let raw = h.to_raw();
    let h2 = hnd_header_t::from_raw(raw).unwrap();
    assert_eq!(h2.sPatientID, "Müller".as_bytes().to_vec());
}

#[test]
fn overlong_text_is_truncated_to_its_slot() {
    let mut h = hnd_header_t::new();
    h.sImageType = b"PROJECTION".to_vec();
    let raw = h.to_raw();
    // the slot is 4 bytes wide, at offset 164
    assert_eq!(&raw[164..168], b"PROJ");
    let h2 = hnd_header_t::from_raw(raw).unwrap();
    assert_eq!(h2.sImageType, b"PROJ".to_vec());
}

#[test]
fn truncation_splitting_a_character_fails_to_reparse() {
    // 15 ASCII bytes then a two-byte character: the 16-byte slot keeps
    // only the character's lead byte, which is not well-formed UTF-8.
    let mut h = hnd_header_t::new();
    h.sPatientID = "ABCDEFGHIJKLMNOé".as_bytes().to_vec();
    assert_eq!(h.sPatientID.len(), 17);
    let raw = h.to_raw();
    assert_eq!(raw[60 + 15], 0xC3);
    assert!(matches!(
        hnd_header_t::from_raw(raw),
        Err(DecodeError::InvalidText)
    ));
}

#[test]
fn wrong_buffer_length_is_an_error() {
    assert!(matches!(
        hnd_header_t::from_raw(vec![0u8; 1023]),
        Err(DecodeError::WrongBufferLength)
    ));
    assert!(matches!(
        hnd_header_t::from_raw(vec![0u8; 1025]),
        Err(DecodeError::WrongBufferLength)
    ));
}

#[test]
fn invalid_text_is_an_error() {
    let mut buf = golden_buffer();
    buf[0] = 0xFF;
    assert!(matches!(
        hnd_header_t::from_raw(buf),
        Err(DecodeError::InvalidText)
    ));
}

#[test]
fn default_header_is_all_zero_on_the_wire() {
    let h = hnd_header_t::new();
    let raw = h.to_raw();
    assert_eq!(raw, vec![0u8; 1024]);
}
