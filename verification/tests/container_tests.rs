//! Tests of the byte cursor and the container types.
use hnd::cursor::Buf;
use hnd::image::{hnd_t, HndImage, RawImage, Size2D};
use hnd::header::hnd_header_t;
use hnd::errors::DecodeError;

#[test]
fn cursor_round_trips_typed_values() {
    let mut w = Buf::new();
    w.write_string(&b"HND".to_vec(), 8);
    w.write_u32(0xCAFEBABE);
    w.write_f64_bits(2.5f64.to_bits());
    let data = w.data;
    assert_eq!(data.len(), 8 + 4 + 8);

    let mut r = Buf::from(data);
    assert_eq!(r.read_string(8).unwrap(), b"HND".to_vec());
    assert_eq!(r.read_u32(), 0xCAFEBABE);
    assert_eq!(f64::from_bits(r.read_f64_bits()), 2.5);
    assert_eq!(r.pos, 20);
}

#[test]
fn cursor_rejects_invalid_text() {
    let mut r = Buf::from(vec![0xC3, 0x28, 0, 0]);
    assert!(matches!(r.read_string(4), Err(DecodeError::InvalidText)));
}

#[test]
fn cursor_reads_little_endian() {
    let mut r = Buf::from(vec![0x01, 0x02, 0x03, 0x04]);
    assert_eq!(r.read_u32(), 0x04030201);
}

#[test]
fn hnd_image_decodes_through_its_header() {
    let mut header = hnd_header_t::new();
    header.SizeX = 5;
    header.SizeY = 2;
    let grid: Vec<u32> = vec![3, 1, 4, 1, 5, 9, 2, 6, 5, 3];
    let payload = hnd::codec::encode_u32(&grid, 5, 2).unwrap();
    let img = HndImage { header, data: payload };
    assert_eq!(img.width(), 5);
    assert_eq!(img.height(), 2);
    let raw: RawImage<u32> = img.to_raw_image().unwrap();
    assert_eq!(raw.width(), 5);
    assert_eq!(raw.height(), 2);
    assert_eq!(raw.data, grid);
}

#[test]
fn hnd_container_serialises_header_then_payload() {
    let container = hnd_t::from_raw(vec![0xAA, 0xBB], 640, 480);
    assert_eq!(container.width(), 640);
    assert_eq!(container.height(), 480);
    let wire = container.to_raw();
    assert_eq!(wire.len(), 1026);
    assert_eq!(&wire[120..124], &640u32.to_le_bytes());
    assert_eq!(&wire[124..128], &480u32.to_le_bytes());
    assert_eq!(&wire[1024..], &[0xAA, 0xBB]);
}

#[test]
fn hnd_container_new_keeps_its_parts() {
    let mut header = hnd_header_t::new();
    header.SizeX = 2;
    header.SizeY = 3;
    let c = hnd_t::new(header, vec![1, 2, 3]);
    assert_eq!(c.width(), 2);
    assert_eq!(c.height(), 3);
    assert_eq!(c.data, vec![1, 2, 3]);
}
