use wadlevel::codec::{decode_linedefs, decode_sectors, decode_sidedefs, decode_things,
    decode_verts};

#[test]
fn linedef_from_fourteen_bytes() {
    // one record: start=1, end=2, flags=3, special=4, tag=5, front=6, back=-1
    let buf: Vec<u8> = vec![
        1, 0, 2, 0, 3, 0, 4, 0, 5, 0, 6, 0, 0xff, 0xff,
    ];
    let r = decode_linedefs(&buf);
    assert_eq!(r.len(), 1);
    assert_eq!(r[0].start_vert, 1);
    assert_eq!(r[0].end_vert, 2);
    assert_eq!(r[0].flags, 3);
    assert_eq!(r[0].special_type, 4);
    assert_eq!(r[0].sector_tag, 5);
    assert_eq!(r[0].front_sidedef, 6);
    assert_eq!(r[0].back_sidedef, -1);
}

#[test]
fn linedef_negative_fields_little_endian() {
    // 0x8000 = -32768, 0xff7f = 0x7fff = 32767
    let buf: Vec<u8> = vec![
        0x00, 0x80, 0xff, 0x7f, 0xfe, 0xff, 0, 0, 0, 0, 0, 0, 0, 0,
    ];
    let r = decode_linedefs(&buf);
    assert_eq!(r.len(), 1);
    assert_eq!(r[0].start_vert, -32768);
    assert_eq!(r[0].end_vert, 32767);
    assert_eq!(r[0].flags, -2);
}

#[test]
fn partial_trailing_record_is_dropped() {
    let mut buf: Vec<u8> = vec![0; 14];
    buf.extend_from_slice(&[9, 0, 9, 0, 9]);
    let r = decode_linedefs(&buf);
    assert_eq!(r.len(), 1);
}

#[test]
fn things_decode() {
    let buf: Vec<u8> = vec![10, 0, 20, 0, 90, 0, 1, 0, 7, 0];
    let r = decode_things(&buf);
    assert_eq!(r.len(), 1);
    assert_eq!(r[0].x, 10);
    assert_eq!(r[0].y, 20);
    assert_eq!(r[0].angle, 90);
    assert_eq!(r[0].thing_type, 1);
    assert_eq!(r[0].flags, 7);
}

#[test]
fn verts_decode() {
    let buf: Vec<u8> = vec![5, 0, 0xfb, 0xff, 100, 0, 200, 0];
    let r = decode_verts(&buf);
    assert_eq!(r.len(), 2);
    assert_eq!(r[0].x, 5);
    assert_eq!(r[0].y, -5);
    assert_eq!(r[1].x, 100);
    assert_eq!(r[1].y, 200);
}

#[test]
fn sector_decode_names_and_fields() {
    let mut buf: Vec<u8> = Vec::new();
    buf.extend_from_slice(&[0, 0]); // floor 0
    buf.extend_from_slice(&[128, 0]); // ceil 128
    buf.extend_from_slice(b"FLOOR4_8"); // floor tex
    buf.extend_from_slice(b"CEIL3_5\0"); // ceil tex
    buf.extend_from_slice(&[255, 0]); // light
    buf.extend_from_slice(&[0, 0]); // special
    buf.extend_from_slice(&[9, 0]); // tag
    let r = decode_sectors(&buf);
    assert_eq!(r.len(), 1);
    assert_eq!(r[0].floor_height, 0);
    assert_eq!(r[0].ceil_height, 128);
    assert_eq!(r[0].floor_tex, b"FLOOR4_8".to_vec());
    assert_eq!(r[0].ceil_tex, b"CEIL3_5\0".to_vec());
    assert_eq!(r[0].light_level, 255);
    assert_eq!(r[0].special, 0);
    assert_eq!(r[0].tag, 9);
    assert!(r[0].linedefs.is_empty());
}

#[test]
fn sidedef_decode() {
    let mut buf: Vec<u8> = Vec::new();
    buf.extend_from_slice(&[16, 0]); // x off
    buf.extend_from_slice(&[0xf0, 0xff]); // y off = -16
    buf.extend_from_slice(b"UPPER\0\0\0");
    buf.extend_from_slice(b"LOWER\0\0\0");
    buf.extend_from_slice(b"-\0\0\0\0\0\0\0");
    buf.extend_from_slice(&[2, 0]); // sector
    let r = decode_sidedefs(&buf);
    assert_eq!(r.len(), 1);
    assert_eq!(r[0].x_off, 16);
    assert_eq!(r[0].y_off, -16);
    assert_eq!(r[0].upper_tex, b"UPPER\0\0\0".to_vec());
    assert_eq!(r[0].lower_tex, b"LOWER\0\0\0".to_vec());
    assert_eq!(r[0].mid_tex, b"-\0\0\0\0\0\0\0".to_vec());
    assert_eq!(r[0].sector, 2);
}

#[test]
fn empty_buffer_gives_no_records() {
    let buf: Vec<u8> = Vec::new();
    assert_eq!(decode_linedefs(&buf).len(), 0);
    assert_eq!(decode_things(&buf).len(), 0);
    assert_eq!(decode_verts(&buf).len(), 0);
}
