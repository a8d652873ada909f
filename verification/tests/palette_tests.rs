use wadlevel::palette::{Flat, Palette, FLAT_SIZE, PALETTE_SIZE};
use wadlevel::picture::decode_picture;
use wadlevel::WadError;

fn test_palette_bytes() -> Vec<u8> {
    // entry i is (i, 255 - i, i / 2)
    let mut buf = Vec::new();
    for i in 0..256usize {
        buf.push(i as u8);
        buf.push((255 - i) as u8);
        buf.push((i / 2) as u8);
    }
    buf
}

#[test]
fn palette_uses_first_768_bytes() {
    let mut buf = test_palette_bytes();
    // a second palette behind the first is ignored
    buf.extend(vec![7u8; PALETTE_SIZE]);
    let p = Palette::from_lump(&buf).expect("palette");
    assert_eq!(p.data.len(), PALETTE_SIZE);
    assert_eq!(p.data[0], 0);
    assert_eq!(p.data[1], 255);
    assert_eq!(p.data[3 * 200], 200);
}

#[test]
fn short_palette_lump_is_missing() {
    let buf = vec![1u8; 100];
    match Palette::from_lump(&buf) {
        Err(WadError::PaletteMissing) => {},
        _ => panic!("expected PaletteMissing"),
    }
}

#[test]
fn flat_maps_every_byte_through_the_palette() {
    let pal = Palette::from_lump(&test_palette_bytes()).expect("palette");
    let mut raw = vec![0u8; FLAT_SIZE];
    raw[0] = 3;
    raw[4095] = 200;
    let flat = Flat::from_lump(&raw);
    let img = flat.get_image(&pal);
    assert_eq!(img.len(), 4 * FLAT_SIZE);
    // pixel 0: palette entry 3, opaque
    assert_eq!(&img[0..4], &[3, 252, 1, 255]);
    // last pixel: palette entry 200
    assert_eq!(&img[4 * 4095..], &[200, 55, 100, 255]);
}

fn tiny_picture() -> Vec<u8> {
    // a 2 x 2 picture: header, two column offsets, two columns of one
    // post each covering both rows
    let mut b = Vec::new();
    b.extend_from_slice(&[2, 0, 2, 0, 0, 0, 0, 0]); // width 2, height 2
    b.extend_from_slice(&[16, 0, 0, 0]); // column 0 offset
    b.extend_from_slice(&[23, 0, 0, 0]); // column 1 offset
    b.extend_from_slice(&[0, 2, 0, 10, 11, 0, 255]); // column 0: rows 0,1 = 10,11
    b.extend_from_slice(&[0, 2, 0, 12, 13, 0, 255]); // column 1: rows 0,1 = 12,13
    b
}

#[test]
fn picture_decodes_columns_into_rows() {
    let pal = Palette::from_lump(&test_palette_bytes()).expect("palette");
    let img = decode_picture(&tiny_picture(), &pal).expect("image");
    assert_eq!(img.width, 2);
    assert_eq!(img.height, 2);
    assert_eq!(img.pixels.len(), 16);
    // row 0: palette entries 10 and 12; row 1: 11 and 13
    assert_eq!(&img.pixels[0..4], &[10, 245, 5, 255]);
    assert_eq!(&img.pixels[4..8], &[12, 243, 6, 255]);
    assert_eq!(&img.pixels[8..12], &[11, 244, 5, 255]);
    assert_eq!(&img.pixels[12..16], &[13, 242, 6, 255]);
}

#[test]
fn picture_partial_column_leaves_transparent_pixels() {
    let pal = Palette::from_lump(&test_palette_bytes()).expect("palette");
    let mut b = Vec::new();
    b.extend_from_slice(&[1, 0, 2, 0, 0, 0, 0, 0]); // width 1, height 2
    b.extend_from_slice(&[12, 0, 0, 0]); // column 0 offset
    b.extend_from_slice(&[1, 1, 0, 77, 0, 255]); // only row 1 written
    let img = decode_picture(&b, &pal).expect("image");
    assert_eq!(&img.pixels[0..4], &[0, 0, 0, 0]); // transparent
    assert_eq!(&img.pixels[4..8], &[77, 178, 38, 255]);
}

#[test]
fn truncated_picture_is_malformed() {
    let pal = Palette::from_lump(&test_palette_bytes()).expect("palette");
    let mut b = tiny_picture();
    b.truncate(20);
    match decode_picture(&b, &pal) {
        Err(WadError::MalformedPatch) => {},
        _ => panic!("expected MalformedPatch"),
    }
    let short = vec![1u8, 0, 1];
    match decode_picture(&short, &pal) {
        Err(WadError::MalformedPatch) => {},
        _ => panic!("expected MalformedPatch"),
    }
}

#[test]
fn post_outside_the_image_is_malformed() {
    let pal = Palette::from_lump(&test_palette_bytes()).expect("palette");
    let mut b = Vec::new();
    b.extend_from_slice(&[1, 0, 1, 0, 0, 0, 0, 0]); // width 1, height 1
    b.extend_from_slice(&[12, 0, 0, 0]);
    b.extend_from_slice(&[1, 1, 0, 5, 0, 255]); // row 1 of a 1-high image
    match decode_picture(&b, &pal) {
        Err(WadError::MalformedPatch) => {},
        _ => panic!("expected MalformedPatch"),
    }
}
