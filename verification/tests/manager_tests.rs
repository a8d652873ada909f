use wadlevel::archive::{Archive, Lump};
use wadlevel::assembler::{decode_pnames, decode_texture_entry, MapManager};
use wadlevel::WadError;

fn lump(name: &str, bytes: Vec<u8>) -> Lump {
    Lump { name: name.as_bytes().to_vec(), bytes, is_flat: false }
}

fn flat_lump(name: &str, bytes: Vec<u8>) -> Lump {
    Lump { name: name.as_bytes().to_vec(), bytes, is_flat: true }
}

fn palette_bytes() -> Vec<u8> {
    let mut buf = Vec::new();
    for i in 0..256usize {
        buf.push(i as u8);
        buf.push((255 - i) as u8);
        buf.push((i / 2) as u8);
    }
    buf
}

fn tiny_picture() -> Vec<u8> {
    let mut b = Vec::new();
    b.extend_from_slice(&[2, 0, 2, 0, 0, 0, 0, 0]);
    b.extend_from_slice(&[16, 0, 0, 0]);
    b.extend_from_slice(&[23, 0, 0, 0]);
    b.extend_from_slice(&[0, 2, 0, 10, 11, 0, 255]);
    b.extend_from_slice(&[0, 2, 0, 12, 13, 0, 255]);
    b
}

fn pnames_bytes() -> Vec<u8> {
    // count 2: one 8-byte name at offset 4
    let mut b = vec![2, 0, 0, 0];
    b.extend_from_slice(b"PAT1\0\0\0\0");
    b
}

fn texture1_bytes() -> Vec<u8> {
    // count 2: one offset at byte 4 pointing to the entry at byte 8
    let mut b = vec![2, 0, 0, 0];
    b.extend_from_slice(&[8, 0, 0, 0]);
    b.extend_from_slice(b"TEX1\0\0\0\0"); // name
    b.extend_from_slice(&[0, 0, 0, 0]); // masked flag, unused
    b.extend_from_slice(&[2, 0]); // width
    b.extend_from_slice(&[2, 0]); // height
    b.extend_from_slice(&[0, 0, 0, 0]); // column directory, unused
    b.extend_from_slice(&[1, 0]); // patch count
    b.extend_from_slice(&[0, 0, 0, 0, 0, 0, 0, 0, 0, 0]); // one patch record
    b
}

fn geometry_lumps() -> Vec<(String, Vec<u8>)> {
    // a 64 x 64 one-sector square room
    let verts: Vec<u8> = vec![
        0, 0, 0, 0, // (0, 0)
        64, 0, 0, 0, // (64, 0)
        64, 0, 64, 0, // (64, 64)
        0, 0, 64, 0, // (0, 64)
    ];
    let mut linedefs = Vec::new();
    for (s, e) in [(0i16, 1i16), (1, 2), (2, 3), (3, 0)] {
        linedefs.extend_from_slice(&s.to_le_bytes());
        linedefs.extend_from_slice(&e.to_le_bytes());
        linedefs.extend_from_slice(&[0, 0, 0, 0, 0, 0]); // flags, special, tag
        linedefs.extend_from_slice(&[0, 0]); // front sidedef 0
        linedefs.extend_from_slice(&[0xff, 0xff]); // no back sidedef
    }
    let mut sidedefs = Vec::new();
    sidedefs.extend_from_slice(&[0, 0, 0, 0]); // offsets
    sidedefs.extend_from_slice(b"-\0\0\0\0\0\0\0");
    sidedefs.extend_from_slice(b"-\0\0\0\0\0\0\0");
    sidedefs.extend_from_slice(b"TEX1\0\0\0\0");
    sidedefs.extend_from_slice(&[0, 0]); // sector 0
    let mut sectors = Vec::new();
    sectors.extend_from_slice(&[0, 0, 128, 0]); // floor 0, ceiling 128
    sectors.extend_from_slice(b"FLT1\0\0\0\0");
    sectors.extend_from_slice(b"FLT1\0\0\0\0");
    sectors.extend_from_slice(&[160, 0, 0, 0, 0, 0]); // light, special, tag
    let things: Vec<u8> = vec![0, 0, 0, 0, 0, 0, 1, 0, 7, 0];
    vec![
        ("THINGS".to_string(), things),
        ("LINEDEFS".to_string(), linedefs),
        ("VERTEXES".to_string(), verts),
        ("SECTORS".to_string(), sectors),
        ("SIDEDEFS".to_string(), sidedefs),
    ]
}

fn test_wad() -> Archive {
    let mut lumps = Vec::new();
    for (name, bytes) in geometry_lumps() {
        lumps.push(lump(&name, bytes));
    }
    lumps.push(lump("PLAYPAL", palette_bytes()));
    lumps.push(lump("PNAMES", pnames_bytes()));
    lumps.push(lump("TEXTURE1", texture1_bytes()));
    lumps.push(lump("PAT1", tiny_picture()));
    lumps.push(flat_lump("FLT1", vec![3u8; 4096]));
    Archive { lumps }
}

#[test]
fn new_assembles_and_links_the_model() {
    let m = MapManager::new(vec![test_wad()], 0).expect("manager");
    assert_eq!(m.map.things_vec.len(), 1);
    assert_eq!(m.map.linedef_vec.len(), 4);
    assert_eq!(m.map.vert_vec.len(), 4);
    assert_eq!(m.map.sector_vec.len(), 1);
    assert_eq!(m.map.sidefef_vec.len(), 1);
    // the linking pass put all four linedefs into the one sector
    assert_eq!(m.map.sector_vec[0].linedefs, vec![0, 1, 2, 3]);
    // the patch-name and texture tables
    assert_eq!(m.map.pnames.len(), 1);
    assert_eq!(m.map.pnames[0], vec![b"PAT1\0\0\0\0".to_vec()]);
    assert_eq!(m.map.texture_defs.len(), 1);
    assert_eq!(m.map.texture_defs[0].0, b"TEX1".to_vec());
    assert_eq!(m.map.texture_defs[0].1.width, 2);
    assert_eq!(m.map.texture_defs[0].1.height, 2);
    assert_eq!(m.map.texture_defs[0].1.patches.len(), 1);
}

#[test]
fn missing_core_lump_fails_the_load() {
    let mut wad = test_wad();
    wad.lumps.retain(|l| l.name != b"LINEDEFS".to_vec());
    match MapManager::new(vec![wad], 0) {
        Err(WadError::MissingLump) => {},
        _ => panic!("expected MissingLump"),
    }
}

#[test]
fn empty_core_lump_fails_the_load() {
    let mut wad = test_wad();
    for l in wad.lumps.iter_mut() {
        if l.name == b"SECTORS".to_vec() {
            l.bytes = Vec::new();
        }
    }
    match MapManager::new(vec![wad], 0) {
        Err(WadError::EmptyLump) => {},
        _ => panic!("expected EmptyLump"),
    }
}

#[test]
fn missing_palette_fails_the_load() {
    let mut wad = test_wad();
    wad.lumps.retain(|l| l.name != b"PLAYPAL".to_vec());
    match MapManager::new(vec![wad], 0) {
        Err(WadError::PaletteMissing) => {},
        _ => panic!("expected PaletteMissing"),
    }
}

#[test]
fn map_index_suffixes_the_lump_names() {
    let mut wad = test_wad();
    for l in wad.lumps.iter_mut() {
        if !(l.name == b"PLAYPAL".to_vec() || l.name == b"PNAMES".to_vec()
            || l.name == b"TEXTURE1".to_vec() || l.name == b"PAT1".to_vec()
            || l.name == b"FLT1".to_vec())
        {
            l.name.extend_from_slice(b"2");
        }
    }
    assert!(MapManager::new(vec![test_wad()], 2).is_err());
    assert!(MapManager::new(vec![wad], 2).is_ok());
}

#[test]
fn unknown_texture_resolution_fails() {
    let mut m = MapManager::new(vec![test_wad()], 0).expect("manager");
    let name = b"NOWHERE\0".to_vec();
    match m.get_texture(&name) {
        Err(WadError::UnknownTexture) => {},
        _ => panic!("expected UnknownTexture"),
    }
}

#[test]
fn second_resolution_is_served_from_the_cache() {
    let mut m = MapManager::new(vec![test_wad()], 0).expect("manager");
    let name = b"PAT1\0\0\0\0".to_vec();
    let i1 = m.get_texture(&name).expect("first resolution");
    let decodes_after_first = m.decode_count;
    assert!(decodes_after_first >= 1);
    let pixels_first = m.mat_cache[i1].1.pixels.clone();
    let i2 = m.get_texture(&name).expect("second resolution");
    // pixel-identical cached result, with no further decoder call
    assert_eq!(i1, i2);
    assert_eq!(m.decode_count, decodes_after_first);
    assert_eq!(m.mat_cache[i2].1.pixels, pixels_first);
}

#[test]
fn composite_texture_is_stamped_from_its_patch() {
    let mut m = MapManager::new(vec![test_wad()], 0).expect("manager");
    let name = b"TEX1\0\0\0\0".to_vec();
    let i = m.get_texture(&name).expect("composite");
    let img = &m.mat_cache[i].1;
    assert_eq!(img.width, 2);
    assert_eq!(img.height, 2);
    // the 2 x 2 canvas is exactly the decoded patch
    assert_eq!(&img.pixels[0..4], &[10, 245, 5, 255]);
    assert_eq!(&img.pixels[4..8], &[12, 243, 6, 255]);
    assert_eq!(&img.pixels[8..12], &[11, 244, 5, 255]);
    assert_eq!(&img.pixels[12..16], &[13, 242, 6, 255]);
}

fn layered_texture1_bytes() -> Vec<u8> {
    // count 2: one entry with three patch records: a base stamp, one with
    // a negative origin (skipped), and one shifted right (clipped)
    let mut b = vec![2, 0, 0, 0];
    b.extend_from_slice(&[8, 0, 0, 0]);
    b.extend_from_slice(b"TEX2\0\0\0\0"); // name
    b.extend_from_slice(&[0, 0, 0, 0]);
    b.extend_from_slice(&[2, 0]); // width
    b.extend_from_slice(&[2, 0]); // height
    b.extend_from_slice(&[0, 0, 0, 0]);
    b.extend_from_slice(&[3, 0]); // patch count
    b.extend_from_slice(&[0, 0, 0, 0, 0, 0, 0, 0, 0, 0]); // at (0, 0)
    b.extend_from_slice(&[0xff, 0xff, 0, 0, 0, 0, 0, 0, 0, 0]); // at (-1, 0): skipped
    b.extend_from_slice(&[1, 0, 0, 0, 0, 0, 0, 0, 0, 0]); // at (1, 0): clipped
    b
}

#[test]
fn later_patches_overwrite_and_bad_origins_are_skipped() {
    let mut wad = test_wad();
    for l in wad.lumps.iter_mut() {
        if l.name == b"TEXTURE1".to_vec() {
            l.bytes = layered_texture1_bytes();
        }
    }
    let mut m = MapManager::new(vec![wad], 0).expect("manager");
    let i = m.get_texture(&b"TEX2\0\0\0\0".to_vec()).expect("composite");
    let img = &m.mat_cache[i].1;
    assert_eq!(img.width, 2);
    assert_eq!(img.height, 2);
    // the base patch fills the canvas (rows [10,12] and [11,13]); the
    // negative-origin patch changes nothing; the shifted patch overwrites
    // the right column with its own left column (10 above, 11 below),
    // its right column falling off the canvas
    assert_eq!(&img.pixels[0..4], &[10, 245, 5, 255]);
    assert_eq!(&img.pixels[4..8], &[10, 245, 5, 255]);
    assert_eq!(&img.pixels[8..12], &[11, 244, 5, 255]);
    assert_eq!(&img.pixels[12..16], &[11, 244, 5, 255]);
}

#[test]
fn flat_lump_resolves_at_fixed_size() {
    let mut m = MapManager::new(vec![test_wad()], 0).expect("manager");
    let name = b"FLT1\0\0\0\0".to_vec();
    let i = m.get_patch(&name).expect("flat");
    let img = &m.tex_cache[i].1;
    assert_eq!(img.width, 64);
    assert_eq!(img.height, 64);
    assert_eq!(img.pixels.len(), 4 * 64 * 64);
    // every byte 3 maps to palette entry 3
    assert_eq!(&img.pixels[0..4], &[3, 252, 1, 255]);
}

#[test]
fn empty_image_lump_is_an_empty_lump() {
    let mut wad = test_wad();
    wad.lumps.push(lump("BLANK", Vec::new()));
    let mut m = MapManager::new(vec![wad], 0).expect("manager");
    match m.get_patch(&b"BLANK".to_vec()) {
        Err(WadError::EmptyLump) => {},
        _ => panic!("expected EmptyLump"),
    }
}

#[test]
fn corrupt_image_lump_is_a_malformed_patch() {
    let mut wad = test_wad();
    let mut truncated = tiny_picture();
    truncated.truncate(18);
    wad.lumps.push(lump("BROKEN", truncated));
    wad.lumps.push(flat_lump("BADFLAT", vec![1u8; 100]));
    let mut m = MapManager::new(vec![wad], 0).expect("manager");
    match m.get_patch(&b"BROKEN".to_vec()) {
        Err(WadError::MalformedPatch) => {},
        _ => panic!("expected MalformedPatch"),
    }
    // a flat lump of the wrong size is malformed as well
    match m.get_patch(&b"BADFLAT".to_vec()) {
        Err(WadError::MalformedPatch) => {},
        _ => panic!("expected MalformedPatch"),
    }
    // errors leave nothing cached
    assert_eq!(m.decode_count, 0);
}

#[test]
fn lookup_is_case_insensitive_and_trims_padding() {
    let mut m = MapManager::new(vec![test_wad()], 0).expect("manager");
    // lowercase and NUL-padded forms resolve to the same cached entry
    let a = m.get_texture(&b"pat1".to_vec()).expect("lowercase");
    let b = m.get_texture(&b"PAT1\0\0\0\0".to_vec()).expect("padded");
    assert_eq!(a, b);
}

#[test]
fn supplemental_archive_takes_priority() {
    // a second archive re-defines PAT1; the first archive wins
    let first = test_wad();
    let mut second = test_wad();
    for l in second.lumps.iter_mut() {
        if l.name == b"PAT1".to_vec() {
            l.bytes = {
                let mut b = Vec::new();
                b.extend_from_slice(&[1, 0, 1, 0, 0, 0, 0, 0]);
                b.extend_from_slice(&[12, 0, 0, 0]);
                b.extend_from_slice(&[0, 1, 0, 200, 0, 255]);
                b
            };
        }
    }
    let mut m = MapManager::new(vec![first, second], 0).expect("manager");
    let name = b"PAT1".to_vec();
    let i = m.get_patch(&name).expect("patch");
    assert_eq!(m.tex_cache[i].1.width, 2);
}

#[test]
fn detect_shapes_through_the_manager() {
    let m = MapManager::new(vec![test_wad()], 0).expect("manager");
    let shapes = m.detect_shapes(&m.map.sector_vec[0]);
    assert_eq!(shapes.len(), 1);
    assert_eq!(shapes[0].len(), 4);
    let pts = m.get_linedef_vector_as_vertices(&shapes[0]);
    assert_eq!(pts.len(), 4);
    let holes: Vec<Vec<wadlevel::model::Vert>> = Vec::new();
    let mesh = MapManager::triangulate_polygon_with_holes(&pts, &holes).expect("mesh");
    assert_eq!(mesh.indices.len(), 6);
}

#[test]
fn sector_floor_mesh_of_a_square_room() {
    let m = MapManager::new(vec![test_wad()], 0).expect("manager");
    let mesh = m.sector_floor_mesh(&m.map.sector_vec[0]).expect("mesh");
    assert_eq!(mesh.vertices.len(), 4);
    assert_eq!(mesh.indices.len(), 6);
}

fn pillar_wad() -> Archive {
    // a 64 x 64 room with a concentric 16 x 16 pillar: eight linedefs
    // bounding one sector
    let mut verts: Vec<u8> = Vec::new();
    for (x, y) in [(0i16, 0i16), (64, 0), (64, 64), (0, 64), (24, 24), (40, 24), (40, 40),
        (24, 40)]
    {
        verts.extend_from_slice(&x.to_le_bytes());
        verts.extend_from_slice(&y.to_le_bytes());
    }
    let mut linedefs = Vec::new();
    for (s, e) in [(0i16, 1i16), (1, 2), (2, 3), (3, 0), (4, 5), (5, 6), (6, 7), (7, 4)] {
        linedefs.extend_from_slice(&s.to_le_bytes());
        linedefs.extend_from_slice(&e.to_le_bytes());
        linedefs.extend_from_slice(&[0, 0, 0, 0, 0, 0]);
        linedefs.extend_from_slice(&[0, 0]); // front sidedef 0
        linedefs.extend_from_slice(&[0xff, 0xff]);
    }
    let mut sidedefs = Vec::new();
    sidedefs.extend_from_slice(&[0, 0, 0, 0]);
    sidedefs.extend_from_slice(b"-\0\0\0\0\0\0\0");
    sidedefs.extend_from_slice(b"-\0\0\0\0\0\0\0");
    sidedefs.extend_from_slice(b"TEX1\0\0\0\0");
    sidedefs.extend_from_slice(&[0, 0]);
    let mut sectors = Vec::new();
    sectors.extend_from_slice(&[0, 0, 128, 0]);
    sectors.extend_from_slice(b"FLT1\0\0\0\0");
    sectors.extend_from_slice(b"FLT1\0\0\0\0");
    sectors.extend_from_slice(&[160, 0, 0, 0, 0, 0]);
    let things: Vec<u8> = vec![0, 0, 0, 0, 0, 0, 1, 0, 7, 0];
    let mut lumps = vec![
        lump("THINGS", things),
        lump("LINEDEFS", linedefs),
        lump("VERTEXES", verts),
        lump("SECTORS", sectors),
        lump("SIDEDEFS", sidedefs),
        lump("PLAYPAL", palette_bytes()),
    ];
    lumps.push(flat_lump("FLT1", vec![3u8; 4096]));
    Archive { lumps }
}

#[test]
fn pillar_sector_floor_mesh_has_a_hole() {
    let m = MapManager::new(vec![pillar_wad()], 0).expect("manager");
    assert_eq!(m.map.sector_vec[0].linedefs.len(), 8);
    let shapes = m.detect_shapes(&m.map.sector_vec[0]);
    assert_eq!(shapes.len(), 2);
    let mesh = m.sector_floor_mesh(&m.map.sector_vec[0]).expect("mesh");
    // all eight boundary and pillar points are in the mesh
    assert_eq!(mesh.vertices.len(), 8);
    assert!(!mesh.indices.is_empty());
    assert_eq!(mesh.indices.len() % 3, 0);
    // the triangles cover the room minus the pillar: 2 * (4096 - 256)
    let cross = |a: wadlevel::model::Vert, b: wadlevel::model::Vert,
        c: wadlevel::model::Vert| -> i64 {
        (b.x as i64 - a.x as i64) * (c.y as i64 - a.y as i64)
            - (b.y as i64 - a.y as i64) * (c.x as i64 - a.x as i64)
    };
    let total: i64 = mesh
        .indices
        .chunks(3)
        .map(|t| cross(mesh.vertices[t[0]], mesh.vertices[t[1]], mesh.vertices[t[2]]).abs())
        .sum();
    assert_eq!(total, 2 * (4096 - 256));
}

#[test]
fn wall_panels_through_the_manager() {
    let m = MapManager::new(vec![test_wad()], 0).expect("manager");
    // each linedef is one-sided with middle texture TEX1: one panel each
    for i in 0..4 {
        let panels = m.wall_panels(i);
        assert_eq!(panels.len(), 1);
        assert_eq!(panels[0].floor, 0);
        assert_eq!(panels[0].ceil, 128);
        assert_eq!(panels[0].tex, b"TEX1\0\0\0\0".to_vec());
    }
}

#[test]
fn pnames_decoding_drops_unfit_entries() {
    let r = decode_pnames(&pnames_bytes());
    assert_eq!(r.len(), 1);
    assert_eq!(r[0], b"PAT1\0\0\0\0".to_vec());
    // a count larger than the bytes present is clamped
    let mut b = vec![200, 0, 0, 0];
    b.extend_from_slice(b"AAAABBBB");
    let r2 = decode_pnames(&b);
    assert_eq!(r2.len(), 1);
    // too short for even the count
    assert_eq!(decode_pnames(&vec![1, 0]).len(), 0);
}

#[test]
fn texture_entry_decoding_is_exact() {
    let b = texture1_bytes();
    let (name, e) = decode_texture_entry(&b, 8, 5).expect("entry");
    assert_eq!(name, b"TEX1\0\0\0\0".to_vec());
    assert_eq!(e.width, 2);
    assert_eq!(e.height, 2);
    assert_eq!(e.patch_count, 1);
    assert_eq!(e.wad_ind, 5);
    assert_eq!(e.patches[0].origin_x, 0);
    assert_eq!(e.patches[0].origin_y, 0);
    assert_eq!(e.patches[0].patch, 0);
    // an offset past the buffer yields nothing
    assert!(decode_texture_entry(&b, 1000, 0).is_none());
}
