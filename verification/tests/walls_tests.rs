use wadlevel::model::{Linedef, Sector, Sidedef, TextureEntry, Vert};
use wadlevel::walls::{generate_wall, wall_panels_for};

fn v(x: i16, y: i16) -> Vert {
    Vert { x, y }
}

fn side(x_off: i16, y_off: i16, upper: &[u8], lower: &[u8], mid: &[u8], sector: i16)
    -> Sidedef {
    let pad = |s: &[u8]| {
        let mut n = s.to_vec();
        while n.len() < 8 {
            n.push(0);
        }
        n
    };
    Sidedef {
        x_off,
        y_off,
        upper_tex: pad(upper),
        lower_tex: pad(lower),
        mid_tex: pad(mid),
        sector,
    }
}

fn sector(floor: i16, ceil: i16) -> Sector {
    Sector {
        floor_height: floor,
        ceil_height: ceil,
        floor_tex: b"FLAT1\0\0\0".to_vec(),
        ceil_tex: b"FLAT2\0\0\0".to_vec(),
        light_level: 160,
        special: 0,
        tag: 0,
        linedefs: Vec::new(),
    }
}

fn linedef(flags: i16, front: i16, back: i16) -> Linedef {
    Linedef {
        start_vert: 0,
        end_vert: 1,
        flags,
        special_type: 0,
        sector_tag: 0,
        front_sidedef: front,
        back_sidedef: back,
    }
}

#[test]
fn one_sided_dash_mid_texture_gives_no_panels() {
    let l = linedef(0, 0, -1);
    let verts = vec![v(0, 0), v(64, 0)];
    let sides = vec![side(0, 0, b"-", b"-", b"-", 0)];
    let sectors = vec![sector(0, 128)];
    let defs: Vec<(Vec<u8>, TextureEntry)> = Vec::new();
    let panels = wall_panels_for(&l, &verts, &sides, &sectors, &defs);
    assert_eq!(panels.len(), 0);
}

#[test]
fn one_sided_wall_gives_one_full_height_panel() {
    let l = linedef(0, 0, -1);
    let verts = vec![v(0, 0), v(64, 0)];
    let sides = vec![side(4, 8, b"-", b"-", b"STARTAN3", 0)];
    let sectors = vec![sector(-16, 112)];
    let defs: Vec<(Vec<u8>, TextureEntry)> = Vec::new();
    let panels = wall_panels_for(&l, &verts, &sides, &sectors, &defs);
    assert_eq!(panels.len(), 1);
    let p = &panels[0];
    assert_eq!(p.floor, -16);
    assert_eq!(p.ceil, 112);
    assert_eq!(p.off_x, 4);
    assert_eq!(p.off_y, 8);
    assert!(!p.mid);
    assert!(!p.backface);
    assert_eq!(p.tex, b"STARTAN3".to_vec());
    assert_eq!(p.x1, 0);
    assert_eq!(p.y1, 0);
    assert_eq!(p.x2, 64);
    assert_eq!(p.y2, 0);
}

#[test]
fn equal_heights_two_sided_gives_exactly_two_middle_panels() {
    let l = linedef(0, 0, 1);
    let verts = vec![v(0, 0), v(64, 0)];
    let sides = vec![
        side(0, 0, b"-", b"-", b"MIDGRATE", 0),
        side(0, 0, b"-", b"-", b"MIDGRATE", 1),
    ];
    let sectors = vec![sector(0, 128), sector(0, 128)];
    let defs: Vec<(Vec<u8>, TextureEntry)> = Vec::new();
    let panels = wall_panels_for(&l, &verts, &sides, &sectors, &defs);
    assert_eq!(panels.len(), 2);
    assert!(panels[0].mid && !panels[0].backface);
    assert!(panels[1].mid && panels[1].backface);
}

#[test]
fn differing_ceilings_give_an_upper_panel() {
    let l = linedef(0, 0, 1);
    let verts = vec![v(0, 0), v(64, 0)];
    let sides = vec![
        side(0, 0, b"UPPER1", b"-", b"-", 0),
        side(0, 0, b"UPPER2", b"-", b"-", 1),
    ];
    // front ceiling higher: upper panel spans back ceiling to front ceiling
    let sectors = vec![sector(0, 128), sector(0, 96)];
    let defs: Vec<(Vec<u8>, TextureEntry)> = Vec::new();
    let panels = wall_panels_for(&l, &verts, &sides, &sectors, &defs);
    assert_eq!(panels.len(), 1);
    let p = &panels[0];
    assert_eq!(p.floor, 96);
    assert_eq!(p.ceil, 128);
    assert!(!p.mid);
    assert!(!p.backface);
    assert_eq!(p.tex, b"UPPER1\0\0".to_vec());
    // the upper texture is pegged mode 1 when the upper-unpegged flag is clear
    assert_eq!(p.pegged, 1);
    assert_eq!(p.off_y, 0); // negated zero offset
}

#[test]
fn differing_floors_give_a_lower_panel_with_front_y_offset() {
    let l = linedef(0, 0, 1);
    let verts = vec![v(0, 0), v(64, 0)];
    let sides = vec![
        side(1, 11, b"-", b"LOW1", b"-", 0),
        side(2, 22, b"-", b"LOW2", b"-", 1),
    ];
    // front floor higher: the panel is seen from the back side, its x
    // offset from the back sidedef and its y offset from the front one
    let sectors = vec![sector(32, 128), sector(0, 128)];
    let defs: Vec<(Vec<u8>, TextureEntry)> = Vec::new();
    let panels = wall_panels_for(&l, &verts, &sides, &sectors, &defs);
    assert_eq!(panels.len(), 1);
    let p = &panels[0];
    assert_eq!(p.floor, 0);
    assert_eq!(p.ceil, 32);
    assert!(p.backface);
    assert_eq!(p.tex, b"LOW2\0\0\0\0".to_vec());
    assert_eq!(p.off_x, 2);
    assert_eq!(p.off_y, 11);
}

#[test]
fn middle_panel_rederives_height_from_texture() {
    // a composite texture of height 72; a masked middle panel anchored
    // to the ceiling hangs 72 units down from it
    let defs: Vec<(Vec<u8>, TextureEntry)> = vec![(b"GRATE".to_vec(), TextureEntry {
        width: 64,
        height: 72,
        patch_count: 0,
        patches: Vec::new(),
        wad_ind: 0,
    })];
    let name = b"GRATE\0\0\0".to_vec();
    let p = generate_wall(&defs, v(0, 0), v(64, 0), 0, 128, 0, 0, &name, false, 0, true)
        .expect("panel");
    assert_eq!(p.ceil, 128);
    assert_eq!(p.floor, 128 - 72);
    // anchored to the floor instead: the ceiling is re-derived
    let p2 = generate_wall(&defs, v(0, 0), v(64, 0), 0, 128, 0, 0, &name, false, 1, true)
        .expect("panel");
    assert_eq!(p2.floor, 0);
    assert_eq!(p2.ceil, 72);
    // the vertical offset shifts the whole span
    let p3 = generate_wall(&defs, v(0, 0), v(64, 0), 0, 128, 0, 10, &name, false, 1, true)
        .expect("panel");
    assert_eq!(p3.floor, 10);
    assert_eq!(p3.ceil, 82);
}

#[test]
fn unknown_texture_height_defaults_to_one() {
    let defs: Vec<(Vec<u8>, TextureEntry)> = Vec::new();
    let name = b"NOSUCH\0\0".to_vec();
    let p = generate_wall(&defs, v(0, 0), v(64, 0), 0, 128, 0, 0, &name, false, 1, true)
        .expect("panel");
    assert_eq!(p.floor, 0);
    assert_eq!(p.ceil, 1);
}

#[test]
fn dash_texture_skips_the_panel() {
    let defs: Vec<(Vec<u8>, TextureEntry)> = Vec::new();
    let name = b"-\0\0\0\0\0\0\0".to_vec();
    assert!(generate_wall(&defs, v(0, 0), v(8, 0), 0, 8, 0, 0, &name, false, 0, false)
        .is_none());
}

#[test]
fn panel_indices_wind_by_face() {
    let defs: Vec<(Vec<u8>, TextureEntry)> = Vec::new();
    let name = b"WALL\0\0\0\0".to_vec();
    let front = generate_wall(&defs, v(0, 0), v(8, 0), 0, 8, 0, 0, &name, false, 0, false)
        .expect("panel");
    assert_eq!(front.indices(), [2, 1, 0, 3, 1, 2]);
    let back = generate_wall(&defs, v(0, 0), v(8, 0), 0, 8, 0, 0, &name, true, 0, false)
        .expect("panel");
    assert_eq!(back.indices(), [0, 1, 2, 2, 1, 3]);
}
