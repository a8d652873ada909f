//! Wall panel synthesis: for each linedef, up to six vertical quad panels
//! (upper, lower and middle, per side) with exact height spans and the
//! texture-peg anchoring mode.
//!
//! A panel is skipped entirely when its texture name, NUL padding trimmed,
//! is `"-"`. Pegging modes: `0` anchors the texture to the panel's ceiling
//! edge (the default), `1` to its floor edge ("lower unpegged"), `2` spans
//! from the ceiling of the taller span. A middle (masked) panel re-derives
//! its floor or ceiling from the texture's natural height and the
//! sidedef's vertical offset instead of using the sector heights directly.

use vstd::prelude::*;
use crate::defs::canon;
use crate::model::{Linedef, Sector, Sidedef, TextureEntry, Vert};

verus! {

/// The canonical "no texture" name.
pub open spec fn dash_name() -> Seq<u8> {
    seq![45u8]
}

/// The first index of `defs` whose key equals `key`, or `-1`.
pub open spec fn assoc_first(defs: Seq<(Vec<u8>, TextureEntry)>, key: Seq<u8>, j: int) -> int
    decreases defs.len() - j when 0 <= j <= defs.len()
{
    if j >= defs.len() {
        -1
    } else if defs[j].0@ == key {
        j
    } else {
        assoc_first(defs, key, j + 1)
    }
}

/// What `assoc_first` returns: either no entry at or after `j` carries
/// the key, or the first position that does.
pub proof fn lemma_assoc_first_char(defs: Seq<(Vec<u8>, TextureEntry)>, key: Seq<u8>, j: int)
    requires
        0 <= j <= defs.len(),
    ensures
        assoc_first(defs, key, j) == -1 ==> (forall|k: int| j <= k < defs.len()
            ==> (#[trigger] defs[k]).0@ != key),
        assoc_first(defs, key, j) >= 0 ==> ({
            let r = assoc_first(defs, key, j);
            j <= r < defs.len() && defs[r].0@ == key && (forall|k: int| j <= k < r
                ==> (#[trigger] defs[k]).0@ != key)
        }),
        assoc_first(defs, key, j) == -1 || assoc_first(defs, key, j) >= 0,
    decreases defs.len() - j,
{
    if j < defs.len() {
        if defs[j].0@ == key {
        } else {
            lemma_assoc_first_char(defs, key, j + 1);
        }
    }
}

/// The height of the composite texture entry named `name` (canonical
/// form), or `1` when no entry matches: a single-image texture's size is
/// not consulted for pegging.
pub open spec fn spec_tex_height(defs: Seq<(Vec<u8>, TextureEntry)>, name: Seq<u8>) -> int {
    let i = assoc_first(defs, canon(name), 0);
    if i < 0 {
        1
    } else {
        defs[i].1.height as int
    }
}

/// The bottom height of a panel: the sector span's floor, except that a
/// middle panel anchored to the ceiling hangs the texture's height below
/// the ceiling, and a middle panel is shifted by the vertical offset.
pub open spec fn panel_floor(mid: bool, pegged: i16, floor: i16, ceil: i16, off_y: int,
    th: int) -> int {
    if !mid {
        floor as int
    } else if pegged == 0 {
        ceil - th + off_y
    } else {
        floor + off_y
    }
}

/// The top height of a panel, analogous to `panel_floor`.
pub open spec fn panel_ceil(mid: bool, pegged: i16, floor: i16, ceil: i16, off_y: int,
    th: int) -> int {
    if !mid {
        ceil as int
    } else if pegged == 0 {
        ceil + off_y
    } else {
        floor + th + off_y
    }
}

/// One rectangular wall panel: the linedef's two endpoints, the adjusted
/// height span, texture name and offsets, the pegging mode, and the side
/// it faces.
pub struct WallPanel {
    pub x1: i16,
    pub y1: i16,
    pub x2: i16,
    pub y2: i16,
    pub floor: i32,
    pub ceil: i32,
    pub off_x: i16,
    pub off_y: i32,
    pub tex: Vec<u8>,
    pub backface: bool,
    pub pegged: i16,
    pub mid: bool,
}

/// The ghost image of a wall panel: every field as a mathematical value.
pub struct PanelView {
    pub x1: i16,
    pub y1: i16,
    pub x2: i16,
    pub y2: i16,
    pub floor: int,
    pub ceil: int,
    pub off_x: i16,
    pub off_y: int,
    pub tex: Seq<u8>,
    pub backface: bool,
    pub pegged: i16,
    pub mid: bool,
}

impl View for WallPanel {
    type V = PanelView;

    open spec fn view(&self) -> PanelView {
        PanelView {
            x1: self.x1,
            y1: self.y1,
            x2: self.x2,
            y2: self.y2,
            floor: self.floor as int,
            ceil: self.ceil as int,
            off_x: self.off_x,
            off_y: self.off_y as int,
            tex: self.tex@,
            backface: self.backface,
            pegged: self.pegged,
            mid: self.mid,
        }
    }
}

/// The panel `generate_wall` builds for these arguments, as its ghost
/// image: the height span already adjusted per the pegging mode.
pub open spec fn panel_view(
    defs: Seq<(Vec<u8>, TextureEntry)>,
    vert1: Vert,
    vert2: Vert,
    floor: i16,
    ceil: i16,
    off_x: i16,
    off_y: int,
    tex: Seq<u8>,
    backface: bool,
    pegged: i16,
    mid: bool,
) -> PanelView {
    PanelView {
        x1: vert1.x,
        y1: vert1.y,
        x2: vert2.x,
        y2: vert2.y,
        floor: panel_floor(mid, pegged, floor, ceil, off_y, spec_tex_height(defs, tex)),
        ceil: panel_ceil(mid, pegged, floor, ceil, off_y, spec_tex_height(defs, tex)),
        off_x: off_x,
        off_y: off_y,
        tex: tex,
        backface: backface,
        pegged: pegged,
        mid: mid,
    }
}

/// Zero or one panel: none when the texture name trims to `"-"`.
pub open spec fn panel_opt(
    defs: Seq<(Vec<u8>, TextureEntry)>,
    vert1: Vert,
    vert2: Vert,
    floor: i16,
    ceil: i16,
    off_x: i16,
    off_y: int,
    tex: Seq<u8>,
    backface: bool,
    pegged: i16,
    mid: bool,
) -> Seq<PanelView> {
    if canon(tex) == dash_name() {
        Seq::empty()
    } else {
        seq![panel_view(defs, vert1, vert2, floor, ceil, off_x, off_y, tex, backface,
            pegged, mid)]
    }
}

impl WallPanel {
    /// The six indices of the panel's two triangles, wound so the quad
    /// faces the requested side. Corner order: 0 and 1 are the first
    /// endpoint at floor and ceiling, 2 and 3 the second endpoint.
    pub fn indices(&self) -> (r: [u32; 6])
        ensures
            self.backface ==> r@ == seq![0u32, 1u32, 2u32, 2u32, 1u32, 3u32],
            !self.backface ==> r@ == seq![2u32, 1u32, 0u32, 3u32, 1u32, 2u32],
    {
        if self.backface {
            [0u32, 1u32, 2u32, 2u32, 1u32, 3u32]
        } else {
            [2u32, 1u32, 0u32, 3u32, 1u32, 2u32]
        }
    }
}

/// Finds the first composite texture entry under a canonical name.
fn find_def<'a>(defs: &'a Vec<(Vec<u8>, TextureEntry)>, key: &Vec<u8>) -> (r: Option<
    &'a TextureEntry>)
    ensures
        match r {
            Some(e) => assoc_first(defs@, key@, 0) >= 0 && *e == defs@[assoc_first(defs@,
                key@, 0)].1,
            None => assoc_first(defs@, key@, 0) == -1,
        },
{
    let mut i: usize = 0;
    while i < defs.len()
        invariant
            i <= defs@.len(),
            assoc_first(defs@, key@, 0) == assoc_first(defs@, key@, i as int),
        decreases defs@.len() - i,
    {
        if crate::model::bytes_eq(&defs[i].0, key) {
            return Some(&defs[i].1);
        }
        i = i + 1;
    }
    None
}

/// Builds one wall panel, or nothing when the texture name trims to
/// `"-"`. For a middle (masked) panel the height span is re-derived from
/// the texture height and vertical offset per the pegging mode.
pub fn generate_wall(
    texture_defs: &Vec<(Vec<u8>, TextureEntry)>,
    vert1: Vert,
    vert2: Vert,
    floor_height: i16,
    ceiling_height: i16,
    off_x: i16,
    off_y: i32,
    tex_name: &Vec<u8>,
    backface: bool,
    pegged: i16,
    mid: bool,
) -> (r: Option<WallPanel>)
    requires
        -65536 <= off_y <= 65536,
    ensures
        (r is None) <==> canon(tex_name@) == dash_name(),
        match r {
            Some(p) => p@ == panel_view(texture_defs@, vert1, vert2, floor_height,
                ceiling_height, off_x, off_y as int, tex_name@, backface, pegged, mid),
            None => true,
        },
{
    let key = crate::defs::canonical_name(tex_name);
    if key.len() == 1 && key[0] == 45 {
        proof {
            assert(key@ =~= dash_name());
        }
        return None;
    }
    proof {
        assert(key@ != dash_name());
    }
    let tex_height: i32 = match find_def(texture_defs, &key) {
        Some(e) => e.height as i32,
        None => 1,
    };
    let mut floor: i32 = floor_height as i32;
    let mut ceil: i32 = ceiling_height as i32;
    if mid {
        if pegged == 0 {
            floor = ceil - tex_height;
        } else {
            ceil = floor + tex_height;
        }
        floor = floor + off_y;
        ceil = ceil + off_y;
    }
    let tex = crate::model::copy_bytes(tex_name);
    Some(WallPanel {
        x1: vert1.x,
        y1: vert1.y,
        x2: vert2.x,
        y2: vert2.y,
        floor,
        ceil,
        off_x,
        off_y,
        tex,
        backface,
        pegged,
        mid,
    })
}


/// Validity of one linedef's references into the shared arrays: vertex
/// indices in range and, for each present sidedef, the sidedef index and
/// its sector index in range.
pub open spec fn linedef_refs_ok(
    l: Linedef,
    verts: Seq<Vert>,
    sides: Seq<Sidedef>,
    sectors: Seq<Sector>,
) -> bool {
    &&& 0 <= l.start_vert < verts.len()
    &&& 0 <= l.end_vert < verts.len()
    &&& l.front_sidedef >= 0 ==> l.front_sidedef < sides.len()
        && 0 <= sides[l.front_sidedef as int].sector < sectors.len()
    &&& l.back_sidedef >= 0 ==> l.back_sidedef < sides.len()
        && 0 <= sides[l.back_sidedef as int].sector < sectors.len()
}

/// The front sidedef of a linedef.
pub open spec fn front_side(l: Linedef, sides: Seq<Sidedef>) -> Sidedef {
    sides[l.front_sidedef as int]
}

/// The back sidedef of a linedef.
pub open spec fn back_side(l: Linedef, sides: Seq<Sidedef>) -> Sidedef {
    sides[l.back_sidedef as int]
}

/// The sector on the front side of a linedef.
pub open spec fn front_sector(l: Linedef, sides: Seq<Sidedef>, sectors: Seq<Sector>) -> Sector {
    sectors[front_side(l, sides).sector as int]
}

/// The sector on the back side of a linedef.
pub open spec fn back_sector(l: Linedef, sides: Seq<Sidedef>, sectors: Seq<Sector>) -> Sector {
    sectors[back_side(l, sides).sector as int]
}

/// The ghost images of a panel list, element for element.
pub open spec fn views_of(s: Seq<WallPanel>) -> Seq<PanelView> {
    s.map_values(|p: WallPanel| p@)
}

/// Appending a panel appends its ghost image.
proof fn lemma_views_push(s: Seq<WallPanel>, p: WallPanel)
    ensures
        views_of(s.push(p)) == views_of(s).push(p@),
{
    assert(views_of(s.push(p)) =~= views_of(s).push(p@));
}

/// The ghost images an optional panel contributes.
pub open spec fn opt_view(p: Option<WallPanel>) -> Seq<PanelView> {
    match p {
        Some(pp) => seq![pp@],
        None => Seq::empty(),
    }
}

/// Appends a panel when there is one.
fn push_opt(r: &mut Vec<WallPanel>, p: Option<WallPanel>)
    ensures
        views_of(final(r)@) == views_of(old(r)@) + opt_view(p),
{
    match p {
        Some(pp) => {
            let ghost gp = pp;
            r.push(pp);
            proof {
                lemma_views_push(old(r)@, gp);
                assert(views_of(old(r)@).push(gp@) =~= views_of(old(r)@) + opt_view(
                    Some(gp)));
            }
        },
        None => {
            proof {
                assert(views_of(r@) =~= views_of(r@) + opt_view(None::<WallPanel>));
            }
        },
    }
}

/// The whole panel list of one linedef, as ghost images in emission
/// order: for a two-sided wall an upper panel where the ceilings differ
/// (seen from, and textured by, the higher-ceiling side), a lower panel
/// where the floors differ (seen from the higher-floor side, with the
/// front sidedef's vertical offset), then the two see-through middle
/// panels, front before back; for a one-sided wall a single middle panel
/// over the sector's full height. A panel whose texture trims to `"-"`
/// is left out.
#[verifier::opaque]
pub open spec fn spec_wall_panels(
    l: Linedef,
    verts: Seq<Vert>,
    sides: Seq<Sidedef>,
    sectors: Seq<Sector>,
    defs: Seq<(Vec<u8>, TextureEntry)>,
) -> Seq<PanelView> {
    if l.front_sidedef < 0 {
        Seq::empty()
    } else {
        let fside = front_side(l, sides);
        let fsec = front_sector(l, sides, sectors);
        let v1 = verts[l.start_vert as int];
        let v2 = verts[l.end_vert as int];
        let uu = (l.flags & 8) != 0;
        let lu = (l.flags & 16) != 0;
        if l.back_sidedef >= 0 {
            let bside = back_side(l, sides);
            let bsec = back_sector(l, sides, sectors);
            let up = if fsec.ceil_height > bsec.ceil_height {
                panel_opt(defs, v1, v2, bsec.ceil_height, fsec.ceil_height, fside.x_off,
                    if uu { fside.y_off as int } else { -(fside.y_off as int) },
                    fside.upper_tex@, false, if uu { 0i16 } else { 1i16 }, false)
            } else if fsec.ceil_height < bsec.ceil_height {
                panel_opt(defs, v1, v2, fsec.ceil_height, bsec.ceil_height, bside.x_off,
                    if uu { bside.y_off as int } else { -(bside.y_off as int) },
                    bside.upper_tex@, true, if uu { 0i16 } else { 1i16 }, false)
            } else {
                Seq::empty()
            };
            let low = if fsec.floor_height < bsec.floor_height {
                panel_opt(defs, v1, v2, fsec.floor_height, bsec.floor_height, fside.x_off,
                    fside.y_off as int, fside.lower_tex@, false, if lu { 2i16 } else { 0i16 },
                    false)
            } else if fsec.floor_height > bsec.floor_height {
                panel_opt(defs, v1, v2, bsec.floor_height, fsec.floor_height, bside.x_off,
                    fside.y_off as int, bside.lower_tex@, true, if lu { 2i16 } else { 0i16 },
                    false)
            } else {
                Seq::empty()
            };
            let mfloor = if fsec.floor_height >= bsec.floor_height {
                fsec.floor_height
            } else {
                bsec.floor_height
            };
            let mceil = if fsec.ceil_height <= bsec.ceil_height {
                fsec.ceil_height
            } else {
                bsec.ceil_height
            };
            let mpeg: i16 = if lu { 1i16 } else { 0i16 };
            up + low + panel_opt(defs, v1, v2, mfloor, mceil, fside.x_off,
                fside.y_off as int, fside.mid_tex@, false, mpeg, true) + panel_opt(defs, v1,
                v2, mfloor, mceil, bside.x_off, bside.y_off as int, bside.mid_tex@, true,
                mpeg, true)
        } else {
            panel_opt(defs, v1, v2, fsec.floor_height, fsec.ceil_height, fside.x_off,
                fside.y_off as int, fside.mid_tex@, false, if lu { 1i16 } else { 0i16 },
                false)
        }
    }
}

/// Builds every wall panel of one linedef: up to six for a two-sided
/// wall (upper and lower where the ceiling or floor heights differ, and
/// one middle panel per side), a single middle panel for a one-sided
/// wall, and none at all when the linedef has no front sidedef.
///
/// A one-sided linedef whose middle texture is `"-"` yields no panel.
/// A two-sided linedef with equal floor and equal ceiling heights on
/// both sides yields no upper or lower panel: only its middle panels,
/// front first, then back.
pub fn wall_panels_for(
    l: &Linedef,
    verts: &Vec<Vert>,
    sides: &Vec<Sidedef>,
    sectors: &Vec<Sector>,
    texture_defs: &Vec<(Vec<u8>, TextureEntry)>,
) -> (r: Vec<WallPanel>)
    requires
        linedef_refs_ok(*l, verts@, sides@, sectors@),
    ensures
        views_of(r@) == spec_wall_panels(*l, verts@, sides@, sectors@, texture_defs@),
{
    let ghost gdefs = texture_defs@;
    let mut r: Vec<WallPanel> = Vec::new();
    if l.front_sidedef < 0 {
        proof {
            reveal(spec_wall_panels);
            assert(views_of(r@) =~= spec_wall_panels(*l, verts@, sides@, sectors@, gdefs));
        }
        return r;
    }
    let fside = &sides[l.front_sidedef as usize];
    let fsec = &sectors[fside.sector as usize];
    let v1 = verts[l.start_vert as usize];
    let v2 = verts[l.end_vert as usize];
    let upper_unpegged = (l.flags & 8) != 0;
    let lower_unpegged = (l.flags & 16) != 0;
    if l.back_sidedef >= 0 {
        let bside = &sides[l.back_sidedef as usize];
        let bsec = &sectors[bside.sector as usize];
        let ghost up_seg = if fsec.ceil_height > bsec.ceil_height {
            panel_opt(gdefs, v1, v2, bsec.ceil_height, fsec.ceil_height, fside.x_off,
                if upper_unpegged { fside.y_off as int } else { -(fside.y_off as int) },
                fside.upper_tex@, false, if upper_unpegged { 0i16 } else { 1i16 }, false)
        } else if fsec.ceil_height < bsec.ceil_height {
            panel_opt(gdefs, v1, v2, fsec.ceil_height, bsec.ceil_height, bside.x_off,
                if upper_unpegged { bside.y_off as int } else { -(bside.y_off as int) },
                bside.upper_tex@, true, if upper_unpegged { 0i16 } else { 1i16 }, false)
        } else {
            Seq::empty()
        };
        if fsec.ceil_height > bsec.ceil_height {
            // upper panel seen from the front side
            let p = generate_wall(texture_defs, v1, v2, bsec.ceil_height, fsec.ceil_height,
                fside.x_off, if upper_unpegged {
                    fside.y_off as i32
                } else {
                    -(fside.y_off as i32)
                }, &fside.upper_tex, false, if upper_unpegged {
                    0
                } else {
                    1
                }, false);
            proof {
                assert(opt_view(p) =~= up_seg);
            }
            push_opt(&mut r, p);
        } else if fsec.ceil_height < bsec.ceil_height {
            // upper panel seen from the back side
            let p = generate_wall(texture_defs, v1, v2, fsec.ceil_height, bsec.ceil_height,
                bside.x_off, if upper_unpegged {
                    bside.y_off as i32
                } else {
                    -(bside.y_off as i32)
                }, &bside.upper_tex, true, if upper_unpegged {
                    0
                } else {
                    1
                }, false);
            proof {
                assert(opt_view(p) =~= up_seg);
            }
            push_opt(&mut r, p);
        }
        proof {
            assert(views_of(r@) =~= up_seg);
        }
        let ghost low_seg = if fsec.floor_height < bsec.floor_height {
            panel_opt(gdefs, v1, v2, fsec.floor_height, bsec.floor_height, fside.x_off,
                fside.y_off as int, fside.lower_tex@, false,
                if lower_unpegged { 2i16 } else { 0i16 }, false)
        } else if fsec.floor_height > bsec.floor_height {
            panel_opt(gdefs, v1, v2, bsec.floor_height, fsec.floor_height, bside.x_off,
                fside.y_off as int, bside.lower_tex@, true,
                if lower_unpegged { 2i16 } else { 0i16 }, false)
        } else {
            Seq::empty()
        };
        if fsec.floor_height < bsec.floor_height {
            // lower panel seen from the front side
            let p = generate_wall(texture_defs, v1, v2, fsec.floor_height, bsec.floor_height,
                fside.x_off, fside.y_off as i32, &fside.lower_tex, false, if lower_unpegged {
                    2
                } else {
                    0
                }, false);
            proof {
                assert(opt_view(p) =~= low_seg);
            }
            push_opt(&mut r, p);
        } else if fsec.floor_height > bsec.floor_height {
            // lower panel seen from the back side; the vertical offset
            // comes from the front sidedef
            let p = generate_wall(texture_defs, v1, v2, bsec.floor_height, fsec.floor_height,
                bside.x_off, fside.y_off as i32, &bside.lower_tex, true, if lower_unpegged {
                    2
                } else {
                    0
                }, false);
            proof {
                assert(opt_view(p) =~= low_seg);
            }
            push_opt(&mut r, p);
        }
        proof {
            assert(views_of(r@) =~= up_seg + low_seg);
        }
        let mfloor = if fsec.floor_height >= bsec.floor_height {
            fsec.floor_height
        } else {
            bsec.floor_height
        };
        let mceil = if fsec.ceil_height <= bsec.ceil_height {
            fsec.ceil_height
        } else {
            bsec.ceil_height
        };
        let mpeg: i16 = if lower_unpegged {
            1
        } else {
            0
        };
        let ghost midf_seg = panel_opt(gdefs, v1, v2, mfloor, mceil, fside.x_off,
            fside.y_off as int, fside.mid_tex@, false, mpeg, true);
        let ghost midb_seg = panel_opt(gdefs, v1, v2, mfloor, mceil, bside.x_off,
            bside.y_off as int, bside.mid_tex@, true, mpeg, true);
        // the two see-through middle panels, front then back
        let p = generate_wall(texture_defs, v1, v2, mfloor, mceil, fside.x_off,
            fside.y_off as i32, &fside.mid_tex, false, mpeg, true);
        proof {
            assert(opt_view(p) =~= midf_seg);
        }
        push_opt(&mut r, p);
        let p = generate_wall(texture_defs, v1, v2, mfloor, mceil, bside.x_off,
            bside.y_off as i32, &bside.mid_tex, true, mpeg, true);
        proof {
            assert(opt_view(p) =~= midb_seg);
        }
        push_opt(&mut r, p);
        proof {
            reveal(spec_wall_panels);
            assert(views_of(r@) =~= up_seg + low_seg + midf_seg + midb_seg);
            assert(spec_wall_panels(*l, verts@, sides@, sectors@, gdefs)
                =~= up_seg + low_seg + midf_seg + midb_seg);
        }
    } else {
        // one-sided wall: a single middle panel over the full height
        let p = generate_wall(texture_defs, v1, v2, fsec.floor_height, fsec.ceil_height,
            fside.x_off, fside.y_off as i32, &fside.mid_tex, false, if lower_unpegged {
                1
            } else {
                0
            }, false);
        push_opt(&mut r, p);
        proof {
            reveal(spec_wall_panels);
            assert(views_of(r@) =~= spec_wall_panels(*l, verts@, sides@, sectors@, gdefs));
        }
    }
    r
}

/// A one-sided linedef whose middle texture name trims to `"-"` produces
/// zero wall panels.
pub proof fn lemma_one_sided_dash_no_panels(
    l: Linedef,
    verts: Seq<Vert>,
    sides: Seq<Sidedef>,
    sectors: Seq<Sector>,
    defs: Seq<(Vec<u8>, TextureEntry)>,
)
    requires
        l.front_sidedef >= 0,
        l.back_sidedef < 0,
        canon(front_side(l, sides).mid_tex@) == dash_name(),
    ensures
        spec_wall_panels(l, verts, sides, sectors, defs).len() == 0,
{
    reveal(spec_wall_panels);
}

/// A one-sided linedef with a real middle texture produces exactly one
/// panel: front-facing, not masked, spanning the front sector's floor to
/// its ceiling, with the front sidedef's texture and offsets, pegged to
/// the floor edge exactly when the lower-unpegged flag is set.
pub proof fn lemma_one_sided_single_panel(
    l: Linedef,
    verts: Seq<Vert>,
    sides: Seq<Sidedef>,
    sectors: Seq<Sector>,
    defs: Seq<(Vec<u8>, TextureEntry)>,
)
    requires
        l.front_sidedef >= 0,
        l.back_sidedef < 0,
        canon(front_side(l, sides).mid_tex@) != dash_name(),
    ensures
        spec_wall_panels(l, verts, sides, sectors, defs).len() == 1,
        spec_wall_panels(l, verts, sides, sectors, defs)[0] == panel_view(defs,
            verts[l.start_vert as int], verts[l.end_vert as int],
            front_sector(l, sides, sectors).floor_height,
            front_sector(l, sides, sectors).ceil_height, front_side(l, sides).x_off,
            front_side(l, sides).y_off as int, front_side(l, sides).mid_tex@, false,
            if (l.flags & 16) != 0 { 1i16 } else { 0i16 }, false),
{
    reveal(spec_wall_panels);
}

/// A two-sided linedef with equal floor and equal ceiling heights on both
/// sides produces zero upper or lower panels: every panel is a middle
/// panel, and with both middle textures real there are exactly two, the
/// front-facing one first, then the back-facing one.
pub proof fn lemma_equal_heights_middle_panels_only(
    l: Linedef,
    verts: Seq<Vert>,
    sides: Seq<Sidedef>,
    sectors: Seq<Sector>,
    defs: Seq<(Vec<u8>, TextureEntry)>,
)
    requires
        l.front_sidedef >= 0,
        l.back_sidedef >= 0,
        front_sector(l, sides, sectors).ceil_height == back_sector(l, sides,
            sectors).ceil_height,
        front_sector(l, sides, sectors).floor_height == back_sector(l, sides,
            sectors).floor_height,
    ensures
        forall|k: int| 0 <= k < spec_wall_panels(l, verts, sides, sectors, defs).len()
            ==> (#[trigger] spec_wall_panels(l, verts, sides, sectors, defs)[k]).mid,
        canon(front_side(l, sides).mid_tex@) != dash_name() && canon(back_side(l,
            sides).mid_tex@) != dash_name() ==> ({
            let r = spec_wall_panels(l, verts, sides, sectors, defs);
            r.len() == 2 && r[0].mid && !r[0].backface && r[1].mid && r[1].backface
        }),
{
    reveal(spec_wall_panels);
}

/// A two-sided linedef whose ceilings differ produces exactly one upper
/// panel among its non-middle panels (unless its texture trims to `"-"`),
/// first in emission order: it spans from the lower ceiling to the higher
/// one, uses the upper texture and offsets of the higher-ceiling side's
/// sidedef, faces away from that side exactly when it is the back side,
/// and is pegged to the ceiling edge exactly when the upper-unpegged flag
/// is set, else pegged mode 1 with the vertical offset negated.
pub proof fn lemma_differing_ceilings_upper_panel(
    l: Linedef,
    verts: Seq<Vert>,
    sides: Seq<Sidedef>,
    sectors: Seq<Sector>,
    defs: Seq<(Vec<u8>, TextureEntry)>,
)
    requires
        l.front_sidedef >= 0,
        l.back_sidedef >= 0,
        front_sector(l, sides, sectors).ceil_height != back_sector(l, sides,
            sectors).ceil_height,
    ensures
        ({
            let fsec = front_sector(l, sides, sectors);
            let bsec = back_sector(l, sides, sectors);
            let hi = if fsec.ceil_height > bsec.ceil_height {
                front_side(l, sides)
            } else {
                back_side(l, sides)
            };
            let uu = (l.flags & 8) != 0;
            let expected = panel_view(defs, verts[l.start_vert as int],
                verts[l.end_vert as int],
                if fsec.ceil_height > bsec.ceil_height { bsec.ceil_height } else {
                    fsec.ceil_height },
                if fsec.ceil_height > bsec.ceil_height { fsec.ceil_height } else {
                    bsec.ceil_height },
                hi.x_off, if uu { hi.y_off as int } else { -(hi.y_off as int) },
                hi.upper_tex@, fsec.ceil_height < bsec.ceil_height,
                if uu { 0i16 } else { 1i16 }, false);
            let r = spec_wall_panels(l, verts, sides, sectors, defs);
            canon(hi.upper_tex@) != dash_name() ==> r.len() >= 1 && r[0] == expected
        }),
{
    reveal(spec_wall_panels);
}

/// A two-sided linedef whose floors differ produces exactly one lower
/// panel (unless its texture trims to `"-"`): it spans from the lower
/// floor to the higher one, uses the lower texture and horizontal offset
/// of the lower-floor sector's partner sidedef with the front sidedef's
/// vertical offset, faces away from the higher-floor side exactly when
/// that is the back side, and is pegged mode 2 exactly when the
/// lower-unpegged flag is set, else mode 0. It stands right after the
/// upper panel, if any, in emission order.
pub proof fn lemma_differing_floors_lower_panel(
    l: Linedef,
    verts: Seq<Vert>,
    sides: Seq<Sidedef>,
    sectors: Seq<Sector>,
    defs: Seq<(Vec<u8>, TextureEntry)>,
)
    requires
        l.front_sidedef >= 0,
        l.back_sidedef >= 0,
        front_sector(l, sides, sectors).floor_height != back_sector(l, sides,
            sectors).floor_height,
    ensures
        ({
            let fsec = front_sector(l, sides, sectors);
            let bsec = back_sector(l, sides, sectors);
            let partner = if fsec.floor_height < bsec.floor_height {
                front_side(l, sides)
            } else {
                back_side(l, sides)
            };
            let lu = (l.flags & 16) != 0;
            let expected = panel_view(defs, verts[l.start_vert as int],
                verts[l.end_vert as int],
                if fsec.floor_height < bsec.floor_height { fsec.floor_height } else {
                    bsec.floor_height },
                if fsec.floor_height < bsec.floor_height { bsec.floor_height } else {
                    fsec.floor_height },
                partner.x_off, front_side(l, sides).y_off as int, partner.lower_tex@,
                fsec.floor_height > bsec.floor_height, if lu { 2i16 } else { 0i16 }, false);
            let r = spec_wall_panels(l, verts, sides, sectors, defs);
            let at = if front_sector(l, sides, sectors).ceil_height != back_sector(l, sides,
                sectors).ceil_height && canon((if fsec.ceil_height > bsec.ceil_height {
                front_side(l, sides) } else { back_side(l, sides) }).upper_tex@)
                != dash_name() { 1int } else { 0int };
            canon(partner.lower_tex@) != dash_name() ==> r.len() >= at + 1
                && r[at] == expected
        }),
{
    reveal(spec_wall_panels);
}

} // verus!
