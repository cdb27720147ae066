use vstd::prelude::*;

use crate::output_head::OutputHead;
use crate::output_mode::find_mode_index;
use crate::output_mode::spec_has_mode;
use crate::output_mode::spec_mode_index_of;
use crate::transaction::find_head_by_name;
use crate::transaction::spec_is_first_named;
use crate::transaction::spec_has_named;
use crate::transaction::spec_first_named_index;
use crate::transform::spec_is_landscape;

verus! {

/// Edges within this many pixels snap into exact alignment, and an
/// attached rectangle keeps at least this much overlap with its
/// neighbour.
pub const SNAP_MARGIN: i32 = 4;

/// Coordinates and dimensions the layout functions accept, so that every
/// intermediate sum stays inside machine integers.
pub const MAX_COORD: i32 = 268435456;

/// An output's place on the desk: position and dimensions in pixels.
#[derive(Clone, Copy, Debug, PartialEq, Eq, Structural)]
pub struct Rectangle {
    pub x: i32,
    pub y: i32,
    pub width: i32,
    pub height: i32,
}

impl Default for Rectangle {
    /// The rectangle at the origin with no extent.
    fn default() -> (d: Rectangle)
        ensures
            d == (Rectangle { x: 0, y: 0, width: 0, height: 0 }),
    {
        Rectangle { x: 0, y: 0, width: 0, height: 0 }
    }
}

/// Which side of the nearest neighbour the moved rectangle attaches to.
#[derive(Clone, Copy, Debug, PartialEq, Eq, Structural)]
pub enum NearestSide {
    East,
    North,
    South,
    West,
}

/// All four fields lie within [`MAX_COORD`].
pub open spec fn spec_rect_bounded(r: Rectangle) -> bool {
    &&& -MAX_COORD <= r.x <= MAX_COORD
    &&& -MAX_COORD <= r.y <= MAX_COORD
    &&& -MAX_COORD <= r.width <= MAX_COORD
    &&& -MAX_COORD <= r.height <= MAX_COORD
}

/// A rectangle's centre, in half-pixel units so it stays an integer.
pub open spec fn spec_center_x2(r: Rectangle) -> int {
    2 * r.x + r.width
}

pub open spec fn spec_center_y2(r: Rectangle) -> int {
    2 * r.y + r.height
}

/// The edge midpoint of a rectangle facing the given side, in half-pixel
/// units: its west edge for East, its east edge for West, its top for
/// North and its bottom for South.
pub open spec fn spec_side_point_x2(r: Rectangle, side: NearestSide) -> (int, int) {
    match side {
        NearestSide::East => (2 * r.x, spec_center_y2(r)),
        NearestSide::West => (2 * (r.x + r.width), spec_center_y2(r)),
        NearestSide::North => (spec_center_x2(r), 2 * r.y),
        NearestSide::South => (spec_center_x2(r), 2 * (r.y + r.height)),
    }
}

/// The squared distance from the moved rectangle's centre to a
/// neighbour's side point, biased against horizontal adjacency: east and
/// west count five fourths, north and south one — all scaled by a common
/// positive factor so the comparison stays in integers.
pub open spec fn spec_weighted_dist(moved: Rectangle, other: Rectangle, side: NearestSide) -> int {
    let p = spec_side_point_x2(other, side);
    let dx = p.0 - spec_center_x2(moved);
    let dy = p.1 - spec_center_y2(moved);
    let d2 = dx * dx + dy * dy;
    match side {
        NearestSide::East => 5 * d2,
        NearestSide::West => 5 * d2,
        NearestSide::North => 4 * d2,
        NearestSide::South => 4 * d2,
    }
}

/// The side a flat scan index names: each neighbour contributes its east,
/// west, north and south checks, in that order.
pub open spec fn spec_side_of(t: int) -> NearestSide {
    if t % 4 == 0 {
        NearestSide::East
    } else if t % 4 == 1 {
        NearestSide::West
    } else if t % 4 == 2 {
        NearestSide::North
    } else {
        NearestSide::South
    }
}

/// The weighted distance the flat scan index `t` names.
pub open spec fn spec_pair_dist(moved: Rectangle, others: Seq<Rectangle>, t: int) -> int {
    spec_weighted_dist(moved, others[t / 4], spec_side_of(t))
}

/// The flat scan index `t` wins: no check anywhere is nearer, and no
/// earlier check is as near — the first strict minimum of the scan.
pub open spec fn spec_is_winner(moved: Rectangle, others: Seq<Rectangle>, t: int) -> bool {
    &&& 0 <= t < 4 * others.len()
    &&& forall|u: int|
        0 <= u < 4 * others.len() ==> #[trigger] spec_pair_dist(moved, others, u)
            >= spec_pair_dist(moved, others, t)
    &&& forall|u: int|
        0 <= u < t ==> #[trigger] spec_pair_dist(moved, others, u) > spec_pair_dist(
            moved,
            others,
            t,
        )
}

/// The winning scan index; unique where one exists, and one exists
/// whenever there is any neighbour.
pub open spec fn spec_winner_index(moved: Rectangle, others: Seq<Rectangle>) -> int {
    choose|t: int| spec_is_winner(moved, others, t)
}

/// The moved rectangle attached flush against the given side of the
/// nearest neighbour, with the perpendicular coordinate clamped so the
/// two overlap by at least the margin on each end.
pub open spec fn spec_attach(moved: Rectangle, region: Rectangle, side: NearestSide) -> Rectangle {
    match side {
        NearestSide::East => Rectangle {
            x: (region.x - moved.width) as i32,
            y: spec_clamp(moved.y as int, region.y, region.height, moved.height) as i32,
            ..moved
        },
        NearestSide::West => Rectangle {
            x: (region.x + region.width) as i32,
            y: spec_clamp(moved.y as int, region.y, region.height, moved.height) as i32,
            ..moved
        },
        NearestSide::North => Rectangle {
            y: (region.y - moved.height) as i32,
            x: spec_clamp(moved.x as int, region.x, region.width, moved.width) as i32,
            ..moved
        },
        NearestSide::South => Rectangle {
            y: (region.y + region.height) as i32,
            x: spec_clamp(moved.x as int, region.x, region.width, moved.width) as i32,
            ..moved
        },
    }
}

/// The perpendicular coordinate clamped into
/// `[edge - extent + margin, edge + span - margin]`.
pub open spec fn spec_clamp(v: int, edge: i32, span: i32, extent: i32) -> int {
    let lo = edge - extent + SNAP_MARGIN;
    let hi = edge + span - SNAP_MARGIN;
    let raised = if v >= lo {
        v
    } else {
        lo
    };
    if raised <= hi {
        raised
    } else {
        hi
    }
}

/// One axis of the snap: the leading edge aligns when within the margin,
/// then the trailing edge, each reading the value the step before left.
pub open spec fn spec_snap_axis(v: int, extent: int, edge: int, span: int) -> int {
    let lead = if -SNAP_MARGIN <= v - edge <= SNAP_MARGIN {
        edge
    } else {
        v
    };
    if -SNAP_MARGIN <= (lead + extent) - (edge + span) <= SNAP_MARGIN {
        edge + span - extent
    } else {
        lead
    }
}

/// Both axes snapped to the nearest neighbour's edges where alignment is
/// near.
pub open spec fn spec_snap(m: Rectangle, region: Rectangle) -> Rectangle {
    Rectangle {
        x: spec_snap_axis(m.x as int, m.width as int, region.x as int, region.width as int) as i32,
        y: spec_snap_axis(m.y as int, m.height as int, region.y as int, region.height as int)
            as i32,
        ..m
    }
}

/// What [`display`] computes: the moved rectangle attached to the winning
/// side of its nearest neighbour and snapped; with no neighbour at all,
/// the scan never fires and the rectangle attaches east of the zero
/// rectangle at the origin.
pub open spec fn spec_display(moved: Rectangle, others: Seq<Rectangle>) -> Rectangle {
    let (region, side) = if others.len() == 0 {
        (Rectangle { x: 0, y: 0, width: 0, height: 0 }, NearestSide::East)
    } else {
        let t = spec_winner_index(moved, others);
        (others[t / 4], spec_side_of(t))
    };
    spec_snap(spec_attach(moved, region, side), region)
}

/// The attach step guarantees the stated overlap: against an east or west
/// neighbour the moved rectangle's y lands inside
/// `[region.y - moved.height + margin, region.y + region.height - margin]`,
/// and against a north or south neighbour its x lands inside the
/// symmetric window — at least the margin of overlap on each end,
/// provided the two extents together can carry both margins.
pub proof fn lemma_attach_clamps(moved: Rectangle, region: Rectangle, side: NearestSide)
    requires
        spec_rect_bounded(moved),
        spec_rect_bounded(region),
    ensures
        (side == NearestSide::East || side == NearestSide::West) && moved.height + region.height
            >= 2 * SNAP_MARGIN ==> region.y - moved.height + SNAP_MARGIN <= spec_attach(
            moved,
            region,
            side,
        ).y <= region.y + region.height - SNAP_MARGIN,
        (side == NearestSide::North || side == NearestSide::South) && moved.width + region.width
            >= 2 * SNAP_MARGIN ==> region.x - moved.width + SNAP_MARGIN <= spec_attach(
            moved,
            region,
            side,
        ).x <= region.x + region.width - SNAP_MARGIN,
{
}

/// The weighted distance to one side of one neighbour, computed wide so
/// nothing overflows.
fn weighted_distance(moved: &Rectangle, other: &Rectangle, side: NearestSide) -> (d: i128)
    requires
        spec_rect_bounded(*moved),
        spec_rect_bounded(*other),
    ensures
        d == spec_weighted_dist(*moved, *other, side),
{
    let cx: i128 = 2 * (moved.x as i128) + (moved.width as i128);
    let cy: i128 = 2 * (moved.y as i128) + (moved.height as i128);
    let (px, py): (i128, i128) = match side {
        NearestSide::East => (2 * (other.x as i128), 2 * (other.y as i128) + (other.height as i128)),
        NearestSide::West => (
            2 * ((other.x as i128) + (other.width as i128)),
            2 * (other.y as i128) + (other.height as i128),
        ),
        NearestSide::North => (2 * (other.x as i128) + (other.width as i128), 2 * (other.y as i128)),
        NearestSide::South => (
            2 * (other.x as i128) + (other.width as i128),
            2 * ((other.y as i128) + (other.height as i128)),
        ),
    };
    let dx = px - cx;
    let dy = py - cy;
    proof {
        assert(-0x100000000i128 <= dx && dx <= 0x100000000i128);
        assert(-0x100000000i128 <= dy && dy <= 0x100000000i128);
        assert(dx * dx <= 0x10000000000000000i128 && dx * dx >= 0) by (nonlinear_arith)
            requires
                -0x100000000i128 <= dx && dx <= 0x100000000i128,
        ;
        assert(dy * dy <= 0x10000000000000000i128 && dy * dy >= 0) by (nonlinear_arith)
            requires
                -0x100000000i128 <= dy && dy <= 0x100000000i128,
        ;
    }
    let d2 = dx * dx + dy * dy;
    match side {
        NearestSide::East => 5 * d2,
        NearestSide::West => 5 * d2,
        NearestSide::North => 4 * d2,
        NearestSide::South => 4 * d2,
    }
}

/// Repositions the moved rectangle against the nearest neighbour: for
/// each neighbour the east and west edge midpoints count five fourths of
/// their squared distance to the moved centre, the north and south ones
/// count it plain; the first strict minimum of the scan wins; the moved
/// rectangle attaches flush to that side, is clamped to overlap the
/// neighbour by at least the margin, and each axis snaps to exact
/// alignment when within the margin.
#[verifier::rlimit(80)]
pub fn display(new_region: &mut Rectangle, other_displays: &Vec<Rectangle>)
    requires
        spec_rect_bounded(*old(new_region)),
        forall|i: int|
            0 <= i < other_displays@.len() ==> spec_rect_bounded(#[trigger] other_displays@[i]),
    ensures
        *final(new_region) == spec_display(*old(new_region), other_displays@),
        -3 * MAX_COORD - 4 <= final(new_region).x <= 3 * MAX_COORD + 4,
        -3 * MAX_COORD - 4 <= final(new_region).y <= 3 * MAX_COORD + 4,
        final(new_region).width == old(new_region).width,
        final(new_region).height == old(new_region).height,
{
    let moved = *new_region;
    let ghost others = other_displays@;
    let mut nearest: i128 = i128::MAX;
    let mut nearest_region = Rectangle { x: 0, y: 0, width: 0, height: 0 };
    let mut nearest_side = NearestSide::East;
    let ghost mut best_t: int = 0;
    let mut c: usize = 0;
    while c < other_displays.len()
        invariant
            0 <= c <= others.len(),
            others == other_displays@,
            moved == *old(new_region),
            *new_region == moved,
            spec_rect_bounded(moved),
            forall|i: int| 0 <= i < others.len() ==> spec_rect_bounded(#[trigger] others[i]),
            spec_rect_bounded(nearest_region),
            c == 0 ==> nearest == i128::MAX && nearest_region == (Rectangle {
                x: 0,
                y: 0,
                width: 0,
                height: 0,
            }) && nearest_side == NearestSide::East,
            c > 0 ==> {
                &&& 0 <= best_t < 4 * c
                &&& nearest == spec_pair_dist(moved, others, best_t)
                &&& nearest_region == others[best_t / 4]
                &&& nearest_side == spec_side_of(best_t)
                &&& nearest < i128::MAX
                &&& forall|u: int|
                    0 <= u < 4 * c ==> #[trigger] spec_pair_dist(moved, others, u) >= nearest as int
                &&& forall|u: int|
                    0 <= u < best_t ==> #[trigger] spec_pair_dist(moved, others, u)
                        > nearest as int
            },
        decreases others.len() - c,
    {
        let other_display = other_displays[c];
        let eastward = weighted_distance(&moved, &other_display, NearestSide::East);
        let westward = weighted_distance(&moved, &other_display, NearestSide::West);
        let northward = weighted_distance(&moved, &other_display, NearestSide::North);
        let southward = weighted_distance(&moved, &other_display, NearestSide::South);
        let mut nearer = false;

        if nearest > eastward {
            nearest = eastward;
            nearest_side = NearestSide::East;
            nearer = true;
            proof {
                best_t = 4 * c;
            }
        }
        if nearest > westward {
            nearest = westward;
            nearest_side = NearestSide::West;
            nearer = true;
            proof {
                best_t = 4 * c + 1;
            }
        }
        if nearest > northward {
            nearest = northward;
            nearest_side = NearestSide::North;
            nearer = true;
            proof {
                best_t = 4 * c + 2;
            }
        }
        if nearest > southward {
            nearest = southward;
            nearest_side = NearestSide::South;
            nearer = true;
            proof {
                best_t = 4 * c + 3;
            }
        }
        if nearer {
            nearest_region = other_display;
        }
        proof {
            if c == 0 && !nearer {
                assert(spec_pair_dist(moved, others, 0) < i128::MAX);
                assert(false);
            }
            assert((4 * c) / 4 == c && (4 * c + 1) / 4 == c && (4 * c + 2) / 4 == c && (4 * c + 3)
                / 4 == c) by (nonlinear_arith);
            assert forall|u: int| 4 * c <= u < 4 * (c + 1) implies #[trigger] spec_pair_dist(
                moved,
                others,
                u,
            ) >= nearest as int by {
                assert(u / 4 == c) by (nonlinear_arith)
                    requires
                        4 * c <= u < 4 * (c + 1),
                ;
                assert(u == 4 * c || u == 4 * c + 1 || u == 4 * c + 2 || u == 4 * c + 3);
            }
            assert forall|u: int| 0 <= u < best_t implies #[trigger] spec_pair_dist(
                moved,
                others,
                u,
            ) > nearest as int by {
                if u >= 4 * c {
                    assert(u / 4 == c) by (nonlinear_arith)
                        requires
                            4 * c <= u,
                            u < 4 * c + 4,
                    ;
                    assert(u == 4 * c || u == 4 * c + 1 || u == 4 * c + 2 || u == 4 * c + 3);
                }
            }
        }
        c = c + 1;
    }
    proof {
        if others.len() > 0 {
            assert(spec_is_winner(moved, others, best_t));
            assert(spec_winner_index(moved, others) == best_t) by {
                let w = spec_winner_index(moved, others);
                assert(spec_is_winner(moved, others, w));
                if w < best_t {
                    assert(spec_pair_dist(moved, others, w) > spec_pair_dist(
                        moved,
                        others,
                        best_t,
                    ));
                }
                if best_t < w {
                    assert(spec_pair_dist(moved, others, best_t) > spec_pair_dist(
                        moved,
                        others,
                        w,
                    ));
                }
            }
            assert(best_t / 4 < others.len()) by (nonlinear_arith)
                requires
                    0 <= best_t < 4 * others.len(),
            ;
        }
        assert(spec_rect_bounded(nearest_region));
    }

    match nearest_side {
        NearestSide::East => {
            new_region.x = nearest_region.x - moved.width;
            let lo = nearest_region.y - moved.height + SNAP_MARGIN;
            let hi = nearest_region.y + nearest_region.height - SNAP_MARGIN;
            let raised = if moved.y >= lo {
                moved.y
            } else {
                lo
            };
            new_region.y = if raised <= hi {
                raised
            } else {
                hi
            };
        },
        NearestSide::North => {
            new_region.y = nearest_region.y - moved.height;
            let lo = nearest_region.x - moved.width + SNAP_MARGIN;
            let hi = nearest_region.x + nearest_region.width - SNAP_MARGIN;
            let raised = if moved.x >= lo {
                moved.x
            } else {
                lo
            };
            new_region.x = if raised <= hi {
                raised
            } else {
                hi
            };
        },
        NearestSide::West => {
            new_region.x = nearest_region.x + nearest_region.width;
            let lo = nearest_region.y - moved.height + SNAP_MARGIN;
            let hi = nearest_region.y + nearest_region.height - SNAP_MARGIN;
            let raised = if moved.y >= lo {
                moved.y
            } else {
                lo
            };
            new_region.y = if raised <= hi {
                raised
            } else {
                hi
            };
        },
        NearestSide::South => {
            new_region.y = nearest_region.y + nearest_region.height;
            let lo = nearest_region.x - moved.width + SNAP_MARGIN;
            let hi = nearest_region.x + nearest_region.width - SNAP_MARGIN;
            let raised = if moved.x >= lo {
                moved.x
            } else {
                lo
            };
            new_region.x = if raised <= hi {
                raised
            } else {
                hi
            };
        },
    }
    proof {
        assert(*new_region == spec_attach(
            moved,
            nearest_region,
            nearest_side,
        ));
    }

    let region = nearest_region;
    let d1: i64 = (new_region.x as i64) - (region.x as i64);
    if -(SNAP_MARGIN as i64) <= d1 && d1 <= SNAP_MARGIN as i64 {
        new_region.x = region.x;
    }
    let d2: i64 = ((new_region.x as i64) + (new_region.width as i64)) - ((region.x as i64)
        + (region.width as i64));
    if -(SNAP_MARGIN as i64) <= d2 && d2 <= SNAP_MARGIN as i64 {
        new_region.x = region.x + region.width - new_region.width;
    }
    let d3: i64 = (new_region.y as i64) - (region.y as i64);
    if -(SNAP_MARGIN as i64) <= d3 && d3 <= SNAP_MARGIN as i64 {
        new_region.y = region.y;
    }
    let d4: i64 = ((new_region.y as i64) + (new_region.height as i64)) - ((region.y as i64)
        + (region.height as i64));
    if -(SNAP_MARGIN as i64) <= d4 && d4 <= SNAP_MARGIN as i64 {
        new_region.y = region.y + region.height - new_region.height;
    }
}


/// The largest mode dimension the layout helpers accept, in pixels.
pub const MAX_MODE_DIMENSION: i32 = 1048576;

/// The smallest and largest scale the layout helpers accept, in
/// thousandths.
pub const MIN_SCALE_1000: i32 = 100;

pub const MAX_SCALE_1000: i32 = 100000;

/// One corrected position for a named head.
#[derive(Clone, Debug, PartialEq, Eq)]
pub struct PositionUpdate {
    pub name: String,
    pub x: i32,
    pub y: i32,
}

/// A dimension divided by the scale, in whole pixels.
pub open spec fn spec_scaled(dim: int, scale_1000: int) -> int {
    (dim * 1000) / scale_1000
}

/// The desk rectangle a head covers: its position, and its present
/// mode's dimensions — swapped for portrait transforms — divided by its
/// scale.  A head with no live present mode covers none.
pub open spec fn spec_head_rect(h: OutputHead) -> Option<Rectangle> {
    match h.current_mode {
        Some(cm) => if spec_has_mode(h.modes@, cm) {
            let md = h.modes@[spec_mode_index_of(h.modes@, cm)];
            let landscape = match h.transform {
                None => true,
                Some(t) => spec_is_landscape(t),
            };
            let w = if landscape {
                md.width as int
            } else {
                md.height as int
            };
            let hh = if landscape {
                md.height as int
            } else {
                md.width as int
            };
            Some(
                Rectangle {
                    x: h.position_x,
                    y: h.position_y,
                    width: spec_scaled(w, h.scale_1000 as int) as i32,
                    height: spec_scaled(hh, h.scale_1000 as int) as i32,
                },
            )
        } else {
            None
        },
        None => None,
    }
}

/// The desk rectangles of the first `upto` heads other than the moved
/// one that are enabled, not mirroring, and on a live mode.
pub open spec fn spec_other_rects(heads: Seq<OutputHead>, name: Seq<char>, upto: int) -> Seq<
    Rectangle,
>
    decreases upto,
{
    if upto <= 0 {
        Seq::<Rectangle>::empty()
    } else {
        let pre = spec_other_rects(heads, name, upto - 1);
        let h = heads[upto - 1];
        if h.name@ != name && h.enabled && h.mirroring is None {
            match spec_head_rect(h) {
                Some(r) => pre.push(r),
                None => pre,
            }
        } else {
            pre
        }
    }
}

/// The heads the renormalization covers — enabled and not mirroring —
/// with their positions, the moved head standing at its corrected place.
pub open spec fn spec_positions(
    heads: Seq<OutputHead>,
    name: Seq<char>,
    moved: Rectangle,
    upto: int,
) -> Seq<(Seq<char>, int, int)>
    decreases upto,
{
    if upto <= 0 {
        Seq::<(Seq<char>, int, int)>::empty()
    } else {
        let pre = spec_positions(heads, name, moved, upto - 1);
        let h = heads[upto - 1];
        if h.enabled && h.mirroring is None {
            if h.name@ == name {
                pre.push((h.name@, moved.x as int, moved.y as int))
            } else {
                pre.push((h.name@, h.position_x as int, h.position_y as int))
            }
        } else {
            pre
        }
    }
}

/// The least first coordinate, starting from the largest machine value
/// as the fold does.
pub open spec fn spec_min_x(s: Seq<(Seq<char>, int, int)>) -> int
    decreases s.len(),
{
    if s.len() == 0 {
        i32::MAX as int
    } else {
        let m = spec_min_x(s.drop_last());
        if s.last().1 < m {
            s.last().1
        } else {
            m
        }
    }
}

/// The least second coordinate, likewise.
pub open spec fn spec_min_y(s: Seq<(Seq<char>, int, int)>) -> int
    decreases s.len(),
{
    if s.len() == 0 {
        i32::MAX as int
    } else {
        let m = spec_min_y(s.drop_last());
        if s.last().2 < m {
            s.last().2
        } else {
            m
        }
    }
}

/// Every covered position shifted by the given offsets.
pub open spec fn spec_shifted(s: Seq<(Seq<char>, int, int)>, ox: int, oy: int) -> Seq<
    (Seq<char>, int, int),
> {
    s.map_values(|t: (Seq<char>, int, int)| (t.0, t.1 - ox, t.2 - oy))
}

/// The corrected positions the caller issues after a move: every
/// enabled, non-mirroring head, shifted by the least coordinates over the
/// whole set, twice, so the layout's bounding box stays anchored at the
/// origin with no negative coordinates.
pub open spec fn spec_final_updates(
    heads: Seq<OutputHead>,
    name: Seq<char>,
    moved: Rectangle,
) -> Seq<(Seq<char>, int, int)> {
    let raw = spec_positions(heads, name, moved, heads.len() as int);
    let s1 = spec_shifted(raw, spec_min_x(raw), spec_min_y(raw));
    spec_shifted(s1, spec_min_x(s1), spec_min_y(s1))
}

/// What the renormalization needs of every head: positions within
/// [`MAX_COORD`], and, where a live present mode stands, sane mode
/// dimensions and scale.
pub open spec fn spec_layout_head_ok(h: OutputHead) -> bool {
    &&& h.wf()
    &&& -MAX_COORD <= h.position_x <= MAX_COORD
    &&& -MAX_COORD <= h.position_y <= MAX_COORD
    &&& match h.current_mode {
        Some(cm) => spec_has_mode(h.modes@, cm) ==> {
            let md = h.modes@[spec_mode_index_of(h.modes@, cm)];
            &&& 0 <= md.width <= MAX_MODE_DIMENSION
            &&& 0 <= md.height <= MAX_MODE_DIMENSION
            &&& MIN_SCALE_1000 <= h.scale_1000 <= MAX_SCALE_1000
        },
        None => true,
    }
}

/// The least first coordinate is the largest machine value or one of the
/// coordinates, and no coordinate is below it.
proof fn lemma_min_x_props(s: Seq<(Seq<char>, int, int)>)
    ensures
        spec_min_x(s) == i32::MAX as int || exists|p: int|
            0 <= p < s.len() && (#[trigger] s[p]).1 == spec_min_x(s),
        forall|p: int| 0 <= p < s.len() ==> spec_min_x(s) <= (#[trigger] s[p]).1,
    decreases s.len(),
{
    if s.len() > 0 {
        lemma_min_x_props(s.drop_last());
        assert(forall|p: int| 0 <= p < s.len() - 1 ==> s.drop_last()[p] == s[p]);
        if s.last().1 < spec_min_x(s.drop_last()) {
            assert(s[s.len() - 1].1 == spec_min_x(s));
        } else {
            if spec_min_x(s.drop_last()) != i32::MAX as int {
                let p = choose|p: int|
                    0 <= p < s.drop_last().len() && (#[trigger] s.drop_last()[p]).1 == spec_min_x(
                        s.drop_last(),
                    );
                assert(s[p].1 == spec_min_x(s));
            }
        }
    }
}

/// The least second coordinate, likewise.
proof fn lemma_min_y_props(s: Seq<(Seq<char>, int, int)>)
    ensures
        spec_min_y(s) == i32::MAX as int || exists|p: int|
            0 <= p < s.len() && (#[trigger] s[p]).2 == spec_min_y(s),
        forall|p: int| 0 <= p < s.len() ==> spec_min_y(s) <= (#[trigger] s[p]).2,
    decreases s.len(),
{
    if s.len() > 0 {
        lemma_min_y_props(s.drop_last());
        assert(forall|p: int| 0 <= p < s.len() - 1 ==> s.drop_last()[p] == s[p]);
        if s.last().2 < spec_min_y(s.drop_last()) {
            assert(s[s.len() - 1].2 == spec_min_y(s));
        } else {
            if spec_min_y(s.drop_last()) != i32::MAX as int {
                let p = choose|p: int|
                    0 <= p < s.drop_last().len() && (#[trigger] s.drop_last()[p]).2 == spec_min_y(
                        s.drop_last(),
                    );
                assert(s[p].2 == spec_min_y(s));
            }
        }
    }
}

/// A vector of updates that spells out the given positions.
pub open spec fn spec_matches_updates(
    v: Seq<PositionUpdate>,
    s: Seq<(Seq<char>, int, int)>,
) -> bool {
    &&& v.len() == s.len()
    &&& forall|i: int|
        0 <= i < v.len() ==> (#[trigger] v[i]).name@ == s[i].0 && v[i].x == s[i].1 && v[i].y
            == s[i].2
}

/// The desk rectangle of one head, or nothing without a live mode.
fn head_rect(h: &OutputHead) -> (r: Option<Rectangle>)
    requires
        spec_layout_head_ok(*h),
    ensures
        r == spec_head_rect(*h),
        match r {
            Some(rect) => spec_rect_bounded(rect) && rect.width >= 0 && rect.height >= 0,
            None => true,
        },
{
    let cm = match h.current_mode {
        Some(cm) => cm,
        None => {
            return None;
        },
    };
    let mi = match find_mode_index(&h.modes, cm) {
        Some(mi) => mi,
        None => {
            return None;
        },
    };
    proof {
        assert(spec_mode_index_of(h.modes@, cm) == mi as int);
    }
    let md = h.modes[mi];
    let landscape = match h.transform {
        None => true,
        Some(t) => crate::transform::is_landscape(t),
    };
    let (w, hh) = if landscape {
        (md.width, md.height)
    } else {
        (md.height, md.width)
    };
    let sw: i64 = ((w as i64) * 1000) / (h.scale_1000 as i64);
    let sh: i64 = ((hh as i64) * 1000) / (h.scale_1000 as i64);
    proof {
        assert(0 <= sw <= MAX_MODE_DIMENSION * 10 && 0 <= sh <= MAX_MODE_DIMENSION * 10)
            by (nonlinear_arith)
            requires
                sw == ((w as i64) * 1000) as int / (h.scale_1000 as i64) as int,
                sh == ((hh as i64) * 1000) as int / (h.scale_1000 as i64) as int,
                0 <= w <= MAX_MODE_DIMENSION,
                0 <= hh <= MAX_MODE_DIMENSION,
                MIN_SCALE_1000 <= h.scale_1000 <= MAX_SCALE_1000,
        ;
    }
    Some(Rectangle { x: h.position_x, y: h.position_y, width: sw as i32, height: sh as i32 })
}

/// Computes the corrected positions after the named head moved: its desk
/// rectangle is attached and snapped against the other enabled,
/// non-mirroring heads by [`display`], and every covered head's
/// coordinates are renormalized against the least over the whole set,
/// twice, so nothing negative persists.  A moved name that resolves to no
/// head with a live present mode yields no updates.
pub fn auto_correct_offsets(heads: &Vec<OutputHead>, output: &String) -> (r: Vec<PositionUpdate>)
    requires
        forall|i: int| 0 <= i < heads@.len() ==> spec_layout_head_ok(#[trigger] heads@[i]),
    ensures
        ({
            let sel = if spec_has_named(heads@, output@) {
                spec_head_rect(heads@[spec_first_named_index(heads@, output@)])
            } else {
                None
            };
            match sel {
                Some(rect) => {
                    let moved = spec_display(
                        rect,
                        spec_other_rects(heads@, output@, heads@.len() as int),
                    );
                    spec_matches_updates(r@, spec_final_updates(heads@, output@, moved))
                },
                None => r@.len() == 0,
            }
        }),
{
    let k = match find_head_by_name(heads, output) {
        Some(k) => k,
        None => {
            return Vec::new();
        },
    };
    proof {
        assert(spec_first_named_index(heads@, output@) == k as int);
    }
    let mut active = match head_rect(&heads[k]) {
        Some(rect) => rect,
        None => {
            return Vec::new();
        },
    };

    let mut others: Vec<Rectangle> = Vec::new();
    let mut i: usize = 0;
    while i < heads.len()
        invariant
            0 <= i <= heads@.len(),
            forall|p: int| 0 <= p < heads@.len() ==> spec_layout_head_ok(#[trigger] heads@[p]),
            others@ == spec_other_rects(heads@, output@, i as int),
            forall|p: int| 0 <= p < others@.len() ==> spec_rect_bounded(#[trigger] others@[p]),
            spec_rect_bounded(active),
        decreases heads@.len() - i,
    {
        let eligible = !(*output == heads[i].name) && heads[i].enabled && heads[i].mirroring.is_none();
        if eligible {
            match head_rect(&heads[i]) {
                Some(rect) => {
                    others.push(rect);
                },
                None => {},
            }
        }
        i = i + 1;
    }

    display(&mut active, &others);
    let ghost moved = active;

    let mut raw: Vec<PositionUpdate> = Vec::new();
    let mut i: usize = 0;
    while i < heads.len()
        invariant
            0 <= i <= heads@.len(),
            forall|p: int| 0 <= p < heads@.len() ==> spec_layout_head_ok(#[trigger] heads@[p]),
            moved == active,
            -3 * MAX_COORD - 4 <= active.x <= 3 * MAX_COORD + 4,
            -3 * MAX_COORD - 4 <= active.y <= 3 * MAX_COORD + 4,
            spec_matches_updates(raw@, spec_positions(heads@, output@, moved, i as int)),
            forall|p: int|
                0 <= p < raw@.len() ==> -3 * MAX_COORD - 4 <= (#[trigger] raw@[p]).x <= 3
                    * MAX_COORD + 4 && -3 * MAX_COORD - 4 <= raw@[p].y <= 3 * MAX_COORD + 4,
        decreases heads@.len() - i,
    {
        if heads[i].enabled && heads[i].mirroring.is_none() {
            if *output == heads[i].name {
                raw.push(
                    PositionUpdate { name: heads[i].name.clone(), x: active.x, y: active.y },
                );
            } else {
                raw.push(
                    PositionUpdate {
                        name: heads[i].name.clone(),
                        x: heads[i].position_x,
                        y: heads[i].position_y,
                    },
                );
            }
        }
        i = i + 1;
    }
    let ghost raw_spec = spec_positions(heads@, output@, moved, heads@.len() as int);

    let mut min_x: i32 = i32::MAX;
    let mut min_y: i32 = i32::MAX;
    let mut i: usize = 0;
    while i < raw.len()
        invariant
            0 <= i <= raw@.len(),
            spec_matches_updates(raw@, raw_spec),
            min_x == spec_min_x(raw_spec.take(i as int)),
            min_y == spec_min_y(raw_spec.take(i as int)),
        decreases raw@.len() - i,
    {
        if raw[i].x < min_x {
            min_x = raw[i].x;
        }
        if raw[i].y < min_y {
            min_y = raw[i].y;
        }
        proof {
            assert(raw_spec.take(i + 1).drop_last() =~= raw_spec.take(i as int));
        }
        i = i + 1;
    }
    proof {
        assert(raw_spec.take(raw_spec.len() as int) =~= raw_spec);
        lemma_min_x_props(raw_spec);
        lemma_min_y_props(raw_spec);
        assert(-3 * MAX_COORD - 4 <= min_x as int) by {
            if spec_min_x(raw_spec) != i32::MAX as int {
                let p = choose|p: int|
                    0 <= p < raw_spec.len() && (#[trigger] raw_spec[p]).1 == spec_min_x(raw_spec);
                assert(raw@[p].x == raw_spec[p].1);
            }
        }
        assert(-3 * MAX_COORD - 4 <= min_y as int) by {
            if spec_min_y(raw_spec) != i32::MAX as int {
                let p = choose|p: int|
                    0 <= p < raw_spec.len() && (#[trigger] raw_spec[p]).2 == spec_min_y(raw_spec);
                assert(raw@[p].y == raw_spec[p].2);
            }
        }
    }

    let mut shifted: Vec<PositionUpdate> = Vec::new();
    let ghost shifted_spec = spec_shifted(raw_spec, min_x as int, min_y as int);
    let mut i: usize = 0;
    while i < raw.len()
        invariant
            0 <= i <= raw@.len(),
            spec_matches_updates(raw@, raw_spec),
            shifted_spec == spec_shifted(raw_spec, min_x as int, min_y as int),
            -3 * MAX_COORD - 4 <= min_x <= i32::MAX,
            -3 * MAX_COORD - 4 <= min_y <= i32::MAX,
            raw@.len() > 0 ==> min_x <= raw@[0].x && min_y <= raw@[0].y,
            forall|p: int|
                0 <= p < raw@.len() ==> min_x <= (#[trigger] raw@[p]).x && min_y <= raw@[p].y
                    && -3 * MAX_COORD - 4 <= raw@[p].x <= 3 * MAX_COORD + 4 && -3 * MAX_COORD - 4
                    <= raw@[p].y <= 3 * MAX_COORD + 4,
            spec_matches_updates(shifted@, shifted_spec.take(i as int)),
        decreases raw@.len() - i,
    {
        let ux = raw[i].x - min_x;
        let uy = raw[i].y - min_y;
        shifted.push(PositionUpdate { name: raw[i].name.clone(), x: ux, y: uy });
        proof {
            assert(shifted_spec.take(i + 1) =~= shifted_spec.take(i as int).push(
                shifted_spec[i as int],
            ));
        }
        i = i + 1;
    }
    proof {
        assert(shifted_spec.take(shifted_spec.len() as int) =~= shifted_spec);
    }

    let mut min_x2: i32 = i32::MAX;
    let mut min_y2: i32 = i32::MAX;
    let mut i: usize = 0;
    while i < shifted.len()
        invariant
            0 <= i <= shifted@.len(),
            spec_matches_updates(shifted@, shifted_spec),
            min_x2 == spec_min_x(shifted_spec.take(i as int)),
            min_y2 == spec_min_y(shifted_spec.take(i as int)),
        decreases shifted@.len() - i,
    {
        if shifted[i].x < min_x2 {
            min_x2 = shifted[i].x;
        }
        if shifted[i].y < min_y2 {
            min_y2 = shifted[i].y;
        }
        proof {
            assert(shifted_spec.take(i + 1).drop_last() =~= shifted_spec.take(i as int));
        }
        i = i + 1;
    }
    proof {
        assert(shifted_spec.take(shifted_spec.len() as int) =~= shifted_spec);
        lemma_min_x_props(shifted_spec);
        lemma_min_y_props(shifted_spec);
        assert(0 <= min_x2 as int) by {
            if spec_min_x(shifted_spec) != i32::MAX as int {
                let p = choose|p: int|
                    0 <= p < shifted_spec.len() && (#[trigger] shifted_spec[p]).1 == spec_min_x(
                        shifted_spec,
                    );
                assert(shifted_spec[p].1 == raw_spec[p].1 - min_x);
            }
        }
        assert(0 <= min_y2 as int) by {
            if spec_min_y(shifted_spec) != i32::MAX as int {
                let p = choose|p: int|
                    0 <= p < shifted_spec.len() && (#[trigger] shifted_spec[p]).2 == spec_min_y(
                        shifted_spec,
                    );
                assert(shifted_spec[p].2 == raw_spec[p].2 - min_y);
            }
        }
    }

    let ghost final_spec = spec_shifted(shifted_spec, min_x2 as int, min_y2 as int);
    let mut result: Vec<PositionUpdate> = Vec::new();
    let mut i: usize = 0;
    while i < shifted.len()
        invariant
            0 <= i <= shifted@.len(),
            spec_matches_updates(shifted@, shifted_spec),
            final_spec == spec_shifted(shifted_spec, min_x2 as int, min_y2 as int),
            0 <= min_x2 <= i32::MAX,
            0 <= min_y2 <= i32::MAX,
            forall|p: int|
                0 <= p < shifted@.len() ==> min_x2 <= (#[trigger] shifted@[p]).x && min_y2
                    <= shifted@[p].y && 0 <= shifted@[p].x && 0 <= shifted@[p].y,
            spec_matches_updates(result@, final_spec.take(i as int)),
        decreases shifted@.len() - i,
    {
        let ux = shifted[i].x - min_x2;
        let uy = shifted[i].y - min_y2;
        result.push(PositionUpdate { name: shifted[i].name.clone(), x: ux, y: uy });
        proof {
            assert(final_spec.take(i + 1) =~= final_spec.take(i as int).push(
                final_spec[i as int],
            ));
        }
        i = i + 1;
    }
    proof {
        assert(final_spec.take(final_spec.len() as int) =~= final_spec);
    }
    result
}

} // verus!
