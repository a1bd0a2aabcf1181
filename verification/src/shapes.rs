//! The shape collection a KML file parses into, and its bounds filter: shapes
//! are kept or dropped whole against a geographic bounding box, never clipped.
//!
//! Positions are integer microdegrees, so the filter's arithmetic is exact.

use vstd::prelude::*;

verus! {

/// A longitude/latitude position in integer microdegrees.
#[derive(Clone, Copy, PartialEq, Eq, Structural, Debug)]
pub struct LonLat {
    pub lon_microdegrees: i64,
    pub lat_microdegrees: i64,
}

/// A geographic bounding box in integer microdegrees.
#[derive(Clone, Copy, PartialEq, Eq, Structural, Debug)]
pub struct GpsBounds {
    pub min_lon: i64,
    pub min_lat: i64,
    pub max_lon: i64,
    pub max_lat: i64,
}

/// Whether a point lies inside the box, boundary included.
pub open spec fn pt_in_bounds(b: GpsBounds, pt: LonLat) -> bool {
    &&& b.min_lon <= pt.lon_microdegrees <= b.max_lon
    &&& b.min_lat <= pt.lat_microdegrees <= b.max_lat
}

impl GpsBounds {
    /// Whether the point lies inside the box, boundary included.
    pub fn contains(&self, pt: LonLat) -> (r: bool)
        ensures
            r == pt_in_bounds(*self, pt),
    {
        self.min_lon <= pt.lon_microdegrees && pt.lon_microdegrees <= self.max_lon
            && self.min_lat <= pt.lat_microdegrees && pt.lat_microdegrees <= self.max_lat
    }
}

/// A point or polyline shape read from a KML file.
#[derive(Debug, PartialEq)]
pub struct Shape {
    pub points: Vec<LonLat>,
}

impl View for Shape {
    type V = Seq<LonLat>;

    open spec fn view(&self) -> Seq<LonLat> {
        self.points@
    }
}

/// Whether a shape passes the bounds filter. With `require_all` every one of
/// its points must lie inside the box: a shape with any single point outside
/// is rejected entirely. Otherwise one point inside suffices.
pub open spec fn keep_shape(pts: Seq<LonLat>, b: GpsBounds, require_all: bool) -> bool {
    if require_all {
        forall|i: int| 0 <= i < pts.len() ==> pt_in_bounds(b, pts[i])
    } else {
        exists|i: int| 0 <= i < pts.len() && pt_in_bounds(b, pts[i])
    }
}

/// The point sequences of a sequence of shapes.
pub open spec fn views_of(shapes: Seq<Shape>) -> Seq<Seq<LonLat>> {
    shapes.map_values(|s: Shape| s@)
}

/// The shapes that pass the bounds filter, whole and in their original order.
pub open spec fn filtered(
    shapes: Seq<Seq<LonLat>>,
    b: GpsBounds,
    require_all: bool,
) -> Seq<Seq<LonLat>>
    decreases shapes.len(),
{
    if shapes.len() == 0 {
        Seq::empty()
    } else {
        let rest = filtered(shapes.drop_last(), b, require_all);
        if keep_shape(shapes.last(), b, require_all) {
            rest.push(shapes.last())
        } else {
            rest
        }
    }
}

/// Whether the shape passes the bounds filter.
fn shape_kept(pts: &Vec<LonLat>, b: &GpsBounds, require_all: bool) -> (r: bool)
    ensures
        r == keep_shape(pts@, *b, require_all),
{
    if require_all {
        let mut i: usize = 0;
        while i < pts.len()
            invariant
                require_all,
                i <= pts@.len(),
                forall|j: int| 0 <= j < i ==> pt_in_bounds(*b, pts@[j]),
            decreases pts@.len() - i,
        {
            if !b.contains(pts[i]) {
                return false;
            }
            i += 1;
        }
        true
    } else {
        let mut i: usize = 0;
        while i < pts.len()
            invariant
                !require_all,
                i <= pts@.len(),
                forall|j: int| 0 <= j < i ==> !pt_in_bounds(*b, pts@[j]),
            decreases pts@.len() - i,
        {
            if b.contains(pts[i]) {
                return true;
            }
            i += 1;
        }
        false
    }
}

/// A copy of a point list.
fn copy_points(pts: &Vec<LonLat>) -> (r: Vec<LonLat>)
    ensures
        r@ == pts@,
{
    let mut r: Vec<LonLat> = Vec::new();
    let mut i: usize = 0;
    while i < pts.len()
        invariant
            i <= pts@.len(),
            r@ == pts@.subrange(0, i as int),
        decreases pts@.len() - i,
    {
        r.push(pts[i]);
        proof {
            assert(pts@.subrange(0, i as int).push(pts@[i as int]) =~= pts@.subrange(0, i + 1));
        }
        i += 1;
    }
    proof {
        assert(pts@.subrange(0, pts@.len() as int) =~= pts@);
    }
    r
}

/// Filters a parsed shape collection against a bounding box. With
/// `require_all_pts_in_bounds` a shape with any single point outside the box
/// is dropped entirely; otherwise a shape stays when at least one of its
/// points lies inside. Kept shapes come back unchanged and in order: nothing
/// is ever truncated to the box.
pub fn filter_shapes(
    shapes: &Vec<Shape>,
    bounds: &GpsBounds,
    require_all_pts_in_bounds: bool,
) -> (kept: Vec<Shape>)
    ensures
        views_of(kept@) == filtered(views_of(shapes@), *bounds, require_all_pts_in_bounds),
{
    let mut kept: Vec<Shape> = Vec::new();
    let mut i: usize = 0;
    while i < shapes.len()
        invariant
            i <= shapes@.len(),
            views_of(kept@) == filtered(
                views_of(shapes@).subrange(0, i as int),
                *bounds,
                require_all_pts_in_bounds,
            ),
        decreases shapes@.len() - i,
    {
        let ghost pre = views_of(shapes@).subrange(0, i as int);
        proof {
            assert(views_of(shapes@).subrange(0, i + 1).drop_last() =~= pre);
            assert(views_of(shapes@).subrange(0, i + 1).last() == shapes@[i as int]@);
        }
        if shape_kept(&shapes[i].points, bounds, require_all_pts_in_bounds) {
            let copied = Shape { points: copy_points(&shapes[i].points) };
            kept.push(copied);
            proof {
                assert(views_of(kept@) =~= filtered(
                    pre,
                    *bounds,
                    require_all_pts_in_bounds,
                ).push(shapes@[i as int]@));
            }
        }
        i += 1;
    }
    proof {
        assert(views_of(shapes@).subrange(0, shapes@.len() as int) =~= views_of(shapes@));
    }
    kept
}

/// Everything the filter returns passed the bounds test and is one of the
/// input shapes, whole: the filter never invents or truncates a shape.
pub proof fn lemma_filtered_shapes_pass(shapes: Seq<Seq<LonLat>>, b: GpsBounds, require_all: bool)
    ensures
        forall|k: int|
            0 <= k < filtered(shapes, b, require_all).len() ==> keep_shape(
                #[trigger] filtered(shapes, b, require_all)[k],
                b,
                require_all,
            ),
        forall|k: int|
            0 <= k < filtered(shapes, b, require_all).len() ==> shapes.contains(
                #[trigger] filtered(shapes, b, require_all)[k],
            ),
    decreases shapes.len(),
{
    if shapes.len() == 0 {
    } else {
        lemma_filtered_shapes_pass(shapes.drop_last(), b, require_all);
        let f = filtered(shapes, b, require_all);
        let fd = filtered(shapes.drop_last(), b, require_all);
        assert forall|k: int|
            0 <= k < f.len() implies keep_shape(f[k], b, require_all) && shapes.contains(
            f[k],
        ) by {
            if keep_shape(shapes.last(), b, require_all) && k == f.len() - 1 {
                assert(f[k] == shapes.last());
                assert(shapes[shapes.len() - 1] == shapes.last());
            } else {
                assert(f[k] == fd[k]);
                let j = choose|j: int|
                    0 <= j < shapes.drop_last().len() && shapes.drop_last()[j] == fd[k];
                assert(shapes[j] == fd[k]);
            }
        }
    }
}

/// Strict-bounds filtering: with `require_all` set, a shape with any single
/// point outside the bounding box does not appear in the filtered collection
/// at all.
pub proof fn lemma_strict_bounds_excludes(
    shapes: Seq<Seq<LonLat>>,
    b: GpsBounds,
    pts: Seq<LonLat>,
    k: int,
)
    requires
        0 <= k < pts.len(),
        !pt_in_bounds(b, pts[k]),
    ensures
        !filtered(shapes, b, true).contains(pts),
{
    lemma_filtered_shapes_pass(shapes, b, true);
    if filtered(shapes, b, true).contains(pts) {
        let j = choose|j: int|
            0 <= j < filtered(shapes, b, true).len() && filtered(shapes, b, true)[j] == pts;
        assert(keep_shape(pts, b, true));
    }
}

} // verus!
