use vstd::prelude::*;
use vstd::arithmetic::div_mod::{
    lemma_div_pos_is_pos,
    lemma_fundamental_div_mod_converse,
    lemma_mod_pos_bound,
    lemma_multiply_divide_lt,
};

use crate::frame::Frame;
use crate::image_checker::ImageChecker;

verus! {

pub type Point = [u32; 2];

pub type Rgb = [u8; 3];

pub type VecRgb = Vec<Rgb>;

/// Number of coordinates that one axis of a region spans. A reversed axis
/// (`s > e`) still visits its start coordinate once.
pub open spec fn axis_len(s: u32, e: u32) -> nat {
    if s <= e {
        (e - s + 1) as nat
    } else {
        1
    }
}

/// The points of the rectangle from `start` to `end`, both inclusive, in
/// column-major order: the outer axis is x, the inner axis is y.
pub open spec fn region_points(start: Point, end: Point) -> Seq<(int, int)> {
    let ny = axis_len(start[1], end[1]);
    Seq::new(
        axis_len(start[0], end[0]) * ny,
        |i: int| (start[0] + i / ny as int, start[1] + i % ny as int),
    )
}

pub open spec fn as_pair(p: Point) -> (int, int) {
    (p[0] as int, p[1] as int)
}

/// A rectangular set of pixel coordinates together with the accepted colors.
#[derive(Clone, Debug)]
pub struct Region {
    pub start: Point,
    pub end: Point,
    pub rgb: VecRgb,
}

/// The pixel at `p` lies inside the frame and has one of the colors `colors`.
pub open spec fn point_matches(frame: &Frame, p: (int, int), colors: Seq<Rgb>) -> bool {
    exists|j: int| 0 <= j < colors.len() && #[trigger] frame@.pixel_is(p.0, p.1, colors[j])
}

impl Region {
    pub open spec fn points(&self) -> Seq<(int, int)> {
        region_points(self.start, self.end)
    }

    /// Some point of the region shows one of the region's colors in `frame`.
    pub open spec fn matches(&self, frame: &Frame) -> bool {
        exists|i: int|
            0 <= i < self.points().len() && point_matches(frame, #[trigger] self.points()[i], self.rgb@)
    }

    /// Whether any point of the region shows any of its colors in `image`.
    /// Points outside the image never match.
    pub fn check_in_image(&self, image: &Frame) -> (r: bool)
        ensures
            r == self.matches(image),
    {
        let ghost pts = self.points();
        let mut it = self.iter();
        let ghost mut k: int = 0;
        loop
            invariant
                0 <= k <= pts.len(),
                it@ == pts.subrange(k, pts.len() as int),
                pts == self.points(),
                forall|i: int| 0 <= i < k ==> !point_matches(image, #[trigger] pts[i], self.rgb@),
            decreases it@.len(),
        {
            match it.next() {
                None => {
                    return false;
                },
                Some(p) => {
                    let hit = image.check_point_rgb_list(p, self.rgb.as_slice());
                    proof {
                        assert(as_pair(p) == pts[k]);
                        if hit {
                            let j = choose|j: int|
                                0 <= j < self.rgb@.len() && image.point_has_rgb(p, #[trigger] self.rgb@[j]);
                            assert(image@.pixel_is(pts[k].0, pts[k].1, self.rgb@[j]));
                        }
                        k = k + 1;
                    }
                    if hit {
                        return true;
                    }
                },
            }
        }
    }

    /// Iterates over the region's points in column-major order.
    pub fn iter(&self) -> (r: PointIter)
        ensures
            r@ == self.points(),
    {
        let r = PointIter {
            start: self.start,
            end: self.end,
            current_x: self.start[0],
            current_y: self.start[1],
            finished: false,
        };
        proof {
            assert(r.current_x - r.start[0] == 0);
            assert(r.pos() == 0);
            assert(r@ =~= self.points());
        }
        r
    }
}

/// The points of a region are exactly those of the rectangle between its
/// corners, both inclusive, where a reversed axis keeps only its start.
pub proof fn lemma_region_points_are_rectangle(start: Point, end: Point, x: int, y: int)
    ensures
        region_points(start, end).contains((x, y)) <==> on_axis(x, start[0], end[0]) && on_axis(
            y,
            start[1],
            end[1],
        ),
{
    let pts = region_points(start, end);
    let nx = axis_len(start[0], end[0]) as int;
    let ny = axis_len(start[1], end[1]) as int;
    if on_axis(x, start[0], end[0]) && on_axis(y, start[1], end[1]) {
        lemma_point_at(start, end, x - start[0], y - start[1]);
        assert(pts[(x - start[0]) * ny + (y - start[1])] == (x, y));
    }
    if pts.contains((x, y)) {
        let i = choose|i: int| 0 <= i < pts.len() && pts[i] == (x, y);
        lemma_div_pos_is_pos(i, ny);
        lemma_mod_pos_bound(i, ny);
        lemma_multiply_divide_lt(i, ny, nx);
        assert(i < ny * nx) by (nonlinear_arith)
            requires
                i < nx * ny,
        ;
    }
}

/// A region whose start and end coincide matches exactly when that single
/// point shows one of the region's colors.
pub proof fn lemma_single_point_region(region: &Region, frame: &Frame)
    requires
        region.start == region.end,
    ensures
        region.matches(frame) == point_matches(frame, as_pair(region.start), region.rgb@),
{
    let pts = region.points();
    assert(region.start[0] == region.end[0] && region.start[1] == region.end[1]);
    assert(axis_len(region.start[0], region.end[0]) == 1);
    assert(axis_len(region.start[1], region.end[1]) == 1);
    assert(pts.len() == 1);
    assert(pts[0] == as_pair(region.start));
}

/// A region none of whose points lies inside the frame never matches,
/// whatever its colors are.
pub proof fn lemma_outside_region_never_matches(region: &Region, frame: &Frame)
    requires
        forall|i: int|
            0 <= i < region.points().len() ==> !frame@.in_bounds(
                (#[trigger] region.points()[i]).0,
                region.points()[i].1,
            ),
    ensures
        !region.matches(frame),
{
}

/// Cursor over the points of a region; see [`Region::iter`].
pub struct PointIter {
    start: Point,
    end: Point,
    current_x: u32,
    current_y: u32,
    finished: bool,
}

pub open spec fn on_axis(v: int, s: u32, e: u32) -> bool {
    v == s || (s <= v <= e)
}

impl PointIter {
    #[verifier::type_invariant]
    spec fn inv(&self) -> bool {
        !self.finished ==> on_axis(self.current_x as int, self.start[0], self.end[0]) && on_axis(
            self.current_y as int,
            self.start[1],
            self.end[1],
        )
    }

    spec fn pos(&self) -> int {
        (self.current_x - self.start[0]) * axis_len(self.start[1], self.end[1]) + (self.current_y
            - self.start[1])
    }
}

impl View for PointIter {
    type V = Seq<(int, int)>;

    /// The points not yet handed out, in order.
    closed spec fn view(&self) -> Seq<(int, int)> {
        let pts = region_points(self.start, self.end);
        if self.finished {
            Seq::empty()
        } else {
            pts.subrange(self.pos(), pts.len() as int)
        }
    }
}

proof fn lemma_point_at(start: Point, end: Point, a: int, b: int)
    requires
        0 <= a < axis_len(start[0], end[0]),
        0 <= b < axis_len(start[1], end[1]),
    ensures
        ({
            let ny = axis_len(start[1], end[1]) as int;
            &&& 0 <= a * ny + b < region_points(start, end).len()
            &&& region_points(start, end)[a * ny + b] == (start[0] + a, start[1] + b)
        }),
{
    let ny = axis_len(start[1], end[1]) as int;
    let nx = axis_len(start[0], end[0]) as int;
    lemma_fundamental_div_mod_converse(a * ny + b, ny, a, b);
    assert(a * ny + b < nx * ny) by (nonlinear_arith)
        requires
            0 <= a < nx,
            0 <= b < ny,
    ;
    assert(0 <= a * ny) by (nonlinear_arith)
        requires
            0 <= a,
            0 <= ny,
    ;
}

impl PointIter {
    /// Hands out the next point, or `None` once every point has been visited.
    pub fn next(&mut self) -> (r: Option<Point>)
        ensures
            old(self)@.len() == 0 ==> r.is_none() && final(self)@ == old(self)@,
            old(self)@.len() > 0 ==> (r matches Some(p) && as_pair(p) == old(self)@[0]
                && final(self)@ == old(self)@.drop_first()),
    {
        proof {
            use_type_invariant(&*self);
        }
        if self.finished {
            return None;
        }
        let ghost pts = region_points(self.start, self.end);
        let ghost ny = axis_len(self.start[1], self.end[1]) as int;
        let ghost nx = axis_len(self.start[0], self.end[0]) as int;
        let ghost a = self.current_x - self.start[0];
        let ghost b = self.current_y - self.start[1];
        proof {
            lemma_point_at(self.start, self.end, a, b);
        }
        let point = [self.current_x, self.current_y];
        if self.current_y < self.end[1] {
            self.current_y = self.current_y + 1;
            proof {
                lemma_point_at(self.start, self.end, a, b + 1);
            }
        } else if self.current_x < self.end[0] {
            self.current_x = self.current_x + 1;
            self.current_y = self.start[1];
            proof {
                lemma_point_at(self.start, self.end, a + 1, 0);
                assert((a + 1) * ny == a * ny + ny) by (nonlinear_arith);
            }
        } else {
            self.finished = true;
            proof {
                assert(nx * ny == (nx - 1) * ny + ny) by (nonlinear_arith);
            }
        }
        proof {
            assert(self@ =~= old(self)@.drop_first());
        }
        Some(point)
    }
}

} // verus!
