use vstd::prelude::*;

use crate::frame::Frame;

verus! {

/// Per-point color tests on a captured image.
pub trait ImageChecker {
    /// The pixel at `point` lies inside the image and has the RGB value `rgb`.
    spec fn point_has_rgb(&self, point: [u32; 2], rgb: [u8; 3]) -> bool;

    fn check_point_rgb(&self, point: [u32; 2], target_rgb: [u8; 3]) -> (r: bool)
        ensures
            r == self.point_has_rgb(point, target_rgb),
    ;

    /// Whether the pixel at `point` has any of the RGB values in `target_rgb`.
    fn check_point_rgb_list(&self, point: [u32; 2], target_rgb: &[[u8; 3]]) -> (r: bool)
        ensures
            r == exists|i: int|
                0 <= i < target_rgb@.len() && self.point_has_rgb(point, #[trigger] target_rgb@[i]),
    {
        let mut i: usize = 0;
        while i < target_rgb.len()
            invariant
                i <= target_rgb@.len(),
                forall|j: int| 0 <= j < i ==> !self.point_has_rgb(point, #[trigger] target_rgb@[j]),
            decreases target_rgb@.len() - i,
        {
            if self.check_point_rgb(point, target_rgb[i]) {
                return true;
            }
            i += 1;
        }
        false
    }
}

impl ImageChecker for Frame {
    open spec fn point_has_rgb(&self, point: [u32; 2], rgb: [u8; 3]) -> bool {
        self@.pixel_is(point[0] as int, point[1] as int, rgb)
    }

    fn check_point_rgb(&self, point: [u32; 2], target_rgb: [u8; 3]) -> (r: bool) {
        self.pixel_is(point[0], point[1], target_rgb)
    }
}

} // verus!
