//! Surfaces as the subdivision kernel sees them.
//!
//! A model's patch function, its transform and the camera decide together how
//! large a patch appears on screen. The kernel needs no more of them than
//! that measure, so a surface is anything that can measure a patch.

use vstd::prelude::*;
use vstd::arithmetic::power2::pow2;
use crate::kernel::PatchMeasure;
use crate::patch::{EncodedPatch, code_depth, depth_of};

verus! {

/// A parametric surface in one frame, as far as the level-of-detail stage
/// needs it.
pub trait ParametricSurface {
    /// The measure of `patch` on this surface.
    spec fn measured(&self, patch: EncodedPatch) -> PatchMeasure;

    /// Measures `patch`: projects it to the screen and reports the extents of
    /// its edges and whether it lies out of view.
    fn measure(&self, patch: &EncodedPatch) -> (m: PatchMeasure)
        requires
            patch.valid(),
        ensures
            m == self.measured(*patch),
    ;
}

/// A flat quad that faces the camera and fills a rectangle of the screen,
/// `width` by `height` in units of `1 / EXTENT_UNIT` texels, either wholly in
/// view or wholly out of it. Every instance looks the same.
#[derive(Clone, Copy, Debug, PartialEq, Eq, Structural)]
pub struct ScreenQuad {
    pub width: u64,
    pub height: u64,
    pub in_view: bool,
}

impl ParametricSurface for ScreenQuad {
    /// Each subdivision along an axis halves the extent along that axis.
    open spec fn measured(&self, patch: EncodedPatch) -> PatchMeasure {
        PatchMeasure {
            extent_u: (self.width as nat / pow2(code_depth(patch.u as nat))) as u64,
            extent_v: (self.height as nat / pow2(code_depth(patch.v as nat))) as u64,
            outside: !self.in_view,
        }
    }

    fn measure(&self, patch: &EncodedPatch) -> (m: PatchMeasure) {
        let depth_u: u32 = depth_of(patch.u);
        let depth_v: u32 = depth_of(patch.v);
        proof {
            vstd::bits::lemma_u64_shr_is_div(self.width, depth_u as u64);
            vstd::bits::lemma_u64_shr_is_div(self.height, depth_v as u64);
        }
        PatchMeasure {
            extent_u: self.width >> depth_u,
            extent_v: self.height >> depth_v,
            outside: !self.in_view,
        }
    }
}

} // verus!
