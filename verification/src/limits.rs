//! Fixed constants of the pipeline.

use vstd::prelude::*;

verus! {

/// Number of render bins, one per target patch size.
pub const BIN_COUNT: usize = 5;

/// Target on-screen patch sizes in texels, by bin.
pub const PATCH_SIZES: [u32; 5] = [2, 4, 8, 16, 32];

/// Capacity of every work queue and render bin.
pub const MAX_PATCH_COUNT: u32 = 100_000;

/// Number of ping-pong rounds; each round is two subdivision passes.
pub const SUBDIVISION_ROUNDS: u32 = 4;

/// Number of subdivision passes per model and frame.
pub const PASS_COUNT: u32 = 8;

/// Patches that one workgroup of the subdivision kernel consumes.
pub const PATCHES_PER_WORKGROUP: u32 = 1;

/// Fixed-point scale of screen extents and of the threshold factor:
/// `EXTENT_UNIT` stands for one texel, and for a threshold factor of one.
pub const EXTENT_UNIT: u64 = 10_000;

/// Smallest threshold factor, `0.0001`, in units of `1 / EXTENT_UNIT`.
pub const MIN_THRESHOLD: u64 = 1;

/// Largest threshold factor, `100000`, in units of `1 / EXTENT_UNIT`.
pub const MAX_THRESHOLD: u64 = 1_000_000_000;

/// Target patch size of a bin.
pub open spec fn spec_patch_size(bin: int) -> int {
    if bin <= 0 {
        2
    } else if bin == 1 {
        4
    } else if bin == 2 {
        8
    } else if bin == 3 {
        16
    } else {
        32
    }
}

/// Target patch size of bin `bin`.
pub fn patch_size(bin: usize) -> (size: u32)
    requires
        bin < BIN_COUNT,
    ensures
        size == spec_patch_size(bin as int),
        size == PATCH_SIZES[bin as int],
{
    PATCH_SIZES[bin]
}

/// Number of splits per side of the quad mesh drawn for bin `bin`:
/// one quad for every two texels of the bin's target size.
pub fn mesh_splits(bin: usize) -> (splits: u32)
    requires
        bin < BIN_COUNT,
    ensures
        splits == spec_patch_size(bin as int) / 2 - 1,
{
    patch_size(bin) / 2 - 1
}

} // verus!
