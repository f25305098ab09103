//! Indirect dispatch and draw records.
//!
//! The passes of a frame are driven by records that earlier work fills in:
//! a dispatch record says how many workgroups the next pass runs, a draw
//! record how many instances of a bin's mesh are drawn.

use vstd::prelude::*;
use crate::limits::BIN_COUNT;

verus! {

/// Size in bytes of one indirect draw record, which is also the distance
/// between the records of two neighbouring bins.
pub const DRAW_ARGS_STRIDE: u64 = 20;

/// Workgroup counts of an indirect dispatch.
#[derive(Clone, Copy, Debug, PartialEq, Eq, Structural)]
pub struct DispatchIndirectArgs {
    pub x: u32,
    pub y: u32,
    pub z: u32,
}

/// Arguments of an indirect indexed draw.
#[derive(Clone, Copy, Debug, PartialEq, Eq, Structural)]
pub struct DrawIndexedIndirectArgs {
    pub index_count: u32,
    pub instance_count: u32,
    pub first_index: u32,
    pub base_vertex: i32,
    pub first_instance: u32,
}

/// Number of workgroups of `group_size` items that cover `items` items:
/// `items / group_size`, rounded up.
pub open spec fn spec_workgroups(items: nat, group_size: nat) -> nat
    recommends
        group_size > 0,
{
    if items % group_size == 0 {
        items / group_size
    } else {
        items / group_size + 1
    }
}

/// Number of workgroups of `group_size` items that cover `items` items.
pub fn workgroups(items: u32, group_size: u32) -> (groups: u32)
    requires
        group_size > 0,
    ensures
        groups == spec_workgroups(items as nat, group_size as nat),
        groups * group_size >= items,
        groups > 0 ==> (groups - 1) * group_size < items,
{
    proof {
        let q = items as int / group_size as int;
        let r = items as int % group_size as int;
        assert(items as int == group_size as int * q + r) by {
            vstd::arithmetic::div_mod::lemma_fundamental_div_mod(items as int, group_size as int);
        }
        assert(q * group_size as int == group_size as int * q) by (nonlinear_arith);
        assert((q + 1) * group_size as int == group_size as int * q + group_size as int)
            by (nonlinear_arith);
        assert((q - 1) * group_size as int == group_size as int * q - group_size as int)
            by (nonlinear_arith);
        assert(q >= 0 ==> group_size as int * q >= q) by (nonlinear_arith)
            requires
                group_size >= 1,
        ;
    }
    let groups: u32 = if items % group_size == 0 {
        items / group_size
    } else {
        items / group_size + 1
    };
    groups
}

impl DispatchIndirectArgs {
    /// The record a queue is reset with: no workgroup along `x`.
    pub open spec fn spec_reset() -> DispatchIndirectArgs {
        DispatchIndirectArgs { x: 0, y: 1, z: 1 }
    }

    /// The dispatch runs enough workgroups of `group_size` items for `items` items.
    pub open spec fn covers(self, items: nat, group_size: nat) -> bool {
        self.y == 1 && self.z == 1 && self.x * group_size >= items
    }

    /// The record a queue is reset with.
    pub fn reset() -> (args: DispatchIndirectArgs)
        ensures
            args == Self::spec_reset(),
    {
        DispatchIndirectArgs { x: 0, y: 1, z: 1 }
    }

    /// The record that drives a dispatch over `items` items in workgroups of
    /// `group_size`.
    pub fn for_items(items: u32, group_size: u32) -> (args: DispatchIndirectArgs)
        requires
            group_size > 0,
        ensures
            args == (DispatchIndirectArgs {
                x: spec_workgroups(items as nat, group_size as nat) as u32,
                y: 1,
                z: 1,
            }),
            args.covers(items as nat, group_size as nat),
    {
        DispatchIndirectArgs { x: workgroups(items, group_size), y: 1, z: 1 }
    }

    /// Raises `x` so that the dispatch covers a queue that has grown to
    /// `items` items: an atomic maximum, which never lowers `x`.
    pub fn raise_to_cover(&mut self, items: u32, group_size: u32)
        requires
            group_size > 0,
        ensures
            final(self).y == old(self).y,
            final(self).z == old(self).z,
            final(self).x == if old(self).x >= spec_workgroups(items as nat, group_size as nat) {
                old(self).x as nat
            } else {
                spec_workgroups(items as nat, group_size as nat)
            },
            final(self).x * group_size >= items,
    {
        let needed: u32 = workgroups(items, group_size);
        if self.x < needed {
            self.x = needed;
        } else {
            assert(self.x * group_size >= needed * group_size) by (nonlinear_arith)
                requires
                    self.x >= needed,
                    group_size > 0,
            ;
        }
    }
}

impl DrawIndexedIndirectArgs {
    /// The static record of a bin whose mesh has `index_count` indices: no
    /// instances yet, and no offsets.
    pub open spec fn spec_for_mesh(index_count: u32) -> DrawIndexedIndirectArgs {
        DrawIndexedIndirectArgs {
            index_count,
            instance_count: 0,
            first_index: 0,
            base_vertex: 0,
            first_instance: 0,
        }
    }

    /// The record with `instance_count` replaced and every other field kept.
    pub open spec fn with_instances(self, instance_count: u32) -> DrawIndexedIndirectArgs {
        DrawIndexedIndirectArgs { instance_count, ..self }
    }

    /// The static record of a bin whose mesh has `index_count` indices.
    pub fn for_mesh(index_count: u32) -> (args: DrawIndexedIndirectArgs)
        ensures
            args == Self::spec_for_mesh(index_count),
    {
        DrawIndexedIndirectArgs {
            index_count,
            instance_count: 0,
            first_index: 0,
            base_vertex: 0,
            first_instance: 0,
        }
    }
}

/// Byte offset of bin `bin`'s record in a model's indirect draw buffer.
pub fn draw_args_offset(bin: usize) -> (offset: u64)
    requires
        bin < BIN_COUNT,
    ensures
        offset == bin * DRAW_ARGS_STRIDE,
{
    (bin as u64) * DRAW_ARGS_STRIDE
}

} // verus!
