//! Bounded patch queues.
//!
//! Work queues and render bins share one shape: a fixed capacity and the
//! patches appended so far. Appending to a full queue drops the patch.

use vstd::prelude::*;
use crate::patch::EncodedPatch;

verus! {

/// What a queue holds: its capacity and its patches, oldest first.
pub struct QueueModel {
    pub capacity: nat,
    pub patches: Seq<EncodedPatch>,
}

/// A queue of patches with a fixed capacity.
#[derive(Debug)]
pub struct PatchQueue {
    capacity: u32,
    patches: Vec<EncodedPatch>,
}

/// A render bin has the shape of a work queue.
pub type RenderBin = PatchQueue;

/// The root patches of instances `0 .. count`, in order.
pub open spec fn root_patches(count: nat) -> Seq<EncodedPatch> {
    Seq::new(count, |i: int| EncodedPatch { u: 1, v: 1, instance: i as u32 })
}

/// Every patch of `patches` carries both sentinel bits.
pub open spec fn all_valid(patches: Seq<EncodedPatch>) -> bool {
    forall|i: int| 0 <= i < patches.len() ==> (#[trigger] patches[i]).valid()
}

/// Every patch of `patches` is valid and at most `bound` subdivisions deep.
pub open spec fn all_within_depth(patches: Seq<EncodedPatch>, bound: nat) -> bool {
    forall|i: int|
        0 <= i < patches.len() ==> (#[trigger] patches[i]).valid() && patches[i].depth() <= bound
}

impl QueueModel {
    /// The length does not exceed the capacity.
    pub open spec fn wf(self) -> bool {
        self.patches.len() <= self.capacity
    }

    /// Number of patches held.
    pub open spec fn len(self) -> nat {
        self.patches.len()
    }

    /// No more patch fits.
    pub open spec fn is_full(self) -> bool {
        self.patches.len() >= self.capacity
    }

    /// The queue with the same capacity and no patches.
    pub open spec fn cleared(self) -> QueueModel {
        QueueModel { capacity: self.capacity, patches: Seq::empty() }
    }

    /// The queue after an append: unchanged when it is full.
    pub open spec fn push(self, patch: EncodedPatch) -> QueueModel {
        if self.is_full() {
            self
        } else {
            QueueModel { capacity: self.capacity, patches: self.patches.push(patch) }
        }
    }

    /// The queue seeded with the root patches of the first instances, as many
    /// as its capacity admits.
    pub open spec fn seeded(self, instance_count: nat) -> QueueModel {
        QueueModel {
            capacity: self.capacity,
            patches: root_patches(
                if instance_count <= self.capacity {
                    instance_count
                } else {
                    self.capacity
                },
            ),
        }
    }
}

impl View for PatchQueue {
    type V = QueueModel;

    closed spec fn view(&self) -> QueueModel {
        QueueModel { capacity: self.capacity as nat, patches: self.patches@ }
    }
}

impl PatchQueue {
    /// An empty queue that holds up to `capacity` patches.
    pub fn new(capacity: u32) -> (q: PatchQueue)
        ensures
            q@ == (QueueModel { capacity: capacity as nat, patches: Seq::empty() }),
            q@.wf(),
    {
        PatchQueue { capacity, patches: Vec::new() }
    }

    /// Number of patches held.
    pub fn len(&self) -> (n: u32)
        requires
            self@.wf(),
        ensures
            n == self@.len(),
            n <= self@.capacity,
    {
        self.patches.len() as u32
    }

    /// Largest number of patches the queue holds.
    pub fn capacity(&self) -> (n: u32)
        ensures
            n == self@.capacity,
    {
        self.capacity
    }

    /// The patch at position `index`.
    pub fn get(&self, index: u32) -> (p: EncodedPatch)
        requires
            index < self@.len(),
        ensures
            p == self@.patches[index as int],
    {
        self.patches[index as usize]
    }

    /// The patches held, oldest first.
    pub fn patches(&self) -> (all: &Vec<EncodedPatch>)
        ensures
            all@ == self@.patches,
    {
        &self.patches
    }

    /// Sets the length to zero.
    pub fn clear(&mut self)
        ensures
            final(self)@ == old(self)@.cleared(),
            final(self)@.wf(),
    {
        self.patches = Vec::new();
    }

    /// Appends a patch unless the queue is full, in which case the patch is
    /// dropped. Returns whether the patch was taken.
    pub fn push(&mut self, patch: EncodedPatch) -> (taken: bool)
        requires
            old(self)@.wf(),
        ensures
            taken == !old(self)@.is_full(),
            final(self)@ == old(self)@.push(patch),
            final(self)@.wf(),
    {
        if self.patches.len() < self.capacity as usize {
            self.patches.push(patch);
            true
        } else {
            false
        }
    }

    /// Takes all patches out of the queue, leaving it empty.
    pub fn take(&mut self) -> (taken: Vec<EncodedPatch>)
        ensures
            taken@ == old(self)@.patches,
            final(self)@ == old(self)@.cleared(),
            final(self)@.wf(),
    {
        let mut taken: Vec<EncodedPatch> = Vec::new();
        std::mem::swap(&mut self.patches, &mut taken);
        taken
    }

    /// Replaces the contents by the root patches of instances
    /// `0 .. instance_count`; instances beyond the capacity are dropped.
    pub fn seed(&mut self, instance_count: u32) -> (seeded: u32)
        ensures
            final(self)@ == old(self)@.seeded(instance_count as nat),
            final(self)@.wf(),
            seeded == final(self)@.len(),
            seeded == if instance_count <= old(self)@.capacity {
                instance_count as nat
            } else {
                old(self)@.capacity
            },
            all_within_depth(final(self)@.patches, 0),
    {
        let count: u32 = if instance_count <= self.capacity {
            instance_count
        } else {
            self.capacity
        };
        let mut roots: Vec<EncodedPatch> = Vec::new();
        let mut i: u32 = 0;
        while i < count
            invariant
                i <= count,
                roots@ == root_patches(i as nat),
            decreases count - i,
        {
            roots.push(EncodedPatch::root(i));
            i = i + 1;
            assert(roots@ =~= root_patches(i as nat));
        }
        self.patches = roots;
        proof {
            lemma_root_patches_shallow(count as nat);
        }
        count
    }
}

/// The root patches are valid and not subdivided.
pub proof fn lemma_root_patches_shallow(count: nat)
    ensures
        all_within_depth(root_patches(count), 0),
        root_patches(count).len() == count,
{
    assert forall|i: int| 0 <= i < count implies (#[trigger] root_patches(count)[i]).valid()
        && root_patches(count)[i].depth() <= 0 by {
        reveal_with_fuel(crate::patch::code_depth, 2);
    }
}

} // verus!
