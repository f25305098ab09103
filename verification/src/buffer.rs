//! Typed GPU buffers as the host accounts for them: how large a buffer is
//! allocated, what it may be used for, whether a value fits, and how much a
//! copy between two buffers moves.

use vstd::prelude::*;

verus! {

/// Size in bytes of the head of a patch queue: its length and its capacity.
pub const QUEUE_HEADER_SIZE: u64 = 8;

/// Distance in bytes between two patches of a queue: three 32-bit words.
pub const PATCH_STRIDE: u64 = 12;

/// What a buffer may be used for.
#[derive(Clone, Copy, Debug, PartialEq, Eq, Structural)]
pub struct BufferUsages {
    pub uniform: bool,
    pub storage: bool,
    pub indirect: bool,
    pub copy_src: bool,
    pub copy_dst: bool,
}

/// A value does not fit the buffer it is written to.
#[derive(Clone, Copy, Debug, PartialEq, Eq, Structural)]
pub struct EncodingError {
    /// Serialized size of the value.
    pub needed: u64,
    /// Size of the buffer.
    pub available: u64,
}

/// A buffer of a fixed size and use.
#[derive(Clone, Copy, Debug, PartialEq, Eq, Structural)]
pub struct TypedBuffer {
    pub size: u64,
    pub usage: BufferUsages,
}

/// The smaller of two sizes.
pub open spec fn spec_min_size(a: u64, b: u64) -> u64 {
    if a <= b {
        a
    } else {
        b
    }
}

impl BufferUsages {
    /// No use at all.
    pub open spec fn spec_none() -> BufferUsages {
        BufferUsages {
            uniform: false,
            storage: false,
            indirect: false,
            copy_src: false,
            copy_dst: false,
        }
    }

    /// Every use that either of the two allows.
    pub open spec fn spec_union(self, other: BufferUsages) -> BufferUsages {
        BufferUsages {
            uniform: self.uniform || other.uniform,
            storage: self.storage || other.storage,
            indirect: self.indirect || other.indirect,
            copy_src: self.copy_src || other.copy_src,
            copy_dst: self.copy_dst || other.copy_dst,
        }
    }

    /// No use at all.
    pub fn none() -> (usage: BufferUsages)
        ensures
            usage == Self::spec_none(),
    {
        BufferUsages {
            uniform: false,
            storage: false,
            indirect: false,
            copy_src: false,
            copy_dst: false,
        }
    }

    /// Every use that either of the two allows.
    pub fn union(self, other: BufferUsages) -> (usage: BufferUsages)
        ensures
            usage == self.spec_union(other),
    {
        BufferUsages {
            uniform: self.uniform || other.uniform,
            storage: self.storage || other.storage,
            indirect: self.indirect || other.indirect,
            copy_src: self.copy_src || other.copy_src,
            copy_dst: self.copy_dst || other.copy_dst,
        }
    }
}

impl TypedBuffer {
    /// A uniform buffer for a value of `value_size` bytes. It can be bound as
    /// a uniform and written to, and used as `extra_usage` allows.
    pub fn new_uniform(value_size: u64, extra_usage: BufferUsages) -> (buffer: TypedBuffer)
        ensures
            buffer.size == value_size,
            buffer.usage == (BufferUsages { uniform: true, copy_dst: true, ..extra_usage }),
    {
        TypedBuffer {
            size: value_size,
            usage: BufferUsages { uniform: true, copy_dst: true, ..extra_usage },
        }
    }

    /// A storage buffer for a value of `value_size` bytes, used as
    /// `extra_usage` allows.
    pub fn new_storage(value_size: u64, extra_usage: BufferUsages) -> (buffer: TypedBuffer)
        ensures
            buffer.size == value_size,
            buffer.usage == (BufferUsages { storage: true, ..extra_usage }),
    {
        TypedBuffer { size: value_size, usage: BufferUsages { storage: true, ..extra_usage } }
    }

    /// A storage buffer for a head of `head_size` bytes followed by an array
    /// of `capacity` elements, `stride` bytes apart.
    pub fn new_storage_with_runtime_array(
        head_size: u64,
        stride: u64,
        capacity: u64,
        extra_usage: BufferUsages,
    ) -> (buffer: TypedBuffer)
        requires
            head_size + capacity * stride <= u64::MAX,
        ensures
            buffer.size == head_size + capacity * stride,
            buffer.usage == (BufferUsages { storage: true, ..extra_usage }),
    {
        proof {
            assert(capacity * stride >= 0) by (nonlinear_arith);
        }
        TypedBuffer {
            size: head_size + capacity * stride,
            usage: BufferUsages { storage: true, ..extra_usage },
        }
    }

    /// Checks a write of a value whose serialized size is `value_size`: it
    /// fails exactly when the value is larger than the buffer.
    pub fn write(&self, value_size: u64) -> (written: Result<(), EncodingError>)
        ensures
            written is Ok == (value_size <= self.size),
            written matches Err(e) ==> e == (EncodingError {
                needed: value_size,
                available: self.size,
            }),
    {
        if value_size <= self.size {
            Ok(())
        } else {
            Err(EncodingError { needed: value_size, available: self.size })
        }
    }

    /// Number of bytes that copying all of `source` into this buffer moves:
    /// as many as both buffers hold.
    pub fn copy_all_from(&self, source: &TypedBuffer) -> (bytes: u64)
        ensures
            bytes == spec_min_size(source.size, self.size),
    {
        if source.size <= self.size {
            source.size
        } else {
            self.size
        }
    }
}

/// Size in bytes of a patch queue or render bin of `capacity` patches.
pub fn patch_queue_size(capacity: u32) -> (size: u64)
    ensures
        size == QUEUE_HEADER_SIZE + capacity * PATCH_STRIDE,
{
    QUEUE_HEADER_SIZE + (capacity as u64) * PATCH_STRIDE
}

} // verus!
