//! Encoded patches: locations in the subdivision tree of the unit square.
//!
//! A patch is a pair of codes, one per parameter axis. A code starts as `1`
//! (the whole unit interval); each subdivision shifts it left by one bit and
//! records in the new low bit which half was taken (`0` lower, `1` upper).
//! The leading `1` is a sentinel that marks the depth.

use vstd::prelude::*;
use vstd::arithmetic::power2::{pow2, lemma_pow2_unfold, lemma2_to64, lemma_pow2_strictly_increases};

verus! {

/// The unit interval in fixed point: parameter bounds are counted in units of
/// `1 / PARAM_ONE`, which is exact for every code a `u32` can hold.
pub const PARAM_ONE: u32 = 0x8000_0000;

/// The deepest subdivision level a `u32` code can record.
pub const MAX_DEPTH: u32 = 31;

/// A parameter axis of a patch.
#[derive(Clone, Copy, Debug, PartialEq, Eq, Structural)]
pub enum Axis {
    U,
    V,
}

/// A patch of one instance, located by its two codes.
#[derive(Clone, Copy, Debug, PartialEq, Eq, Structural)]
pub struct EncodedPatch {
    pub u: u32,
    pub v: u32,
    pub instance: u32,
}

/// A half-open interval `[lo, hi)` of one parameter, in units of `1 / PARAM_ONE`.
#[derive(Clone, Copy, Debug, PartialEq, Eq, Structural)]
pub struct ParamInterval {
    pub lo: u32,
    pub hi: u32,
}

/// The axis-aligned rectangle of parameter space that a patch covers.
#[derive(Clone, Copy, Debug, PartialEq, Eq, Structural)]
pub struct ParamRect {
    pub u: ParamInterval,
    pub v: ParamInterval,
}

/// Number of subdivisions recorded in a code: the position of its leading one.
pub open spec fn code_depth(code: nat) -> nat
    decreases code,
{
    if code <= 1 {
        0
    } else {
        1 + code_depth(code / 2)
    }
}

/// The interval `[lo, hi)` that a code denotes: the root is the unit interval,
/// and each further bit selects the lower or the upper half of its parent.
pub open spec fn code_span(code: nat) -> (int, int)
    decreases code,
{
    if code <= 1 {
        (0, PARAM_ONE as int)
    } else {
        let (lo, hi) = code_span(code / 2);
        let mid = (lo + hi) / 2;
        if code % 2 == 0 {
            (lo, mid)
        } else {
            (mid, hi)
        }
    }
}

/// A code can be subdivided once more without losing its sentinel bit.
pub open spec fn code_splittable(code: u32) -> bool {
    1 <= code < PARAM_ONE
}

impl Axis {
    /// The other axis.
    pub fn other(self) -> (r: Axis)
        ensures
            r != self,
    {
        match self {
            Axis::U => Axis::V,
            Axis::V => Axis::U,
        }
    }
}

impl ParamInterval {
    /// The interval as a pair of mathematical integers.
    pub open spec fn bounds(self) -> (int, int) {
        (self.lo as int, self.hi as int)
    }
}

impl EncodedPatch {
    /// Both codes carry their sentinel bit.
    pub open spec fn valid(self) -> bool {
        self.u >= 1 && self.v >= 1
    }

    /// The code along one axis.
    pub open spec fn code(self, axis: Axis) -> u32 {
        match axis {
            Axis::U => self.u,
            Axis::V => self.v,
        }
    }

    /// Total number of subdivisions that led from the root to this patch.
    pub open spec fn depth(self) -> nat {
        code_depth(self.u as nat) + code_depth(self.v as nat)
    }

    /// The patch can be split along `axis`.
    pub open spec fn splittable(self, axis: Axis) -> bool {
        self.valid() && code_splittable(self.code(axis))
    }

    /// The half of this patch along `axis` selected by `upper`.
    pub open spec fn child(self, axis: Axis, upper: bool) -> EncodedPatch {
        let bit: u32 = if upper { 1 } else { 0 };
        match axis {
            Axis::U => EncodedPatch { u: (2 * self.u + bit) as u32, v: self.v, instance: self.instance },
            Axis::V => EncodedPatch { u: self.u, v: (2 * self.v + bit) as u32, instance: self.instance },
        }
    }

    /// The point `(x, y)`, in units of `1 / PARAM_ONE`, lies in this patch.
    pub open spec fn contains(self, x: int, y: int) -> bool {
        let (ulo, uhi) = code_span(self.u as nat);
        let (vlo, vhi) = code_span(self.v as nat);
        ulo <= x < uhi && vlo <= y < vhi
    }

    /// The root patch of an instance: the whole unit square.
    pub fn root(instance: u32) -> (p: EncodedPatch)
        ensures
            p == (EncodedPatch { u: 1, v: 1, instance }),
            p.valid(),
            p.depth() == 0,
    {
        EncodedPatch { u: 1, v: 1, instance }
    }

    /// Whether both codes carry their sentinel bit.
    pub fn is_valid(&self) -> (b: bool)
        ensures
            b == self.valid(),
    {
        self.u >= 1 && self.v >= 1
    }

    /// Whether the patch can be split along `axis` once more.
    pub fn can_split(&self, axis: Axis) -> (b: bool)
        ensures
            b == self.splittable(axis),
    {
        let code: u32 = match axis {
            Axis::U => self.u,
            Axis::V => self.v,
        };
        self.u >= 1 && self.v >= 1 && code < PARAM_ONE
    }

    /// Splits the patch in two along `axis`: the lower half, then the upper.
    pub fn split(&self, axis: Axis) -> (halves: (EncodedPatch, EncodedPatch))
        requires
            self.splittable(axis),
        ensures
            halves.0 == self.child(axis, false),
            halves.1 == self.child(axis, true),
            halves.0.valid() && halves.1.valid(),
            halves.0.depth() == self.depth() + 1,
            halves.1.depth() == self.depth() + 1,
    {
        proof {
            lemma_child_depth(self.code(axis));
        }
        match axis {
            Axis::U => (
                EncodedPatch { u: 2 * self.u, v: self.v, instance: self.instance },
                EncodedPatch { u: 2 * self.u + 1, v: self.v, instance: self.instance },
            ),
            Axis::V => (
                EncodedPatch { u: self.u, v: 2 * self.v, instance: self.instance },
                EncodedPatch { u: self.u, v: 2 * self.v + 1, instance: self.instance },
            ),
        }
    }

    /// Recovers the rectangle of parameter space that the patch covers.
    pub fn decode(&self) -> (rect: ParamRect)
        requires
            self.valid(),
        ensures
            rect.u.bounds() == code_span(self.u as nat),
            rect.v.bounds() == code_span(self.v as nat),
            rect.u.lo < rect.u.hi <= PARAM_ONE,
            rect.v.lo < rect.v.hi <= PARAM_ONE,
    {
        ParamRect { u: decode_code(self.u), v: decode_code(self.v) }
    }
}

/// Number of subdivisions recorded in `code`.
pub fn depth_of(code: u32) -> (d: u32)
    ensures
        d == code_depth(code as nat),
        d <= MAX_DEPTH,
        code >= 1 ==> code >> d == 1,
{
    let mut d: u32 = 0;
    let mut rest: u32 = code;
    proof {
        lemma_depth_bound(code);
        assert(code >> 0u32 == code) by (bit_vector);
    }
    while rest > 1
        invariant
            d + code_depth(rest as nat) == code_depth(code as nat),
            code_depth(code as nat) <= MAX_DEPTH,
            d <= MAX_DEPTH,
            code >= 1 ==> rest >= 1,
            d < 32 ==> rest == code >> d,
        decreases rest,
    {
        proof {
            let c = code;
            let k = d;
            assert(k < 31 ==> (c >> k) / 2 == c >> ((k + 1) as u32)) by (bit_vector);
        }
        rest = rest / 2;
        d = d + 1;
    }
    d
}

/// The interval that `code` denotes.
pub fn decode_code(code: u32) -> (span: ParamInterval)
    requires
        code >= 1,
    ensures
        span.bounds() == code_span(code as nat),
        span.lo < span.hi <= PARAM_ONE,
{
    let depth: u32 = depth_of(code);
    let mut lo: u32 = 0;
    let mut hi: u32 = PARAM_ONE;
    let mut k: u32 = depth;
    proof {
        lemma_span_width(code);
    }
    while k > 0
        invariant
            k <= depth <= MAX_DEPTH,
            code >> k >= 1,
            (lo as int, hi as int) == code_span((code >> k) as nat),
            lo <= hi <= PARAM_ONE,
        decreases k,
    {
        k = k - 1;
        let mid: u32 = lo + (hi - lo) / 2;
        proof {
            let c = code;
            let j = k;
            assert(j < 31 ==> (c >> j) / 2 == c >> ((j + 1) as u32)) by (bit_vector);
            assert(j < 31 ==> (c >> j) % 2 == (c >> j) & 1) by (bit_vector);
        }
        if (code >> k) & 1 == 0 {
            hi = mid;
        } else {
            lo = mid;
        }
    }
    proof {
        assert(code >> 0u32 == code) by (bit_vector);
    }
    ParamInterval { lo, hi }
}

/// A code below `2^(n+1)` records at most `n` subdivisions.
proof fn lemma_depth_below(code: nat, n: nat)
    requires
        code < pow2(n + 1),
    ensures
        code_depth(code) <= n,
    decreases n,
{
    lemma_pow2_unfold(n + 1);
    if code > 1 {
        if n == 0 {
            lemma2_to64();
        } else {
            lemma_depth_below(code / 2, (n - 1) as nat);
        }
    }
}

/// Every `u32` code records at most `MAX_DEPTH` subdivisions.
pub proof fn lemma_depth_bound(code: u32)
    ensures
        code_depth(code as nat) <= MAX_DEPTH,
{
    lemma2_to64();
    lemma_depth_below(code as nat, 31);
}

/// A code lies between the powers of two that its depth names.
pub proof fn lemma_depth_brackets(code: nat)
    requires
        code >= 1,
    ensures
        pow2(code_depth(code)) <= code < pow2(code_depth(code) + 1),
    decreases code,
{
    lemma2_to64();
    if code > 1 {
        lemma_depth_brackets(code / 2);
        lemma_pow2_unfold(code_depth(code));
        lemma_pow2_unfold(code_depth(code) + 1);
    }
}

/// Both children of a code are one level deeper than the code.
pub proof fn lemma_child_depth(code: u32)
    requires
        1 <= code < PARAM_ONE,
    ensures
        code_depth((2 * code) as nat) == code_depth(code as nat) + 1,
        code_depth((2 * code + 1) as nat) == code_depth(code as nat) + 1,
{
    assert((2 * code) as nat / 2 == code as nat);
    assert((2 * code + 1) as nat / 2 == code as nat);
}

/// The interval of a code is as wide as its depth says: `PARAM_ONE / 2^depth`.
pub proof fn lemma_span_width(code: u32)
    requires
        code >= 1,
    ensures
        code_span(code as nat).1 - code_span(code as nat).0 == pow2(
            (MAX_DEPTH - code_depth(code as nat)) as nat,
        ),
        0 <= code_span(code as nat).0 < code_span(code as nat).1 <= PARAM_ONE,
    decreases code,
{
    lemma2_to64();
    lemma_depth_bound(code);
    if code > 1 {
        let parent = (code / 2) as u32;
        lemma_span_width(parent);
        lemma_depth_bound(parent);
        let d = code_depth(parent as nat);
        assert(code_depth(code as nat) == d + 1);
        lemma_pow2_unfold((MAX_DEPTH - d) as nat);
    }
}

/// The two halves of a splittable code split its interval at the midpoint:
/// they are non-empty, adjacent and together make up the parent.
pub proof fn lemma_split_span(code: u32)
    requires
        code_splittable(code),
    ensures
        code_span((2 * code) as nat).0 == code_span(code as nat).0,
        code_span((2 * code) as nat).1 == code_span((2 * code + 1) as nat).0,
        code_span((2 * code + 1) as nat).1 == code_span(code as nat).1,
        code_span((2 * code) as nat).0 < code_span((2 * code) as nat).1,
        code_span((2 * code + 1) as nat).0 < code_span((2 * code + 1) as nat).1,
{
    lemma2_to64();
    lemma_span_width(code);
    lemma_depth_brackets(code as nat);
    let d = code_depth(code as nat);
    if d > 31 {
        lemma_pow2_strictly_increases(31, d);
    }
    assert(d <= 30);
    lemma_pow2_unfold((MAX_DEPTH - d) as nat);
    assert((2 * code) as nat / 2 == code as nat);
    assert((2 * code + 1) as nat / 2 == code as nat);
}

} // verus!
