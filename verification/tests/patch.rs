use parametric_lod::patch::{depth_of, decode_code, Axis, EncodedPatch, ParamInterval, PARAM_ONE};

#[test]
fn root_is_the_unit_square() {
    let root = EncodedPatch::root(7);
    assert_eq!(root, EncodedPatch { u: 1, v: 1, instance: 7 });
    assert!(root.is_valid());
    let rect = root.decode();
    assert_eq!(rect.u, ParamInterval { lo: 0, hi: PARAM_ONE });
    assert_eq!(rect.v, ParamInterval { lo: 0, hi: PARAM_ONE });
}

#[test]
fn split_shifts_the_code_and_records_the_half() {
    let root = EncodedPatch::root(3);
    let (lower, upper) = root.split(Axis::U);
    assert_eq!(lower, EncodedPatch { u: 2, v: 1, instance: 3 });
    assert_eq!(upper, EncodedPatch { u: 3, v: 1, instance: 3 });
    let (lower_v, upper_v) = upper.split(Axis::V);
    assert_eq!(lower_v, EncodedPatch { u: 3, v: 2, instance: 3 });
    assert_eq!(upper_v, EncodedPatch { u: 3, v: 3, instance: 3 });
}

#[test]
fn decode_halves_the_parent_interval() {
    assert_eq!(decode_code(2), ParamInterval { lo: 0, hi: PARAM_ONE / 2 });
    assert_eq!(decode_code(3), ParamInterval { lo: PARAM_ONE / 2, hi: PARAM_ONE });
    assert_eq!(decode_code(0b101), ParamInterval { lo: PARAM_ONE / 4, hi: PARAM_ONE / 2 });
    assert_eq!(
        decode_code(0b1110),
        ParamInterval { lo: PARAM_ONE / 4 * 3, hi: PARAM_ONE / 8 * 7 }
    );
}

#[test]
fn decode_of_the_deepest_code_is_one_unit_wide() {
    assert_eq!(decode_code(u32::MAX), ParamInterval { lo: PARAM_ONE - 1, hi: PARAM_ONE });
    assert_eq!(decode_code(PARAM_ONE), ParamInterval { lo: 0, hi: 1 });
}

#[test]
fn depth_is_the_position_of_the_leading_one() {
    assert_eq!(depth_of(0), 0);
    assert_eq!(depth_of(1), 0);
    assert_eq!(depth_of(2), 1);
    assert_eq!(depth_of(3), 1);
    assert_eq!(depth_of(0b1_0000), 4);
    assert_eq!(depth_of(u32::MAX), 31);
}

#[test]
fn codes_at_the_deepest_level_cannot_be_split() {
    let deep = EncodedPatch { u: PARAM_ONE, v: 1, instance: 0 };
    assert!(!deep.can_split(Axis::U));
    assert!(deep.can_split(Axis::V));
    let invalid = EncodedPatch { u: 0, v: 1, instance: 0 };
    assert!(!invalid.is_valid());
    assert!(!invalid.can_split(Axis::V));
    assert_eq!(Axis::U.other(), Axis::V);
    assert_eq!(Axis::V.other(), Axis::U);
}

#[test]
fn three_rounds_of_subdivision_tile_the_unit_square() {
    let mut patches = vec![EncodedPatch::root(0)];
    for round in 0..3 {
        let mut next = Vec::new();
        for patch in &patches {
            // Alternate the axis by round and by patch to mix the shapes.
            let axis = if (round + patch.u) % 2 == 0 { Axis::U } else { Axis::V };
            let (lower, upper) = patch.split(axis);
            next.push(lower);
            next.push(upper);
        }
        patches = next;
    }
    assert_eq!(patches.len(), 8);
    let mut area: u128 = 0;
    for (i, a) in patches.iter().enumerate() {
        let ra = a.decode();
        area += (ra.u.hi - ra.u.lo) as u128 * (ra.v.hi - ra.v.lo) as u128;
        for b in &patches[i + 1..] {
            let rb = b.decode();
            let overlap_u = ra.u.lo < rb.u.hi && rb.u.lo < ra.u.hi;
            let overlap_v = ra.v.lo < rb.v.hi && rb.v.lo < ra.v.hi;
            assert!(!(overlap_u && overlap_v));
        }
    }
    assert_eq!(area, (PARAM_ONE as u128) * (PARAM_ONE as u128));
}
