use cairo_trace::builtins::{
    BuiltinKind, BuiltinSegment, BuiltinSegments, BuiltinsError,
};

fn seg(begin_addr: u32, stop_ptr: u32) -> BuiltinSegment {
    BuiltinSegment { begin_addr, stop_ptr }
}

#[test]
fn absent_segments_validate() {
    let b = BuiltinSegments::default();
    assert_eq!(b.validate(), Ok(()));
    assert_eq!(b.segment_for(BuiltinKind::Pedersen), None);
}

#[test]
fn segment_for_returns_the_recorded_range() {
    let b = BuiltinSegments {
        range_check_bits_128: Some(seg(100, 164)),
        ..BuiltinSegments::default()
    };
    assert_eq!(b.segment_for(BuiltinKind::RangeCheckBits128), Some(seg(100, 164)));
    assert_eq!(b.segment_for(BuiltinKind::Bitwise), None);
}

#[test]
fn disjoint_segments_validate() {
    let b = BuiltinSegments {
        pedersen: Some(seg(100, 164)),
        bitwise: Some(seg(164, 200)),
        range_check_bits_96: Some(seg(300, 300)),
        ..BuiltinSegments::default()
    };
    assert_eq!(b.validate(), Ok(()));
}

#[test]
fn overlapping_segments_are_rejected() {
    let b = BuiltinSegments {
        pedersen: Some(seg(100, 164)),
        poseidon: Some(seg(163, 200)),
        ..BuiltinSegments::default()
    };
    assert_eq!(
        b.validate(),
        Err(BuiltinsError::OverlappingSegments(
            BuiltinKind::Pedersen,
            BuiltinKind::Poseidon
        ))
    );
}

#[test]
fn unordered_segment_is_rejected() {
    let b = BuiltinSegments {
        ecdsa: Some(seg(50, 40)),
        ..BuiltinSegments::default()
    };
    assert_eq!(b.validate(), Err(BuiltinsError::InvalidSegment(BuiltinKind::Ecdsa)));
}

#[test]
fn validated_ranges_share_no_address() {
    let b = BuiltinSegments {
        keccak: Some(seg(0, 32)),
        mul_mod: Some(seg(32, 64)),
        ..BuiltinSegments::default()
    };
    assert_eq!(b.validate(), Ok(()));
    let k = b.segment_for(BuiltinKind::Keccak).unwrap();
    let m = b.segment_for(BuiltinKind::MulMod).unwrap();
    for a in 0u32..70 {
        let in_k = k.begin_addr <= a && a < k.stop_ptr;
        let in_m = m.begin_addr <= a && a < m.stop_ptr;
        assert!(!(in_k && in_m));
    }
}
