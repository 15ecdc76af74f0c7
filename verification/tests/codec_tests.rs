use cairo_trace::codec::{encode, CodecError, EncodedMemoryValueId, MemoryValueId};

#[test]
fn encode_then_decode_small() {
    for index in [0usize, 1, 5, 11, 0x3FFF_FFFE] {
        let id = encode(true, index).unwrap();
        assert_eq!(id.decode().unwrap(), MemoryValueId::Small(index));
    }
}

#[test]
fn encode_then_decode_wide() {
    for index in [0usize, 1, 7, 0x3FFF_FFFF] {
        let id = encode(false, index).unwrap();
        assert_eq!(id.decode().unwrap(), MemoryValueId::F252(index));
    }
}

#[test]
fn encoding_uses_the_documented_tags() {
    assert_eq!(encode(true, 5).unwrap(), EncodedMemoryValueId(5));
    assert_eq!(encode(true, 0).unwrap(), EncodedMemoryValueId(0));
    assert_eq!(encode(false, 7).unwrap(), EncodedMemoryValueId(0x4000_0007));
    assert_eq!(encode(false, 0).unwrap(), EncodedMemoryValueId(0x4000_0000));
}

#[test]
fn small_and_wide_ids_never_collide() {
    let small = encode(true, 42).unwrap();
    let wide = encode(false, 42).unwrap();
    assert_ne!(small, wide);
    assert_eq!(small.decode().unwrap(), MemoryValueId::Small(42));
    assert_eq!(wide.decode().unwrap(), MemoryValueId::F252(42));
}

#[test]
fn encode_rejects_index_past_tag_range() {
    assert_eq!(encode(true, 0x3FFF_FFFF), Err(CodecError::EncodingOverflow));
    assert_eq!(encode(false, 0x4000_0000), Err(CodecError::EncodingOverflow));
    assert_eq!(encode(true, usize::MAX), Err(CodecError::EncodingOverflow));
}

#[test]
fn decode_rejects_integers_no_encoding_produces() {
    assert_eq!(
        EncodedMemoryValueId(0x8000_0000).decode(),
        Err(CodecError::InvalidEncoding)
    );
    assert_eq!(
        EncodedMemoryValueId(u32::MAX).decode(),
        Err(CodecError::InvalidEncoding)
    );
}

#[test]
fn hole_id_decodes_to_empty() {
    assert_eq!(
        EncodedMemoryValueId::empty().decode().unwrap(),
        MemoryValueId::Empty
    );
    assert_eq!(
        EncodedMemoryValueId(0x3FFF_FFFF).decode().unwrap(),
        MemoryValueId::Empty
    );
}
