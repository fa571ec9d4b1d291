use voxel_store::chunk::{BoundingBox, Chunk};

#[test]
fn serialized_size_is_header_plus_payload() {
    let bbox = BoundingBox { x: 0, y: 0, z: 0, extent: 16.0f32.to_bits() };
    let chunk = Chunk::new(vec![1, 2, 3, 4, 5], bbox);
    assert_eq!(chunk.serialized_size(), 21);
    let empty = Chunk::new(Vec::new(), bbox);
    assert_eq!(empty.serialized_size(), 16);
}

#[test]
fn serialize_into_writes_header_then_payload() {
    let bbox = BoundingBox {
        x: 1.5f32.to_bits(),
        y: (-2.0f32).to_bits(),
        z: 0.25f32.to_bits(),
        extent: 1024.0f32.to_bits(),
    };
    let payload: Vec<u8> = (0u8..40).collect();
    let chunk = Chunk::new(payload.clone(), bbox);
    let mut buffer = vec![0xaau8; chunk.serialized_size()];
    chunk.serialize_into(&mut buffer);
    assert_eq!(&buffer[0..4], &1.5f32.to_le_bytes());
    assert_eq!(&buffer[4..8], &(-2.0f32).to_le_bytes());
    assert_eq!(&buffer[8..12], &0.25f32.to_le_bytes());
    assert_eq!(&buffer[12..16], &1024.0f32.to_le_bytes());
    assert_eq!(&buffer[16..], &payload[..]);
}
