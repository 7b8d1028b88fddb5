use kx_engine::graphics::base::shader::{BindingInfo, PushConstantInfo, ShaderMeta};

fn words(ws: &[u32]) -> Vec<u8> {
    ws.iter().flat_map(|w| w.to_le_bytes()).collect()
}

#[test]
fn deserialize_reads_bindings_and_push_constants() {
    // stage COMPUTE, two bindings, one push-constant range
    let blob = words(&[0x20, 2, 0, 0, 3, 1, 1, 4, 6, 0, 1, 16, 64]);
    let meta = ShaderMeta::deserialize(&blob);
    assert_eq!(meta.stage, 0x20);
    assert_eq!(
        meta.bindings,
        vec![
            BindingInfo { set: 0, binding: 0, descriptor_type: 3, count: 1, stage: 0x20 },
            BindingInfo { set: 1, binding: 4, descriptor_type: 6, count: 0, stage: 0x20 },
        ]
    );
    assert_eq!(meta.push_constants, vec![PushConstantInfo { offset: 16, size: 64, stage: 0x20 }]);
}

#[test]
fn deserialize_ignores_trailing_bytes() {
    let mut blob = words(&[0x10, 0, 0]);
    blob.extend_from_slice(&[0xde, 0xad]);
    let meta = ShaderMeta::deserialize(&blob);
    assert_eq!(meta.stage, 0x10);
    assert!(meta.bindings.is_empty());
    assert!(meta.push_constants.is_empty());
}

#[test]
fn deserialize_reads_little_endian_words() {
    let blob = vec![0x01, 0x02, 0x03, 0x04, 0, 0, 0, 0, 0, 0, 0, 0];
    assert_eq!(ShaderMeta::deserialize(&blob).stage, 0x0403_0201);
}

#[test]
fn deserialize_keeps_negative_descriptor_types() {
    let blob = words(&[1, 1, 0, 0, 0xffff_ffff, 1, 0]);
    assert_eq!(ShaderMeta::deserialize(&blob).bindings[0].descriptor_type, -1);
}

#[test]
fn serialize_then_deserialize_gives_back_the_metadata() {
    let meta = ShaderMeta {
        stage: 0x80,
        bindings: vec![
            BindingInfo { set: 2, binding: 7, descriptor_type: 7, count: 3, stage: 0x80 },
            BindingInfo { set: 0, binding: 1, descriptor_type: -5, count: 0, stage: 0x80 },
        ],
        push_constants: vec![
            PushConstantInfo { offset: 0, size: 8, stage: 0x80 },
            PushConstantInfo { offset: 8, size: 4, stage: 0x80 },
        ],
    };
    let bytes = meta.serialize();
    assert_eq!(bytes.len(), 12 + 16 * 2 + 8 * 2);
    let back = ShaderMeta::deserialize(&bytes);
    assert_eq!(back.stage, meta.stage);
    assert_eq!(back.bindings, meta.bindings);
    assert_eq!(back.push_constants, meta.push_constants);
}

#[test]
fn deserialize_then_serialize_gives_back_the_blob() {
    let blob = words(&[0x10, 1, 3, 2, 1, 1, 1, 32, 16]);
    assert_eq!(ShaderMeta::deserialize(&blob).serialize(), blob);
}

#[test]
fn default_meta_is_empty() {
    let meta = ShaderMeta::default();
    assert_eq!(meta.stage, 0);
    assert!(meta.bindings.is_empty());
    assert!(meta.push_constants.is_empty());
}
