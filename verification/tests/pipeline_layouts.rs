use kx_engine::graphics::base::pipeline::{
    plan_layouts, shader_code, ComputePipelineBuilder, LayoutBinding, PushConstantRange,
};
use kx_engine::graphics::base::shader::{BindingInfo, PushConstantInfo, ShaderMeta};

fn binding(set: u32, binding: u32, descriptor_type: i32, count: u32, stage: u32) -> BindingInfo {
    BindingInfo { set, binding, descriptor_type, count, stage }
}

fn words(ws: &[u32]) -> Vec<u8> {
    ws.iter().flat_map(|w| w.to_le_bytes()).collect()
}

#[test]
fn stages_sharing_a_binding_join_their_flags() {
    let mesh = ShaderMeta {
        stage: 0x80,
        bindings: vec![binding(0, 1, 7, 2, 0x80), binding(0, 0, 3, 1, 0x80)],
        push_constants: vec![PushConstantInfo { offset: 0, size: 16, stage: 0x80 }],
    };
    let fragment = ShaderMeta {
        stage: 0x10,
        // same key as the mesh stage's first binding: type and count of the
        // first stage are kept, the flags are joined
        bindings: vec![binding(0, 1, 6, 9, 0x10)],
        push_constants: vec![PushConstantInfo { offset: 16, size: 4, stage: 0x10 }],
    };
    let plan = plan_layouts(&[mesh, fragment]);
    assert_eq!(plan.set_layouts.len(), 1);
    assert_eq!(
        plan.set_layouts[0],
        vec![
            LayoutBinding { binding: 0, descriptor_type: 3, descriptor_count: 1, stage_flags: 0x80 },
            LayoutBinding { binding: 1, descriptor_type: 7, descriptor_count: 2, stage_flags: 0x90 },
        ]
    );
    assert_eq!(
        plan.push_constant_ranges,
        vec![
            PushConstantRange { stage_flags: 0x80, offset: 0, size: 16 },
            PushConstantRange { stage_flags: 0x10, offset: 16, size: 4 },
        ]
    );
}

#[test]
fn unused_sets_below_the_largest_get_empty_layouts() {
    let meta = ShaderMeta {
        stage: 0x20,
        bindings: vec![binding(2, 5, 1, 0, 0x20), binding(0, 3, 1, 4, 0x20)],
        push_constants: vec![],
    };
    let plan = plan_layouts(&[meta]);
    assert_eq!(plan.set_layouts.len(), 3);
    assert_eq!(
        plan.set_layouts[0],
        vec![LayoutBinding { binding: 3, descriptor_type: 1, descriptor_count: 4, stage_flags: 0x20 }]
    );
    assert!(plan.set_layouts[1].is_empty());
    // a runtime-sized array (count 0) gets one descriptor
    assert_eq!(
        plan.set_layouts[2],
        vec![LayoutBinding { binding: 5, descriptor_type: 1, descriptor_count: 1, stage_flags: 0x20 }]
    );
}

#[test]
fn no_bindings_still_give_one_empty_set() {
    let plan = plan_layouts(&[ShaderMeta::default()]);
    assert_eq!(plan.set_layouts.len(), 1);
    assert!(plan.set_layouts[0].is_empty());
    assert!(plan.push_constant_ranges.is_empty());
    let plan = plan_layouts(&[]);
    assert_eq!(plan.set_layouts.len(), 1);
}

#[test]
fn shader_code_reads_little_endian_words_and_drops_the_tail() {
    let spv = vec![0x03, 0x02, 0x23, 0x07, 0x00, 0x00, 0x01, 0x00, 0xff];
    assert_eq!(shader_code(&spv), vec![0x0723_0203, 0x0001_0000]);
    assert!(shader_code(&[1, 2, 3]).is_empty());
}

#[test]
fn compute_builder_plans_code_and_layout() {
    let spv = vec![1, 0, 0, 0, 2, 0, 0, 0];
    let meta = words(&[0x20, 1, 0, 0, 3, 1, 0]);
    let plan = ComputePipelineBuilder::new().shader(&spv, &meta).build();
    assert_eq!(plan.code, vec![1, 2]);
    assert_eq!(
        plan.layout.set_layouts,
        vec![vec![LayoutBinding { binding: 0, descriptor_type: 3, descriptor_count: 1, stage_flags: 0x20 }]]
    );
    assert!(plan.layout.push_constant_ranges.is_empty());
}

#[test]
fn empty_compute_builder_has_no_code() {
    let plan = ComputePipelineBuilder::new().build();
    assert!(plan.code.is_empty());
    assert_eq!(plan.layout.set_layouts.len(), 1);
}
