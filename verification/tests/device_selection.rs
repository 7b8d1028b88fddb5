use kx_engine::graphics::base::device::{
    chain_features, find_graphics_family, find_present_family, has_present_support, unique_queue_families,
    DeviceBuilder, DeviceCandidate, DeviceError, GenericFeature, PhysicalDeviceSelector, SelectError,
    PHYSICAL_DEVICE_TYPE_DISCRETE_GPU,
};
use kx_engine::graphics::base::words::{native_byte_order, ByteOrder};

/// A feature structure with the given sType and feature words.
fn feature(s_type: u32, fields: &[u32]) -> GenericFeature {
    let mut bytes = Vec::new();
    bytes.extend_from_slice(&s_type.to_ne_bytes());
    bytes.extend_from_slice(&[0; 12]);
    for f in fields {
        bytes.extend_from_slice(&f.to_ne_bytes());
    }
    GenericFeature::new(bytes)
}

fn candidate(handle: u64, device_type: i32) -> DeviceCandidate {
    DeviceCandidate {
        handle,
        device_type,
        extensions: Ok(vec![Some(b"VK_KHR_swapchain".to_vec())]),
        queue_flags: vec![0b111],
        surface_support: vec![Ok(true)],
        supported_features: vec![],
    }
}

#[test]
fn zeroed_query_copy_keeps_only_the_structure_type() {
    let f = feature(50, &[1, 1, 0]);
    let q = f.zeroed_query_copy();
    assert_eq!(q.bytes.len(), f.bytes.len());
    assert_eq!(&q.bytes[..4], &50u32.to_ne_bytes());
    assert!(q.bytes[4..].iter().all(|&b| b == 0));
}

#[test]
fn set_p_next_writes_the_address_in_native_order() {
    let mut f = feature(1, &[1]);
    f.set_p_next(0x0102_0304_0506_0708);
    assert_eq!(&f.bytes[8..16], &0x0102_0304_0506_0708u64.to_ne_bytes());
    assert_eq!(&f.bytes[16..], &1u32.to_ne_bytes());
}

#[test]
fn satisfied_by_needs_every_requested_feature() {
    let req = feature(7, &[1, 0, 1]);
    assert!(req.satisfied_by(&feature(7, &[1, 1, 1])));
    assert!(!req.satisfied_by(&feature(7, &[1, 1, 0])));
    // a word other than VK_TRUE does not count as requested
    assert!(feature(7, &[2]).satisfied_by(&feature(7, &[0])));
    // bytes after the last whole word are not compared
    let mut req = feature(7, &[]);
    req.bytes.extend_from_slice(&[1, 0]);
    let mut sup = feature(7, &[]);
    sup.bytes.extend_from_slice(&[0, 0]);
    assert!(req.satisfied_by(&sup));
}

#[test]
fn chain_features_links_each_structure_to_the_next() {
    let mut chain = vec![feature(1, &[1]), feature(2, &[1]), feature(3, &[1])];
    let head = chain_features(&mut chain, &vec![100, 200, 300]);
    assert_eq!(head, 100);
    assert_eq!(&chain[0].bytes[8..16], &200u64.to_ne_bytes());
    assert_eq!(&chain[1].bytes[8..16], &300u64.to_ne_bytes());
    assert_eq!(&chain[2].bytes[8..16], &0u64.to_ne_bytes());
    let mut empty: Vec<GenericFeature> = vec![];
    assert_eq!(chain_features(&mut empty, &vec![]), 0);
}

#[test]
fn graphics_and_present_families_are_the_first_found() {
    assert_eq!(find_graphics_family(&vec![0b100, 0b001, 0b011]), Some(1));
    assert_eq!(find_graphics_family(&vec![0b100, 0b010]), None);
    assert_eq!(find_present_family(&vec![Ok(false), Ok(true), Err(-3)]), Ok(Some(1)));
    assert_eq!(find_present_family(&vec![Ok(false), Err(-3), Ok(true)]), Err(-3));
    assert_eq!(find_present_family(&vec![Ok(false)]), Ok(None));
    assert_eq!(has_present_support(&vec![Ok(false), Ok(true)]), Ok(true));
    assert_eq!(has_present_support(&vec![]), Ok(false));
}

#[test]
fn unique_families_merge_equal_indices() {
    assert_eq!(unique_queue_families(2, 2), vec![2]);
    assert_eq!(unique_queue_families(0, 3), vec![0, 3]);
}

#[test]
fn select_prefers_the_preferred_type() {
    let sel = PhysicalDeviceSelector::new();
    let devices = vec![candidate(1, 1), candidate(2, PHYSICAL_DEVICE_TYPE_DISCRETE_GPU), candidate(3, 1)];
    let pd = sel.select(devices).unwrap();
    assert_eq!(pd.handle(), 2);
}

#[test]
fn select_takes_the_last_preferred_device() {
    let sel = PhysicalDeviceSelector::new();
    let devices = vec![
        candidate(1, PHYSICAL_DEVICE_TYPE_DISCRETE_GPU),
        candidate(2, 1),
        candidate(3, PHYSICAL_DEVICE_TYPE_DISCRETE_GPU),
    ];
    assert_eq!(sel.select(devices).unwrap().handle(), 3);
}

#[test]
fn select_falls_back_to_the_first_suitable_device() {
    let sel = PhysicalDeviceSelector::new().prefer_type(4);
    let devices = vec![candidate(1, 1), candidate(2, 2)];
    assert_eq!(sel.select(devices).unwrap().handle(), 1);
}

#[test]
fn select_skips_devices_that_fail_a_check() {
    let sel = PhysicalDeviceSelector::new().require_extension(b"VK_KHR_swapchain");
    let mut no_ext = candidate(1, PHYSICAL_DEVICE_TYPE_DISCRETE_GPU);
    no_ext.extensions = Ok(vec![None, Some(b"VK_KHR_other".to_vec())]);
    let mut no_present = candidate(2, PHYSICAL_DEVICE_TYPE_DISCRETE_GPU);
    no_present.surface_support = vec![Ok(false)];
    let mut no_graphics = candidate(3, PHYSICAL_DEVICE_TYPE_DISCRETE_GPU);
    no_graphics.queue_flags = vec![0b10];
    let fine = candidate(4, 1);
    let pd = sel.select(vec![no_ext, no_present, no_graphics, fine]).unwrap();
    assert_eq!(pd.handle(), 4);
    assert_eq!(pd.extensions, vec![b"VK_KHR_swapchain".to_vec()]);
}

#[test]
fn select_checks_required_features() {
    let sel = PhysicalDeviceSelector::new().add_required_extension_feature(feature(9, &[1, 0]));
    let queries = sel.feature_queries();
    assert_eq!(queries.len(), 1);
    assert_eq!(queries[0].bytes, feature(9, &[0, 0]).bytes);
    let mut lacking = candidate(1, PHYSICAL_DEVICE_TYPE_DISCRETE_GPU);
    lacking.supported_features = vec![feature(9, &[0, 1])];
    let mut having = candidate(2, 1);
    having.supported_features = vec![feature(9, &[1, 0])];
    assert!(!sel.has_required_features(&lacking.supported_features));
    let pd = sel.select(vec![lacking, having]).unwrap();
    assert_eq!(pd.handle(), 2);
    assert_eq!(pd.features.len(), 1);
}

#[test]
fn select_reports_the_first_failed_query() {
    let sel = PhysicalDeviceSelector::new().require_extension(b"VK_KHR_swapchain");
    let mut broken = candidate(1, 1);
    broken.extensions = Err(-2);
    let mut broken_later = candidate(2, 1);
    broken_later.surface_support = vec![Err(-4)];
    assert_eq!(sel.select(vec![candidate(0, 1), broken, broken_later]).err(), Some(SelectError::Vulkan(-2)));
}

#[test]
fn select_without_devices_or_without_a_suitable_one_fails() {
    assert_eq!(PhysicalDeviceSelector::new().select(vec![]).err(), Some(SelectError::NoDevices));
    let mut d = candidate(1, 1);
    d.queue_flags = vec![0];
    assert_eq!(PhysicalDeviceSelector::new().select(vec![d]).err(), Some(SelectError::NoSuitableDevice));
}

#[test]
fn extension_query_is_ignored_when_nothing_is_required() {
    let mut d = candidate(5, 1);
    d.extensions = Err(-7);
    assert_eq!(PhysicalDeviceSelector::new().select(vec![d]).unwrap().handle(), 5);
}

#[test]
fn device_builder_plans_queue_families() {
    let sel = PhysicalDeviceSelector::new().require_extension(b"VK_EXT_mesh_shader");
    let mut d = candidate(7, 1);
    d.extensions = Ok(vec![Some(b"VK_EXT_mesh_shader".to_vec())]);
    let pd = sel.select(vec![d]).unwrap();
    let plan = DeviceBuilder::new(pd)
        .build(&vec![0b100, 0b001, 0b001], &vec![Ok(false), Ok(false), Ok(true)])
        .unwrap();
    assert_eq!(plan.physical_device, 7);
    assert_eq!(plan.graphics_family, 1);
    assert_eq!(plan.present_family, 2);
    assert_eq!(plan.unique_families, vec![1, 2]);
    assert_eq!(plan.extensions, vec![b"VK_EXT_mesh_shader".to_vec()]);
}

#[test]
fn device_builder_errors() {
    let pd = || PhysicalDeviceSelector::new().select(vec![candidate(1, 1)]).unwrap();
    assert_eq!(
        DeviceBuilder::new(pd()).build(&vec![0b10], &vec![Ok(true)]).err(),
        Some(DeviceError::NoGraphicsQueueFamily)
    );
    assert_eq!(
        DeviceBuilder::new(pd()).build(&vec![0b1], &vec![Ok(false)]).err(),
        Some(DeviceError::NoPresentQueueFamily)
    );
    assert_eq!(
        DeviceBuilder::new(pd()).build(&vec![0b1, 0b1], &vec![Err(-1), Ok(true)]).err(),
        Some(DeviceError::Vulkan(-1))
    );
    let plan = DeviceBuilder::new(pd()).build(&vec![0b1], &vec![Ok(true)]).unwrap();
    assert_eq!(plan.unique_families, vec![0]);
}

#[test]
fn feature_structures_take_the_machine_byte_order() {
    let little = u16::from_ne_bytes([1, 0]) == 1;
    let expected = if little { ByteOrder::Little } else { ByteOrder::Big };
    assert_eq!(native_byte_order(), expected);
    assert_eq!(feature(1, &[1]).order, expected);
    assert_eq!(feature(1, &[1]).zeroed_query_copy().order, expected);
}

#[test]
fn big_endian_structures_are_read_and_linked_most_significant_byte_first() {
    let big = |fields: &[u32]| {
        let mut bytes = 7u32.to_be_bytes().to_vec();
        bytes.extend_from_slice(&[0; 12]);
        for f in fields {
            bytes.extend_from_slice(&f.to_be_bytes());
        }
        GenericFeature { bytes, order: ByteOrder::Big }
    };
    let req = big(&[1, 0]);
    assert!(req.satisfied_by(&big(&[1, 1])));
    assert!(!req.satisfied_by(&big(&[0, 1])));
    // read least significant byte first, the word 1 would not be VK_TRUE
    assert!(!req.satisfied_by(&GenericFeature { bytes: big(&[0x0100_0000, 1]).bytes, order: ByteOrder::Big }));
    let mut f = big(&[1]);
    f.set_p_next(0x0102_0304_0506_0708);
    assert_eq!(&f.bytes[8..16], &0x0102_0304_0506_0708u64.to_be_bytes());
    assert_eq!(f.order, ByteOrder::Big);
}
