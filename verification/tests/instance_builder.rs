use kx_engine::graphics::base::instance::{InstanceBuilder, InstanceError};

#[test]
fn defaults_are_vulkan_1_3_without_debugging() {
    let plan = InstanceBuilder::new().build().unwrap();
    assert_eq!(plan.api_version, ash::vk::API_VERSION_1_3);
    assert_eq!(plan.app_name, vec![0]);
    assert_eq!(plan.engine_name, vec![0]);
    assert!(!plan.validation_layer);
    assert!(plan.debug_messenger.is_none());
}

#[test]
fn settings_reach_the_plan() {
    let plan = InstanceBuilder::new()
        .app_name("kx")
        .engine_name("kx-engine")
        .api_version(ash::vk::make_api_version(0, 1, 2, 0))
        .validation(true)
        .debug_messenger(true)
        .build()
        .unwrap();
    assert_eq!(plan.app_name, b"kx\0".to_vec());
    assert_eq!(plan.engine_name, b"kx-engine\0".to_vec());
    assert_eq!(plan.api_version, ash::vk::API_VERSION_1_2);
    assert!(plan.validation_layer);
    let m = plan.debug_messenger.unwrap();
    let severity = ash::vk::DebugUtilsMessageSeverityFlagsEXT::WARNING
        | ash::vk::DebugUtilsMessageSeverityFlagsEXT::ERROR;
    let types = ash::vk::DebugUtilsMessageTypeFlagsEXT::GENERAL
        | ash::vk::DebugUtilsMessageTypeFlagsEXT::VALIDATION
        | ash::vk::DebugUtilsMessageTypeFlagsEXT::PERFORMANCE;
    assert_eq!(m.severity, severity.as_raw());
    assert_eq!(m.message_type, types.as_raw());
}

#[test]
fn names_with_nul_bytes_are_refused() {
    let err = InstanceBuilder::new().app_name("k\0x\0").build().err();
    assert_eq!(err, Some(InstanceError::AppNameHasNul(1)));
    let err = InstanceBuilder::new().engine_name("\0").build().err();
    assert_eq!(err, Some(InstanceError::EngineNameHasNul(0)));
    let err = InstanceBuilder::new().app_name("\0").engine_name("\0").build().err();
    assert_eq!(err, Some(InstanceError::AppNameHasNul(0)));
}

#[test]
fn default_api_version_is_packed_like_vulkan() {
    let plan = InstanceBuilder::new().build().unwrap();
    assert_eq!(plan.api_version, (1 << 22) | (3 << 12));
    assert_eq!(plan.api_version, ash::vk::make_api_version(0, 1, 3, 0));
}
