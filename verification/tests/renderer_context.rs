use kx_engine::renderer::context::{find_queue_families, pick_physical_device, ContextCandidate, QueueFamilyIndices};

fn q(graphics: u32, present: u32) -> Option<QueueFamilyIndices> {
    Some(QueueFamilyIndices { graphics, present })
}

#[test]
fn a_family_that_does_both_wins() {
    let flags = vec![0b1, 0b0, 0b1, 0b1];
    let support = vec![Ok(false), Ok(true), Ok(true), Ok(true)];
    assert_eq!(find_queue_families(&flags, &support), q(2, 2));
}

#[test]
fn otherwise_the_last_of_each_kind_is_taken() {
    let flags = vec![0b1, 0b0, 0b1, 0b0];
    let support = vec![Ok(false), Ok(true), Err(-3), Ok(true)];
    assert_eq!(find_queue_families(&flags, &support), q(2, 3));
}

#[test]
fn failed_support_queries_count_as_no_support() {
    assert_eq!(find_queue_families(&vec![0b1], &vec![Err(-1)]), None);
    assert_eq!(find_queue_families(&vec![0b0], &vec![Ok(true)]), None);
    assert_eq!(find_queue_families(&vec![], &vec![]), None);
}

fn device(handle: u64, device_type: i32, flags: Vec<u32>, support: Vec<Result<bool, i32>>) -> ContextCandidate {
    ContextCandidate { handle, device_type, queue_flags: flags, surface_support: support }
}

#[test]
fn the_first_usable_discrete_gpu_is_picked() {
    let devices = vec![
        device(1, 1, vec![1], vec![Ok(true)]),
        device(2, 2, vec![0], vec![Ok(true)]),
        device(3, 2, vec![1, 1], vec![Ok(false), Ok(true)]),
        device(4, 2, vec![1], vec![Ok(true)]),
    ];
    assert_eq!(pick_physical_device(&devices), Some((3, QueueFamilyIndices { graphics: 1, present: 1 })));
}

#[test]
fn without_a_discrete_gpu_the_first_usable_device_is_picked() {
    let devices = vec![
        device(1, 1, vec![0], vec![Ok(true)]),
        device(2, 3, vec![1, 0], vec![Ok(false), Ok(true)]),
        device(3, 1, vec![1], vec![Ok(true)]),
    ];
    assert_eq!(pick_physical_device(&devices), Some((2, QueueFamilyIndices { graphics: 0, present: 1 })));
    assert_eq!(pick_physical_device(&vec![device(1, 2, vec![0], vec![Ok(false)])]), None);
}
