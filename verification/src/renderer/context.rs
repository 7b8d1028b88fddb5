//! The choice of physical device and queue families behind the renderer's
//! Vulkan context.
use vstd::prelude::*;

use crate::graphics::base::device::{has_graphics, QUEUE_GRAPHICS_BIT, PHYSICAL_DEVICE_TYPE_DISCRETE_GPU};

verus! {

/// The queue families the renderer submits graphics work to and presents from.
#[derive(Clone, Copy, Debug, PartialEq, Eq, Structural)]
pub struct QueueFamilyIndices {
    pub graphics: u32,
    pub present: u32,
}

/// A presentation-support answer counts as support only when the query
/// succeeded and said yes.
pub open spec fn presents(answer: Result<bool, i32>) -> bool {
    answer == Ok::<bool, i32>(true)
}

/// Queue family `i` supports graphics and can present.
pub open spec fn is_complete_family(flags: Seq<u32>, support: Seq<Result<bool, i32>>, i: int) -> bool {
    0 <= i < flags.len() && has_graphics(flags[i]) && presents(support[i])
}

/// `i` is the first queue family that supports graphics and can present.
pub open spec fn is_first_complete_family(flags: Seq<u32>, support: Seq<Result<bool, i32>>, i: int) -> bool {
    is_complete_family(flags, support, i) && forall|j: int| 0 <= j < i ==> !#[trigger] is_complete_family(flags, support, j)
}

/// `i` is the last queue family that supports graphics.
pub open spec fn is_last_graphics_family(flags: Seq<u32>, i: int) -> bool {
    0 <= i < flags.len() && has_graphics(flags[i]) && forall|j: int| i < j < flags.len() ==> !has_graphics(#[trigger] flags[j])
}

/// `i` is the last queue family that can present.
pub open spec fn is_last_present_family(support: Seq<Result<bool, i32>>, i: int) -> bool {
    0 <= i < support.len() && presents(support[i]) && forall|j: int| i < j < support.len() ==> !presents(#[trigger] support[j])
}

/// The queue families of a device: the first family that does both, when one
/// does; otherwise the last graphics family and the last present family, when
/// there are such families.
pub open spec fn queue_families_match(flags: Seq<u32>, support: Seq<Result<bool, i32>>, r: Option<QueueFamilyIndices>) -> bool {
    if exists|i: int| is_complete_family(flags, support, i) {
        exists|i: int| #[trigger] is_first_complete_family(flags, support, i) && r == Some(QueueFamilyIndices { graphics: i as u32, present: i as u32 })
    } else {
        match r {
            Some(q) => is_last_graphics_family(flags, q.graphics as int) && is_last_present_family(support, q.present as int),
            None => (forall|j: int| 0 <= j < flags.len() ==> !has_graphics(#[trigger] flags[j]))
                || (forall|j: int| 0 <= j < support.len() ==> !presents(#[trigger] support[j])),
        }
    }
}

/// The queue families of a device, given the flags of each of its queue
/// families and the answer of the presentation-support query for each
/// (a failed query counts as no support).
pub fn find_queue_families(queue_flags: &Vec<u32>, surface_support: &Vec<Result<bool, i32>>) -> (r: Option<QueueFamilyIndices>)
    requires
        queue_flags@.len() <= u32::MAX,
        surface_support@.len() == queue_flags@.len(),
    ensures
        queue_families_match(queue_flags@, surface_support@, r),
{
    let ghost flags = queue_flags@;
    let ghost support = surface_support@;
    let n = queue_flags.len();
    let mut graphics: Option<u32> = None;
    let mut present: Option<u32> = None;
    let mut i: usize = 0;
    while i < n
        invariant
            n == flags.len(),
            n == support.len(),
            n <= u32::MAX,
            flags == queue_flags@,
            support == surface_support@,
            i <= n,
            forall|j: int| 0 <= j < i ==> !#[trigger] is_complete_family(flags, support, j),
            match graphics {
                Some(g) => g < i && has_graphics(flags[g as int]) && forall|j: int| g < j < i ==> !has_graphics(#[trigger] flags[j]),
                None => forall|j: int| 0 <= j < i ==> !has_graphics(#[trigger] flags[j]),
            },
            match present {
                Some(p) => p < i && presents(support[p as int]) && forall|j: int| p < j < i ==> !presents(#[trigger] support[j]),
                None => forall|j: int| 0 <= j < i ==> !presents(#[trigger] support[j]),
            },
        decreases n - i,
    {
        let is_graphics = queue_flags[i] & QUEUE_GRAPHICS_BIT != 0;
        if is_graphics {
            graphics = Some(i as u32);
        }
        let present_support = match surface_support[i] {
            Ok(b) => b,
            Err(_) => false,
        };
        if present_support {
            present = Some(i as u32);
        }
        if is_graphics && present_support {
            proof {
                assert(is_first_complete_family(flags, support, i as int));
            }
            return Some(QueueFamilyIndices { graphics: i as u32, present: i as u32 });
        }
        i = i + 1;
    }
    match (graphics, present) {
        (Some(g), Some(p)) => Some(QueueFamilyIndices { graphics: g, present: p }),
        _ => None,
    }
}

/// What the renderer learns of one physical device before choosing one.
pub struct ContextCandidate {
    /// Raw `VkPhysicalDevice` handle.
    pub handle: u64,
    /// Raw `VkPhysicalDeviceType`.
    pub device_type: i32,
    pub queue_flags: Vec<u32>,
    pub surface_support: Vec<Result<bool, i32>>,
}

/// The candidate data the choice needs: a presentation answer per queue
/// family, and queue-family indices that fit in 32 bits.
pub open spec fn context_candidate_well_formed(d: ContextCandidate) -> bool {
    d.queue_flags@.len() <= u32::MAX && d.surface_support@.len() == d.queue_flags@.len()
}

/// Device `d` has queue families for the renderer.
pub open spec fn has_queue_families(d: ContextCandidate) -> bool {
    (exists|i: int| is_complete_family(d.queue_flags@, d.surface_support@, i))
        || ((exists|i: int| 0 <= i < d.queue_flags@.len() && has_graphics(d.queue_flags@[i]))
        && (exists|i: int| 0 <= i < d.surface_support@.len() && presents(d.surface_support@[i])))
}

pub open spec fn usable_discrete(ds: Seq<ContextCandidate>, i: int) -> bool {
    has_queue_families(ds[i]) && ds[i].device_type == PHYSICAL_DEVICE_TYPE_DISCRETE_GPU
}

/// Device `i` is the one the renderer takes: the first discrete GPU with
/// queue families, or, when there is none, the first device with queue
/// families.
pub open spec fn is_picked(ds: Seq<ContextCandidate>, i: int) -> bool {
    &&& 0 <= i < ds.len()
    &&& if exists|j: int| 0 <= j < ds.len() && #[trigger] usable_discrete(ds, j) {
        usable_discrete(ds, i) && forall|j: int| 0 <= j < i ==> !#[trigger] usable_discrete(ds, j)
    } else {
        has_queue_families(ds[i]) && forall|j: int| 0 <= j < i ==> !has_queue_families(#[trigger] ds[j])
    }
}

proof fn lemma_match_has_families(flags: Seq<u32>, support: Seq<Result<bool, i32>>, r: Option<QueueFamilyIndices>)
    requires
        queue_families_match(flags, support, r),
        support.len() == flags.len(),
    ensures
        r is Some <==> ((exists|i: int| is_complete_family(flags, support, i))
            || ((exists|i: int| 0 <= i < flags.len() && has_graphics(flags[i]))
            && (exists|i: int| 0 <= i < support.len() && presents(support[i])))),
{
    if !exists|i: int| is_complete_family(flags, support, i) {
        if r is None {
            if forall|j: int| 0 <= j < flags.len() ==> !has_graphics(#[trigger] flags[j]) {
                assert(!exists|i: int| 0 <= i < flags.len() && has_graphics(flags[i]));
            } else {
                assert(!exists|i: int| 0 <= i < support.len() && presents(support[i]));
            }
        } else {
            let q = r->Some_0;
            assert(has_graphics(flags[q.graphics as int]));
            assert(presents(support[q.present as int]));
        }
    }
}

/// The physical device and queue families the renderer uses, among the
/// instance's devices in enumeration order; `None` when no device has
/// queue families for it.
pub fn pick_physical_device(devices: &Vec<ContextCandidate>) -> (r: Option<(u64, QueueFamilyIndices)>)
    requires
        forall|i: int| 0 <= i < devices@.len() ==> context_candidate_well_formed(#[trigger] devices@[i]),
    ensures
        match r {
            Some((handle, q)) => exists|i: int| #[trigger] is_picked(devices@, i) && handle == devices@[i].handle
                && queue_families_match(devices@[i].queue_flags@, devices@[i].surface_support@, Some(q)),
            None => forall|i: int| 0 <= i < devices@.len() ==> !has_queue_families(#[trigger] devices@[i]),
        },
{
    let ghost ds = devices@;
    let n = devices.len();
    let mut best: Option<(u64, QueueFamilyIndices)> = None;
    let ghost mut best_index: int = 0;
    let mut i: usize = 0;
    while i < n
        invariant
            n == ds.len(),
            ds == devices@,
            i <= n,
            forall|k: int| 0 <= k < n ==> context_candidate_well_formed(#[trigger] ds[k]),
            forall|k: int| 0 <= k < i ==> !#[trigger] usable_discrete(ds, k),
            match best {
                Some((handle, q)) => 0 <= best_index < i && has_queue_families(ds[best_index])
                    && handle == ds[best_index].handle
                    && queue_families_match(ds[best_index].queue_flags@, ds[best_index].surface_support@, Some(q))
                    && forall|k: int| 0 <= k < best_index ==> !has_queue_families(#[trigger] ds[k]),
                None => forall|k: int| 0 <= k < i ==> !has_queue_families(#[trigger] ds[k]),
            },
        decreases n - i,
    {
        let d = &devices[i];
        let found = find_queue_families(&d.queue_flags, &d.surface_support);
        proof {
            lemma_match_has_families(d.queue_flags@, d.surface_support@, found);
        }
        if let Some(q) = found {
            if d.device_type == PHYSICAL_DEVICE_TYPE_DISCRETE_GPU {
                proof {
                    assert(usable_discrete(ds, i as int));
                    assert(is_picked(ds, i as int));
                }
                return Some((d.handle, q));
            }
            if best.is_none() {
                best = Some((d.handle, q));
                proof {
                    best_index = i as int;
                }
            }
        }
        i = i + 1;
    }
    proof {
        if let Some((handle, q)) = best {
            assert(!exists|j: int| 0 <= j < ds.len() && #[trigger] usable_discrete(ds, j));
            assert(is_picked(ds, best_index));
        }
    }
    best
}

} // verus!
