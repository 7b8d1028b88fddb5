//! Choosing a physical device and planning the logical device: the
//! extension-feature structures the engine requires, the checks a device must
//! pass, the preference among devices, and the queue families to create.
use vstd::prelude::*;

use super::words::{native_byte_order, pow256, read_u32_in, u64_bytes_in, u64_le_bytes, word_in, ByteOrder};

verus! {

/// Size of the header every extension-feature structure starts with:
/// `sType` (4 bytes), padding (4 bytes) and `pNext` (8 bytes).
pub const FEATURE_HEADER_SIZE: usize = 16;

/// `VK_TRUE`.
pub const VK_TRUE: u32 = 1;

/// `VK_QUEUE_GRAPHICS_BIT`.
pub const QUEUE_GRAPHICS_BIT: u32 = 1;

/// `VK_PHYSICAL_DEVICE_TYPE_DISCRETE_GPU`.
pub const PHYSICAL_DEVICE_TYPE_DISCRETE_GPU: i32 = 2;

/// An extension-feature structure (a `VkPhysicalDevice*Features*` that can
/// extend `VkPhysicalDeviceFeatures2`), held as its bytes: the header, then
/// one 32-bit boolean per feature, every word in the machine's byte order as
/// the structure lies in memory.
#[derive(Clone, Debug)]
pub struct GenericFeature {
    pub bytes: Vec<u8>,
    /// The byte order of the structure's words and of its `pNext` address.
    pub order: ByteOrder,
}

/// The `k`-th feature word of a feature structure whose words are stored in `order`.
pub open spec fn feature_field(s: Seq<u8>, k: int, order: ByteOrder) -> int {
    word_in(s, 16 + 4 * k, order)
}

/// Number of whole feature words after the header.
pub open spec fn feature_field_count(s: Seq<u8>) -> int {
    (s.len() - 16) / 4
}

/// Every feature that `req` enables is enabled in `sup` too, both read in `order`.
pub open spec fn feature_satisfied(req: Seq<u8>, sup: Seq<u8>, order: ByteOrder) -> bool {
    forall|k: int|
        0 <= k < feature_field_count(req) ==> (#[trigger] feature_field(req, k, order) == VK_TRUE
            ==> feature_field(sup, k, order) == VK_TRUE)
}

/// The structure that a query for `req` starts from: same size, same `sType`,
/// every other byte zero.
pub open spec fn zeroed_query(req: Seq<u8>) -> Seq<u8> {
    Seq::new(req.len(), |i: int| if i < 4 { req[i] } else { 0u8 })
}

/// `s` with its `pNext` field set to `next`, stored in `order`.
pub open spec fn with_p_next(s: Seq<u8>, next: u64, order: ByteOrder) -> Seq<u8> {
    Seq::new(s.len(), |i: int| if 8 <= i < 16 { u64_bytes_in(next, order)[i - 8] } else { s[i] })
}

impl GenericFeature {
    /// The feature structure whose bytes are `bytes`, as it lies in the
    /// memory of this machine (its words in the native byte order).
    pub fn new(bytes: Vec<u8>) -> (f: Self)
        ensures
            f.bytes@ == bytes@,
    {
        GenericFeature { bytes, order: native_byte_order() }
    }

    /// A structure of the same type with every feature cleared, ready to be
    /// filled by a query.
    pub fn zeroed_query_copy(&self) -> (copy: Self)
        requires
            self.bytes@.len() >= 4,
        ensures
            copy.bytes@ == zeroed_query(self.bytes@),
            copy.order == self.order,
    {
        let n = self.bytes.len();
        let mut bytes: Vec<u8> = Vec::new();
        let mut i: usize = 0;
        while i < n
            invariant
                n == self.bytes@.len(),
                n >= 4,
                i <= n,
                bytes@.len() == i,
                forall|j: int| 0 <= j < i ==> bytes@[j] == zeroed_query(self.bytes@)[j],
            decreases n - i,
        {
            if i < 4 {
                bytes.push(self.bytes[i]);
            } else {
                bytes.push(0u8);
            }
            i = i + 1;
        }
        assert(bytes@ =~= zeroed_query(self.bytes@));
        GenericFeature { bytes, order: self.order }
    }

    /// Points the structure's `pNext` at address `next` (0 for none), stored
    /// in the structure's byte order.
    pub fn set_p_next(&mut self, next: u64)
        requires
            old(self).bytes@.len() >= FEATURE_HEADER_SIZE,
        ensures
            final(self).bytes@ == with_p_next(old(self).bytes@, next, old(self).order),
            final(self).order == old(self).order,
    {
        let ghost s = self.bytes@;
        let little = match self.order {
            ByteOrder::Little => true,
            ByteOrder::Big => false,
        };
        let b0 = (next % 256) as u8;
        let b1 = ((next / 256) % 256) as u8;
        let b2 = ((next / 65536) % 256) as u8;
        let b3 = ((next / 16777216) % 256) as u8;
        let b4 = ((next / 4294967296) % 256) as u8;
        let b5 = ((next / 1099511627776) % 256) as u8;
        let b6 = ((next / 281474976710656) % 256) as u8;
        let b7 = ((next / 72057594037927936) % 256) as u8;
        if little {
            self.bytes.set(8, b0);
            self.bytes.set(9, b1);
            self.bytes.set(10, b2);
            self.bytes.set(11, b3);
            self.bytes.set(12, b4);
            self.bytes.set(13, b5);
            self.bytes.set(14, b6);
            self.bytes.set(15, b7);
        } else {
            self.bytes.set(8, b7);
            self.bytes.set(9, b6);
            self.bytes.set(10, b5);
            self.bytes.set(11, b4);
            self.bytes.set(12, b3);
            self.bytes.set(13, b2);
            self.bytes.set(14, b1);
            self.bytes.set(15, b0);
        }
        proof {
            assert(pow256(0) == 1);
            assert(self.bytes@ =~= with_p_next(s, next, self.order));
        }
    }

    /// Whether every feature this structure enables is enabled in `supported`,
    /// a structure of the same type.
    pub fn satisfied_by(&self, supported: &GenericFeature) -> (ok: bool)
        requires
            self.bytes@.len() >= FEATURE_HEADER_SIZE,
            supported.bytes@.len() == self.bytes@.len(),
            supported.bytes@.subrange(0, 4) == self.bytes@.subrange(0, 4),
            supported.order == self.order,
        ensures
            ok == feature_satisfied(self.bytes@, supported.bytes@, self.order),
    {
        let len = self.bytes.len();
        let words = (len - FEATURE_HEADER_SIZE) / 4;
        assert(16 + 4 * words <= len) by (nonlinear_arith)
            requires
                words == (len - 16) / 4,
                len >= 16,
        ;
        let mut k: usize = 0;
        while k < words
            invariant
                len == self.bytes@.len(),
                len == supported.bytes@.len(),
                words == feature_field_count(self.bytes@),
                16 + 4 * words <= len,
                k <= words,
                forall|j: int|
                    0 <= j < k ==> (#[trigger] feature_field(self.bytes@, j, self.order) == VK_TRUE
                        ==> feature_field(supported.bytes@, j, self.order) == VK_TRUE),
            decreases words - k,
        {
            let req = read_u32_in(self.bytes.as_slice(), 16 + 4 * k, self.order);
            let sup = read_u32_in(supported.bytes.as_slice(), 16 + 4 * k, self.order);
            if req == VK_TRUE && sup != VK_TRUE {
                assert(feature_field(self.bytes@, k as int, self.order) == VK_TRUE);
                assert(feature_field(supported.bytes@, k as int, self.order) != VK_TRUE);
                return false;
            }
            k = k + 1;
        }
        true
    }
}

/// `chain` after linking: each structure points at the next one's address,
/// the last at nothing.
pub open spec fn chained(old_chain: Seq<GenericFeature>, new_chain: Seq<GenericFeature>, addresses: Seq<u64>) -> bool {
    &&& new_chain.len() == old_chain.len()
    &&& forall|i: int|
        0 <= i < new_chain.len() ==> (#[trigger] new_chain[i]).bytes@ == with_p_next(
            old_chain[i].bytes@,
            if i + 1 < addresses.len() { addresses[i + 1] } else { 0 },
            old_chain[i].order,
        ) && new_chain[i].order == old_chain[i].order
}

/// Links `chain` into a `pNext` chain, given the address of each structure's
/// bytes, and returns the address the chain starts at (0 when it is empty),
/// for the `pNext` of the `VkPhysicalDeviceFeatures2` that heads it.
pub fn chain_features(chain: &mut Vec<GenericFeature>, addresses: &Vec<u64>) -> (head: u64)
    requires
        addresses@.len() == old(chain)@.len(),
        forall|i: int| 0 <= i < old(chain)@.len() ==> (#[trigger] old(chain)@[i]).bytes@.len() >= FEATURE_HEADER_SIZE,
    ensures
        chained(old(chain)@, final(chain)@, addresses@),
        head == if addresses@.len() > 0 { addresses@[0] } else { 0 },
{
    let n = chain.len();
    let ghost old_chain = chain@;
    let mut i: usize = 0;
    while i < n
        invariant
            n == chain@.len(),
            n == old_chain.len(),
            n == addresses@.len(),
            i <= n,
            forall|j: int| 0 <= j < n ==> (#[trigger] old_chain[j]).bytes@.len() >= FEATURE_HEADER_SIZE,
            forall|j: int| i <= j < n ==> #[trigger] chain@[j] == old_chain[j],
            forall|j: int|
                0 <= j < i ==> (#[trigger] chain@[j]).bytes@ == with_p_next(
                    old_chain[j].bytes@,
                    if j + 1 < addresses@.len() { addresses@[j + 1] } else { 0 },
                    old_chain[j].order,
                ) && chain@[j].order == old_chain[j].order,
        decreases n - i,
    {
        let next: u64 = if i + 1 < n { addresses[i + 1] } else { 0 };
        let mut node = chain.remove(i);
        node.set_p_next(next);
        chain.insert(i, node);
        proof {
            assert forall|j: int| i + 1 <= j < n implies #[trigger] chain@[j] == old_chain[j] by {}
        }
        i = i + 1;
    }
    if n > 0 {
        addresses[0]
    } else {
        0
    }
}

/// Whether `bytes_eq`'s two arguments hold the same bytes.
pub fn bytes_eq(a: &Vec<u8>, b: &Vec<u8>) -> (eq: bool)
    ensures
        eq == (a@ == b@),
{
    if a.len() != b.len() {
        return false;
    }
    let n = a.len();
    let mut i: usize = 0;
    while i < n
        invariant
            n == a@.len(),
            n == b@.len(),
            i <= n,
            forall|j: int| 0 <= j < i ==> a@[j] == b@[j],
        decreases n - i,
    {
        if a[i] != b[i] {
            return false;
        }
        i = i + 1;
    }
    assert(a@ =~= b@);
    true
}

/// Whether queue-family flags include graphics.
pub open spec fn has_graphics(flags: u32) -> bool {
    flags & QUEUE_GRAPHICS_BIT != 0
}

/// `i` is the first queue family with graphics support.
pub open spec fn is_first_graphics_family(queue_flags: Seq<u32>, i: int) -> bool {
    &&& 0 <= i < queue_flags.len()
    &&& has_graphics(queue_flags[i])
    &&& forall|j: int| 0 <= j < i ==> !has_graphics(#[trigger] queue_flags[j])
}

/// The first queue family, from `i` on, that can present, or the error of the
/// first query that failed before one was found.
pub open spec fn present_scan(support: Seq<Result<bool, i32>>, i: int) -> Result<Option<int>, i32>
    decreases support.len() - i,
{
    if i < 0 || i >= support.len() {
        Ok(None)
    } else {
        match support[i] {
            Err(e) => Err(e),
            Ok(true) => Ok(Some(i)),
            Ok(false) => present_scan(support, i + 1),
        }
    }
}

/// Whether some queue family can present, given the answers to the
/// presentation-support query for each family in order.
pub open spec fn present_supported(support: Seq<Result<bool, i32>>) -> Result<bool, i32> {
    match present_scan(support, 0) {
        Err(e) => Err(e),
        Ok(found) => Ok(found is Some),
    }
}

/// What the engine learns of one physical device before choosing one.
pub struct DeviceCandidate {
    /// Raw `VkPhysicalDevice` handle.
    pub handle: u64,
    /// Raw `VkPhysicalDeviceType`.
    pub device_type: i32,
    /// The names of the device's extensions, or the error of the query; a
    /// name that is not NUL-terminated within its array is `None`.
    pub extensions: Result<Vec<Option<Vec<u8>>>, i32>,
    /// Flags of each queue family.
    pub queue_flags: Vec<u32>,
    /// Answer of the presentation-support query for each queue family.
    pub surface_support: Vec<Result<bool, i32>>,
    /// The required feature structures as the device filled them in, in the
    /// order of the selector's required features.
    pub supported_features: Vec<GenericFeature>,
}

/// A chosen physical device with the extensions and features it must enable.
pub struct PhysicalDevice {
    /// Raw `VkPhysicalDevice` handle.
    pub physical_device: u64,
    pub features: Vec<GenericFeature>,
    pub extensions: Vec<Vec<u8>>,
}

impl PhysicalDevice {
    pub fn handle(&self) -> (h: u64)
        ensures
            h == self.physical_device,
    {
        self.physical_device
    }
}

/// Why no physical device was chosen.
#[derive(Clone, Copy, Debug, PartialEq, Eq, Structural)]
pub enum SelectError {
    /// The instance has no physical device.
    NoDevices,
    /// No device passed every check.
    NoSuitableDevice,
    /// A query failed with this `VkResult`.
    Vulkan(i32),
}

/// The criteria a physical device is chosen by.
pub struct PhysicalDeviceSelector {
    preferred_type: i32,
    required_extensions: Vec<Vec<u8>>,
    required_features: Vec<GenericFeature>,
}

impl PhysicalDeviceSelector {
    #[verifier::type_invariant]
    spec fn features_have_headers(self) -> bool {
        forall|i: int|
            0 <= i < self.required_features@.len() ==> (#[trigger] self.required_features@[i]).bytes@.len()
                >= FEATURE_HEADER_SIZE
    }

    pub closed spec fn preferred_type(&self) -> i32 {
        self.preferred_type
    }

    /// The names of the required extensions, without their NUL.
    pub closed spec fn required_extensions(&self) -> Seq<Seq<u8>> {
        self.required_extensions@.map_values(|e: Vec<u8>| e@)
    }

    pub closed spec fn required_features(&self) -> Seq<GenericFeature> {
        self.required_features@
    }

    /// A selector that prefers discrete GPUs and requires nothing.
    pub fn new() -> (sel: Self)
        ensures
            sel.preferred_type() == PHYSICAL_DEVICE_TYPE_DISCRETE_GPU,
            sel.required_extensions().len() == 0,
            sel.required_features().len() == 0,
    {
        let sel = PhysicalDeviceSelector {
            preferred_type: PHYSICAL_DEVICE_TYPE_DISCRETE_GPU,
            required_extensions: Vec::new(),
            required_features: Vec::new(),
        };
        assert(sel.required_extensions() =~= Seq::<Seq<u8>>::empty());
        sel
    }

    /// Prefers devices of type `device_type` (a raw `VkPhysicalDeviceType`).
    pub fn prefer_type(self, device_type: i32) -> (sel: Self)
        ensures
            sel.preferred_type() == device_type,
            sel.required_extensions() == self.required_extensions(),
            sel.required_features() == self.required_features(),
    {
        proof {
            use_type_invariant(&self);
        }
        PhysicalDeviceSelector {
            preferred_type: device_type,
            required_extensions: self.required_extensions,
            required_features: self.required_features,
        }
    }

    /// Requires the extension named `extension` (without its NUL).
    pub fn require_extension(self, extension: &[u8]) -> (sel: Self)
        ensures
            sel.preferred_type() == self.preferred_type(),
            sel.required_extensions() == self.required_extensions().push(extension@),
            sel.required_features() == self.required_features(),
    {
        proof {
            use_type_invariant(&self);
        }
        let mut required_extensions = self.required_extensions;
        let ghost before = required_extensions@;
        required_extensions.push(vstd::slice::slice_to_vec(extension));
        let sel = PhysicalDeviceSelector {
            preferred_type: self.preferred_type,
            required_extensions,
            required_features: self.required_features,
        };
        assert(sel.required_extensions() =~= before.map_values(|e: Vec<u8>| e@).push(extension@));
        sel
    }

    /// Requires every feature that `feature` enables.
    pub fn add_required_extension_feature(self, feature: GenericFeature) -> (sel: Self)
        requires
            feature.bytes@.len() >= FEATURE_HEADER_SIZE,
        ensures
            sel.preferred_type() == self.preferred_type(),
            sel.required_extensions() == self.required_extensions(),
            sel.required_features() == self.required_features().push(feature),
    {
        proof {
            use_type_invariant(&self);
        }
        let mut required_features = self.required_features;
        required_features.push(feature);
        PhysicalDeviceSelector {
            preferred_type: self.preferred_type,
            required_extensions: self.required_extensions,
            required_features,
        }
    }

    /// The structures to query a device's support with: a zeroed copy of each
    /// required feature structure, in order.
    pub fn feature_queries(&self) -> (queries: Vec<GenericFeature>)
        ensures
            queries@.len() == self.required_features().len(),
            forall|i: int|
                0 <= i < queries@.len() ==> (#[trigger] queries@[i]).bytes@ == zeroed_query(
                    self.required_features()[i].bytes@,
                ) && queries@[i].order == self.required_features()[i].order,
    {
        proof {
            use_type_invariant(self);
        }
        let mut queries: Vec<GenericFeature> = Vec::new();
        let n = self.required_features.len();
        let mut i: usize = 0;
        while i < n
            invariant
                n == self.required_features@.len(),
                i <= n,
                forall|j: int|
                    0 <= j < n ==> (#[trigger] self.required_features@[j]).bytes@.len()
                        >= FEATURE_HEADER_SIZE,
                queries@.len() == i,
                forall|j: int|
                    0 <= j < i ==> (#[trigger] queries@[j]).bytes@ == zeroed_query(
                        self.required_features@[j].bytes@,
                    ) && queries@[j].order == self.required_features@[j].order,
            decreases n - i,
        {
            queries.push(self.required_features[i].zeroed_query_copy());
            i = i + 1;
        }
        queries
    }
}

/// `supported` answers the queries of `required`: one structure each, of the
/// same size, type and byte order.
pub open spec fn answers_queries(required: Seq<GenericFeature>, supported: Seq<GenericFeature>) -> bool {
    &&& supported.len() == required.len()
    &&& forall|i: int|
        0 <= i < required.len() ==> (#[trigger] supported[i]).bytes@.len() == required[i].bytes@.len()
            && supported[i].bytes@.subrange(0, 4) == required[i].bytes@.subrange(0, 4)
            && supported[i].order == required[i].order
}

/// Every required feature is supported.
pub open spec fn features_supported(required: Seq<GenericFeature>, supported: Seq<GenericFeature>) -> bool {
    forall|i: int|
        0 <= i < required.len() ==> feature_satisfied(
            (#[trigger] required[i]).bytes@,
            supported[i].bytes@,
            required[i].order,
        )
}

/// The extension query of `d` lists every required extension.
pub open spec fn extensions_result(required: Seq<Seq<u8>>, d: DeviceCandidate) -> Result<bool, i32> {
    if required.len() == 0 {
        Ok(true)
    } else {
        match d.extensions {
            Err(e) => Err(e),
            Ok(available) => Ok(
                forall|i: int|
                    0 <= i < required.len() ==> lists_name(available@, #[trigger] required[i]),
            ),
        }
    }
}

/// Whether `d` passes every check of `sel`, or the error of the query that
/// failed first: required extensions, then presentation support, then a
/// graphics queue family and the required features.
pub open spec fn device_suitability(sel: PhysicalDeviceSelector, d: DeviceCandidate) -> Result<bool, i32> {
    match extensions_result(sel.required_extensions(), d) {
        Err(e) => Err(e),
        Ok(false) => Ok(false),
        Ok(true) => match present_supported(d.surface_support@) {
            Err(e) => Err(e),
            Ok(false) => Ok(false),
            Ok(true) => Ok(
                (exists|i: int| is_first_graphics_family(d.queue_flags@, i))
                    && features_supported(sel.required_features(), d.supported_features@),
            ),
        },
    }
}

pub open spec fn suitable(sel: PhysicalDeviceSelector, ds: Seq<DeviceCandidate>, i: int) -> bool {
    device_suitability(sel, ds[i]) == Ok::<bool, i32>(true)
}

pub open spec fn suitable_preferred(sel: PhysicalDeviceSelector, ds: Seq<DeviceCandidate>, i: int) -> bool {
    suitable(sel, ds, i) && ds[i].device_type == sel.preferred_type()
}

/// Device `i` is the first whose checks fail with an error.
pub open spec fn is_first_error(sel: PhysicalDeviceSelector, ds: Seq<DeviceCandidate>, i: int) -> bool {
    &&& 0 <= i < ds.len()
    &&& device_suitability(sel, ds[i]) is Err
    &&& forall|j: int| 0 <= j < i ==> !(#[trigger] device_suitability(sel, ds[j]) is Err)
}

/// No device's checks fail with an error.
pub open spec fn no_errors(sel: PhysicalDeviceSelector, ds: Seq<DeviceCandidate>) -> bool {
    forall|j: int| 0 <= j < ds.len() ==> !(#[trigger] device_suitability(sel, ds[j]) is Err)
}

/// Device `i` is the one chosen: the last suitable device of the preferred
/// type, or, when there is none, the first suitable device.
pub open spec fn is_chosen(sel: PhysicalDeviceSelector, ds: Seq<DeviceCandidate>, i: int) -> bool {
    &&& 0 <= i < ds.len()
    &&& if exists|j: int| 0 <= j < ds.len() && #[trigger] suitable_preferred(sel, ds, j) {
        suitable_preferred(sel, ds, i) && forall|j: int|
            i < j < ds.len() ==> !#[trigger] suitable_preferred(sel, ds, j)
    } else {
        suitable(sel, ds, i) && forall|j: int| 0 <= j < i ==> !#[trigger] suitable(sel, ds, j)
    }
}

/// The candidate data a selection needs to be well defined: a presentation
/// answer per queue family, queue-family indices that fit in 32 bits, and an
/// answer to each feature query.
pub open spec fn candidate_well_formed(sel: PhysicalDeviceSelector, d: DeviceCandidate) -> bool {
    &&& d.surface_support@.len() == d.queue_flags@.len()
    &&& d.queue_flags@.len() <= u32::MAX
    &&& answers_queries(sel.required_features(), d.supported_features@)
}

/// `entry` is an extension name equal to `name`.
pub open spec fn names_extension(entry: Option<Vec<u8>>, name: Seq<u8>) -> bool {
    match entry {
        Some(n) => n@ == name,
        None => false,
    }
}

/// Some entry of `available` is the name `name`.
pub open spec fn lists_name(available: Seq<Option<Vec<u8>>>, name: Seq<u8>) -> bool {
    exists|j: int| 0 <= j < available.len() && names_extension(#[trigger] available[j], name)
}

/// Whether `available` holds an entry named `name`.
pub fn lists_extension(available: &Vec<Option<Vec<u8>>>, name: &Vec<u8>) -> (found: bool)
    ensures
        found == lists_name(available@, name@),
{
    let m = available.len();
    let mut j: usize = 0;
    while j < m
        invariant
            m == available@.len(),
            j <= m,
            forall|t: int| 0 <= t < j ==> !names_extension(#[trigger] available@[t], name@),
        decreases m - j,
    {
        if let Some(entry) = &available[j] {
            if bytes_eq(entry, name) {
                assert(names_extension(available@[j as int], name@));
                return true;
            }
        }
        j = j + 1;
    }
    false
}

/// Whether `available` holds an entry for each name of `required`.
pub fn lists_all(available: &Vec<Option<Vec<u8>>>, required: &Vec<Vec<u8>>) -> (all: bool)
    ensures
        all == forall|i: int|
            0 <= i < required@.len() ==> lists_name(available@, (#[trigger] required@[i])@),
{
    let n = required.len();
    let mut i: usize = 0;
    while i < n
        invariant
            n == required@.len(),
            i <= n,
            forall|k: int|
                0 <= k < i ==> lists_name(available@, (#[trigger] required@[k])@),
        decreases n - i,
    {
        if !lists_extension(available, &required[i]) {
            return false;
        }
        i = i + 1;
    }
    true
}

/// The first queue family with graphics support.
pub fn find_graphics_family(queue_flags: &Vec<u32>) -> (family: Option<u32>)
    requires
        queue_flags@.len() <= u32::MAX,
    ensures
        family matches Some(i) ==> is_first_graphics_family(queue_flags@, i as int),
        family is None <==> forall|j: int| 0 <= j < queue_flags@.len() ==> !has_graphics(#[trigger] queue_flags@[j]),
{
    let n = queue_flags.len();
    let mut i: usize = 0;
    while i < n
        invariant
            n == queue_flags@.len(),
            n <= u32::MAX,
            i <= n,
            forall|j: int| 0 <= j < i ==> !has_graphics(#[trigger] queue_flags@[j]),
        decreases n - i,
    {
        if queue_flags[i] & QUEUE_GRAPHICS_BIT != 0 {
            return Some(i as u32);
        }
        i = i + 1;
    }
    None
}

/// A family found by the scan lies in the scanned range.
pub proof fn lemma_present_scan_range(support: Seq<Result<bool, i32>>, i: int)
    requires
        0 <= i,
    ensures
        present_scan(support, i) matches Ok(Some(p)) ==> i <= p < support.len(),
    decreases support.len() - i,
{
    if i < support.len() {
        lemma_present_scan_range(support, i + 1);
    }
}

proof fn lemma_present_scan_skip(support: Seq<Result<bool, i32>>, i: int)
    requires
        0 <= i <= support.len(),
        forall|j: int| 0 <= j < i ==> support[j] == Ok::<bool, i32>(false),
    ensures
        present_scan(support, 0) == present_scan(support, i),
    decreases i,
{
    if i > 0 {
        lemma_present_scan_skip(support, i - 1);
    }
}

/// The first queue family that can present, given the answers to the
/// presentation-support query for each family in order; a failed query
/// before one is found is the result.
pub fn find_present_family(support: &Vec<Result<bool, i32>>) -> (family: Result<Option<u32>, i32>)
    requires
        support@.len() <= u32::MAX,
    ensures
        family == match present_scan(support@, 0) {
            Err(e) => Err::<Option<u32>, i32>(e),
            Ok(None) => Ok(None),
            Ok(Some(i)) => Ok(Some(i as u32)),
        },
        family matches Ok(Some(i)) ==> i < support@.len(),
{
    let n = support.len();
    let mut i: usize = 0;
    while i < n
        invariant
            n == support@.len(),
            n <= u32::MAX,
            i <= n,
            forall|j: int| 0 <= j < i ==> support@[j] == Ok::<bool, i32>(false),
        decreases n - i,
    {
        proof {
            lemma_present_scan_skip(support@, i as int);
        }
        match support[i] {
            Err(e) => {
                return Err(e);
            },
            Ok(true) => {
                return Ok(Some(i as u32));
            },
            Ok(false) => {},
        }
        i = i + 1;
    }
    proof {
        lemma_present_scan_skip(support@, n as int);
    }
    Ok(None)
}

/// Whether some queue family can present.
pub fn has_present_support(support: &Vec<Result<bool, i32>>) -> (r: Result<bool, i32>)
    requires
        support@.len() <= u32::MAX,
    ensures
        r == present_supported(support@),
{
    match find_present_family(support) {
        Err(e) => Err(e),
        Ok(found) => Ok(found.is_some()),
    }
}

impl PhysicalDeviceSelector {
    /// Whether the device lists every required extension.
    pub fn has_required_extensions(&self, d: &DeviceCandidate) -> (r: Result<bool, i32>)
        ensures
            r == extensions_result(self.required_extensions(), *d),
    {
        let ghost req = self.required_extensions();
        if self.required_extensions.len() == 0 {
            return Ok(true);
        }
        match &d.extensions {
            Err(e) => Err(*e),
            Ok(available) => {
                let all = lists_all(available, &self.required_extensions);
                proof {
                    let rv = self.required_extensions@;
                    assert(req.len() == rv.len());
                    if all {
                        assert forall|i: int| 0 <= i < req.len() implies lists_name(
                            available@,
                            #[trigger] req[i],
                        ) by {
                            assert(req[i] == rv[i]@);
                            assert(lists_name(available@, rv[i]@));
                        }
                    } else {
                        let i = choose|i: int| 0 <= i < rv.len() && !lists_name(available@, rv[i]@);
                        assert(req[i] == rv[i]@);
                    }
                }
                Ok(all)
            },
        }
    }

    /// Whether the device supports every required feature; `supported` holds
    /// the answers to [`PhysicalDeviceSelector::feature_queries`].
    pub fn has_required_features(&self, supported: &Vec<GenericFeature>) -> (ok: bool)
        requires
            answers_queries(self.required_features(), supported@),
        ensures
            ok == features_supported(self.required_features(), supported@),
    {
        proof {
            use_type_invariant(self);
        }
        let n = self.required_features.len();
        let mut i: usize = 0;
        while i < n
            invariant
                n == self.required_features@.len(),
                answers_queries(self.required_features(), supported@),
                forall|j: int|
                    0 <= j < n ==> (#[trigger] self.required_features@[j]).bytes@.len()
                        >= FEATURE_HEADER_SIZE,
                i <= n,
                forall|j: int|
                    0 <= j < i ==> feature_satisfied(
                        (#[trigger] self.required_features@[j]).bytes@,
                        supported@[j].bytes@,
                        self.required_features@[j].order,
                    ),
            decreases n - i,
        {
            if !self.required_features[i].satisfied_by(&supported[i]) {
                return false;
            }
            i = i + 1;
        }
        true
    }

    /// Whether the device passes every check, or the error of the query that
    /// failed first.
    pub fn check_device(&self, d: &DeviceCandidate) -> (r: Result<bool, i32>)
        requires
            candidate_well_formed(*self, *d),
        ensures
            r == device_suitability(*self, *d),
    {
        match self.has_required_extensions(d) {
            Err(e) => {
                return Err(e);
            },
            Ok(false) => {
                return Ok(false);
            },
            Ok(true) => {},
        }
        match has_present_support(&d.surface_support) {
            Err(e) => {
                return Err(e);
            },
            Ok(false) => {
                return Ok(false);
            },
            Ok(true) => {},
        }
        let graphics = find_graphics_family(&d.queue_flags);
        if graphics.is_none() {
            return Ok(false);
        }
        let features = self.has_required_features(&d.supported_features);
        Ok(features)
    }

    /// Chooses among the instance's physical devices, listed in enumeration
    /// order: the last suitable device of the preferred type, or, if there is
    /// none, the first suitable device. The chosen device keeps the required
    /// extensions and features to enable.
    pub fn select(self, devices: Vec<DeviceCandidate>) -> (r: Result<PhysicalDevice, SelectError>)
        requires
            forall|i: int| 0 <= i < devices@.len() ==> candidate_well_formed(self, #[trigger] devices@[i]),
        ensures
            devices@.len() == 0 ==> r == Err::<PhysicalDevice, SelectError>(SelectError::NoDevices),
            forall|i: int| #[trigger] is_first_error(self, devices@, i) ==> r == Err::<PhysicalDevice, SelectError>(
                SelectError::Vulkan(device_suitability(self, devices@[i])->Err_0),
            ),
            devices@.len() > 0 && no_errors(self, devices@) ==> match r {
                Ok(pd) => exists|i: int| #[trigger] is_chosen(self, devices@, i) && pd.physical_device == devices@[i].handle,
                Err(e) => e == SelectError::NoSuitableDevice && forall|i: int| 0 <= i < devices@.len() ==> !#[trigger] suitable(self, devices@, i),
            },
            r matches Ok(pd) ==> pd.features@ == self.required_features() && pd.extensions@.map_values(|e: Vec<u8>| e@) == self.required_extensions(),
    {
        let ghost ds = devices@;
        if devices.len() == 0 {
            return Err(SelectError::NoDevices);
        }
        let n = devices.len();
        let mut has_best = false;
        let mut best: usize = 0;
        let mut best_preferred = false;
        let mut i: usize = 0;
        while i < n
            invariant
                n == devices@.len(),
                ds == devices@,
                i <= n,
                forall|k: int| 0 <= k < n ==> candidate_well_formed(self, #[trigger] ds[k]),
                forall|k: int| 0 <= k < i ==> !(#[trigger] device_suitability(self, ds[k]) is Err),
                !has_best ==> forall|k: int| 0 <= k < i ==> !#[trigger] suitable(self, ds, k),
                has_best ==> best < i,
                has_best && best_preferred ==> suitable_preferred(self, ds, best as int)
                    && forall|k: int| best < k < i ==> !#[trigger] suitable_preferred(self, ds, k),
                has_best && !best_preferred ==> suitable(self, ds, best as int)
                    && (forall|k: int| 0 <= k < best ==> !#[trigger] suitable(self, ds, k))
                    && (forall|k: int| 0 <= k < i ==> !#[trigger] suitable_preferred(self, ds, k)),
            decreases n - i,
        {
            let d = &devices[i];
            match self.check_device(d) {
                Err(e) => {
                    proof {
                        assert(is_first_error(self, ds, i as int));
                        assert forall|k: int| #[trigger] is_first_error(self, ds, k) implies k == i by {
                            if k < i {
                            } else if k > i {
                                assert(device_suitability(self, ds[i as int]) is Err);
                            }
                        }
                    }
                    return Err(SelectError::Vulkan(e));
                },
                Ok(false) => {},
                Ok(true) => {
                    let is_preferred = d.device_type == self.preferred_type;
                    if has_best && best_preferred && !is_preferred {
                    } else if is_preferred {
                        has_best = true;
                        best = i;
                        best_preferred = true;
                    } else if !has_best {
                        has_best = true;
                        best = i;
                        best_preferred = false;
                    }
                },
            }
            i = i + 1;
        }
        proof {
            assert(no_errors(self, ds));
            assert forall|k: int| #[trigger] is_first_error(self, ds, k) implies false by {}
        }
        if !has_best {
            Err(SelectError::NoSuitableDevice)
        } else {
            let b = best;
            {
                proof {
                    if best_preferred {
                        assert(suitable_preferred(self, ds, b as int));
                        assert(is_chosen(self, ds, b as int));
                    } else {
                        assert(!exists|j: int| 0 <= j < ds.len() && #[trigger] suitable_preferred(self, ds, j));
                        assert(is_chosen(self, ds, b as int));
                    }
                }
                let handle = devices[b].handle;
                let extensions = self.required_extensions;
                let features = self.required_features;
                Ok(PhysicalDevice { physical_device: handle, features, extensions })
            }
        }
    }
}

/// The distinct queue families among the graphics and present families:
/// one when they coincide, both (graphics first) otherwise.
pub open spec fn unique_families(graphics: u32, present: u32) -> Seq<u32> {
    if graphics == present {
        seq![graphics]
    } else {
        seq![graphics, present]
    }
}

/// The queue families to create one queue each from.
pub fn unique_queue_families(graphics: u32, present: u32) -> (families: Vec<u32>)
    ensures
        families@ == unique_families(graphics, present),
{
    if graphics == present {
        vec![graphics]
    } else {
        vec![graphics, present]
    }
}

/// Why no logical device could be planned.
#[derive(Clone, Copy, Debug, PartialEq, Eq, Structural)]
pub enum DeviceError {
    /// No queue family supports graphics.
    NoGraphicsQueueFamily,
    /// No queue family can present to the surface.
    NoPresentQueueFamily,
    /// A query failed with this `VkResult`.
    Vulkan(i32),
}

/// Everything a logical device is created from.
pub struct DevicePlan {
    /// Raw `VkPhysicalDevice` handle.
    pub physical_device: u64,
    pub graphics_family: u32,
    pub present_family: u32,
    /// The families to create one queue each from, priority 1.
    pub unique_families: Vec<u32>,
    pub extensions: Vec<Vec<u8>>,
    /// The feature structures to chain into the creation info.
    pub features: Vec<GenericFeature>,
}

/// Plans the logical device of a chosen physical device.
pub struct DeviceBuilder {
    selected: PhysicalDevice,
}

impl DeviceBuilder {
    pub closed spec fn selected(&self) -> PhysicalDevice {
        self.selected
    }

    pub fn new(selected: PhysicalDevice) -> (b: Self)
        ensures
            b.selected() == selected,
    {
        DeviceBuilder { selected }
    }

    /// The queue families and the rest of the creation info of the device,
    /// given the flags of each of its queue families and the answer of the
    /// presentation-support query for each: the graphics family is the first
    /// with graphics support, the present family the first that can present.
    pub fn build(self, queue_flags: &Vec<u32>, surface_support: &Vec<Result<bool, i32>>) -> (r: Result<DevicePlan, DeviceError>)
        requires
            queue_flags@.len() <= u32::MAX,
            surface_support@.len() == queue_flags@.len(),
        ensures
            (forall|j: int| 0 <= j < queue_flags@.len() ==> !has_graphics(#[trigger] queue_flags@[j]))
                ==> r == Err::<DevicePlan, DeviceError>(DeviceError::NoGraphicsQueueFamily),
            forall|g: int| #[trigger] is_first_graphics_family(queue_flags@, g) ==> match present_scan(surface_support@, 0) {
                Err(e) => r == Err::<DevicePlan, DeviceError>(DeviceError::Vulkan(e)),
                Ok(None) => r == Err::<DevicePlan, DeviceError>(DeviceError::NoPresentQueueFamily),
                Ok(Some(p)) => r matches Ok(plan) && plan.graphics_family == g && plan.present_family == p
                    && plan.unique_families@ == unique_families(g as u32, p as u32)
                    && plan.physical_device == self.selected().physical_device
                    && plan.extensions == self.selected().extensions
                    && plan.features == self.selected().features,
            },
    {
        let graphics_family = match find_graphics_family(queue_flags) {
            None => {
                return Err(DeviceError::NoGraphicsQueueFamily);
            },
            Some(g) => g,
        };
        proof {
            assert forall|g: int| #[trigger] is_first_graphics_family(queue_flags@, g) implies g == graphics_family by {
                if g < graphics_family {
                    assert(!has_graphics(queue_flags@[g]));
                } else if g > graphics_family {
                    assert(!has_graphics(queue_flags@[graphics_family as int]));
                }
            }
        }
        let present_family = match find_present_family(surface_support) {
            Err(e) => {
                return Err(DeviceError::Vulkan(e));
            },
            Ok(None) => {
                return Err(DeviceError::NoPresentQueueFamily);
            },
            Ok(Some(p)) => p,
        };
        proof {
            lemma_present_scan_range(surface_support@, 0);
        }
        let unique_families = unique_queue_families(graphics_family, present_family);
        let selected = self.selected;
        Ok(DevicePlan {
            physical_device: selected.physical_device,
            graphics_family,
            present_family,
            unique_families,
            extensions: selected.extensions,
            features: selected.features,
        })
    }
}

/// Query structures made as `feature_queries` makes them can always be
/// answered in the shape `select` needs: the device fills them in place,
/// keeping their size and structure type.
pub proof fn lemma_queries_have_answer_shape(required: Seq<GenericFeature>, queries: Seq<GenericFeature>)
    requires
        queries.len() == required.len(),
        forall|i: int| 0 <= i < required.len() ==> (#[trigger] required[i]).bytes@.len() >= 4,
        forall|i: int| 0 <= i < queries.len() ==> (#[trigger] queries[i]).bytes@ == zeroed_query(required[i].bytes@)
            && queries[i].order == required[i].order,
    ensures
        answers_queries(required, queries),
{
    assert forall|i: int| 0 <= i < required.len() implies (#[trigger] queries[i]).bytes@.len()
        == required[i].bytes@.len() && queries[i].bytes@.subrange(0, 4) == required[i].bytes@.subrange(0, 4) by {
        assert(queries[i].bytes@.subrange(0, 4) =~= required[i].bytes@.subrange(0, 4));
    }
}

/// A structure supports every feature it enables itself, and a zeroed query
/// enables nothing, so any answer satisfies it.
pub proof fn lemma_feature_satisfied_basics(req: Seq<u8>, sup: Seq<u8>, order: ByteOrder)
    requires
        req.len() >= 16,
    ensures
        feature_satisfied(req, req, order),
        feature_satisfied(zeroed_query(req), sup, order),
{
    let z = zeroed_query(req);
    assert forall|k: int| 0 <= k < feature_field_count(z) implies #[trigger] feature_field(z, k, order) != VK_TRUE by {
        assert(z[16 + 4 * k] == 0 && z[17 + 4 * k] == 0 && z[18 + 4 * k] == 0 && z[19 + 4 * k] == 0);
    }
}

} // verus!
