//! The settings a Vulkan instance is created with.
use vstd::prelude::*;

verus! {

/// `ash::vk::make_api_version`: packs a Vulkan version number into the
/// 32-bit form the API uses (variant in bits 29 and up, major in 22 and up,
/// minor in 12 and up, patch in the low 12 bits).
#[verifier::external_body]
pub(crate) fn make_api_version(variant: u32, major: u32, minor: u32, patch: u32) -> (version: u32)
    ensures
        version == (variant << 29u32) | (major << 22u32) | (minor << 12u32) | patch,
{
    ash::vk::make_api_version(variant, major, minor, patch)
}

/// `VK_DEBUG_UTILS_MESSAGE_SEVERITY_WARNING_BIT_EXT | VK_DEBUG_UTILS_MESSAGE_SEVERITY_ERROR_BIT_EXT`.
pub const DEBUG_SEVERITY_WARNING_AND_ERROR: u32 = 0x100 | 0x1000;

/// `VK_DEBUG_UTILS_MESSAGE_TYPE_GENERAL_BIT_EXT | VALIDATION_BIT | PERFORMANCE_BIT`.
pub const DEBUG_TYPE_GENERAL_VALIDATION_PERFORMANCE: u32 = 0x1 | 0x2 | 0x4;

/// The settings of a debug messenger: which severities and which message
/// types it reports (raw flags).
#[derive(Clone, Copy, Debug, PartialEq, Eq, Structural)]
pub struct DebugMessengerSettings {
    pub severity: u32,
    pub message_type: u32,
}

/// Everything an instance is created with, besides what the window system
/// requires.
pub struct InstancePlan {
    /// The application name as a C string, its NUL included.
    pub app_name: Vec<u8>,
    /// The engine name as a C string, its NUL included.
    pub engine_name: Vec<u8>,
    pub api_version: u32,
    /// Whether to enable the `VK_LAYER_KHRONOS_validation` layer.
    pub validation_layer: bool,
    /// Whether to enable the `VK_EXT_debug_utils` extension and create a
    /// messenger with these settings.
    pub debug_messenger: Option<DebugMessengerSettings>,
}

/// A name that cannot be a C string: it holds a NUL byte at this position.
#[derive(Clone, Copy, Debug, PartialEq, Eq, Structural)]
pub enum InstanceError {
    AppNameHasNul(usize),
    EngineNameHasNul(usize),
}

/// The UTF-8 bytes of a string.
pub open spec fn utf8_bytes(s: Seq<char>) -> Seq<u8> {
    vstd::utf8::encode_utf8(s)
}

/// `i` is the position of the first NUL byte of `bytes`.
pub open spec fn is_first_nul(bytes: Seq<u8>, i: int) -> bool {
    0 <= i < bytes.len() && bytes[i] == 0 && forall|j: int| 0 <= j < i ==> bytes[j] != 0
}

/// The C string of `bytes` when it has no NUL byte: the bytes and a NUL.
pub open spec fn c_string(bytes: Seq<u8>) -> Seq<u8> {
    bytes.push(0u8)
}

/// `std::ffi::CString::new` on bytes: the C string, or the position of the
/// first NUL byte.
fn to_c_string(bytes: &[u8]) -> (r: Result<Vec<u8>, usize>)
    ensures
        match r {
            Ok(c) => c@ == c_string(bytes@) && forall|j: int| 0 <= j < bytes@.len() ==> bytes@[j] != 0,
            Err(i) => is_first_nul(bytes@, i as int),
        },
{
    let n = bytes.len();
    let mut out: Vec<u8> = Vec::new();
    let mut i: usize = 0;
    while i < n
        invariant
            n == bytes@.len(),
            i <= n,
            out@ == bytes@.take(i as int),
            forall|j: int| 0 <= j < i ==> bytes@[j] != 0,
        decreases n - i,
    {
        if bytes[i] == 0 {
            return Err(i);
        }
        out.push(bytes[i]);
        proof {
            assert(out@ =~= bytes@.take(i + 1));
        }
        i = i + 1;
    }
    out.push(0u8);
    proof {
        assert(bytes@.take(n as int) =~= bytes@);
    }
    Ok(out)
}

/// Collects the settings of an instance.
pub struct InstanceBuilder {
    app_name: String,
    engine_name: String,
    api_version: u32,
    validation: bool,
    debug_messenger: bool,
}

impl InstanceBuilder {
    pub closed spec fn app_name_chars(&self) -> Seq<char> {
        self.app_name@
    }

    pub closed spec fn engine_name_chars(&self) -> Seq<char> {
        self.engine_name@
    }

    pub closed spec fn version(&self) -> u32 {
        self.api_version
    }

    pub closed spec fn validation_enabled(&self) -> bool {
        self.validation
    }

    pub closed spec fn debug_messenger_enabled(&self) -> bool {
        self.debug_messenger
    }

    /// Empty names, Vulkan 1.3, no validation and no debug messenger.
    pub fn new() -> (b: Self)
        ensures
            b.app_name_chars().len() == 0,
            b.engine_name_chars().len() == 0,
            b.version() == (1u32 << 22u32) | (3u32 << 12u32),
            !b.validation_enabled(),
            !b.debug_messenger_enabled(),
    {
        let api_version = make_api_version(0, 1, 3, 0);
        assert(((0u32 << 29u32) | (1u32 << 22u32) | (3u32 << 12u32) | 0u32) == ((1u32 << 22u32) | (3u32 << 12u32))) by (bit_vector);
        InstanceBuilder {
            app_name: String::new(),
            engine_name: String::new(),
            api_version,
            validation: false,
            debug_messenger: false,
        }
    }

    pub fn app_name(self, name: &str) -> (b: Self)
        ensures
            b.app_name_chars() == name@,
            b.engine_name_chars() == self.engine_name_chars(),
            b.version() == self.version(),
            b.validation_enabled() == self.validation_enabled(),
            b.debug_messenger_enabled() == self.debug_messenger_enabled(),
    {
        InstanceBuilder { app_name: name.to_owned(), ..self }
    }

    pub fn engine_name(self, name: &str) -> (b: Self)
        ensures
            b.app_name_chars() == self.app_name_chars(),
            b.engine_name_chars() == name@,
            b.version() == self.version(),
            b.validation_enabled() == self.validation_enabled(),
            b.debug_messenger_enabled() == self.debug_messenger_enabled(),
    {
        InstanceBuilder { engine_name: name.to_owned(), ..self }
    }

    pub fn api_version(self, version: u32) -> (b: Self)
        ensures
            b.app_name_chars() == self.app_name_chars(),
            b.engine_name_chars() == self.engine_name_chars(),
            b.version() == version,
            b.validation_enabled() == self.validation_enabled(),
            b.debug_messenger_enabled() == self.debug_messenger_enabled(),
    {
        InstanceBuilder { api_version: version, ..self }
    }

    pub fn validation(self, enable: bool) -> (b: Self)
        ensures
            b.app_name_chars() == self.app_name_chars(),
            b.engine_name_chars() == self.engine_name_chars(),
            b.version() == self.version(),
            b.validation_enabled() == enable,
            b.debug_messenger_enabled() == self.debug_messenger_enabled(),
    {
        InstanceBuilder { validation: enable, ..self }
    }

    pub fn debug_messenger(self, enable: bool) -> (b: Self)
        ensures
            b.app_name_chars() == self.app_name_chars(),
            b.engine_name_chars() == self.engine_name_chars(),
            b.version() == self.version(),
            b.validation_enabled() == self.validation_enabled(),
            b.debug_messenger_enabled() == enable,
    {
        InstanceBuilder { debug_messenger: enable, ..self }
    }

    /// The settings of the instance: both names as C strings (the
    /// application name is checked first), the API version, the validation
    /// layer, and a messenger for warnings and errors of every type when the
    /// debug messenger is enabled.
    pub fn build(self) -> (r: Result<InstancePlan, InstanceError>)
        ensures
            match r {
                Ok(plan) => {
                    &&& plan.app_name@ == c_string(utf8_bytes(self.app_name_chars()))
                    &&& plan.engine_name@ == c_string(utf8_bytes(self.engine_name_chars()))
                    &&& !utf8_bytes(self.app_name_chars()).contains(0u8)
                    &&& !utf8_bytes(self.engine_name_chars()).contains(0u8)
                    &&& plan.api_version == self.version()
                    &&& plan.validation_layer == self.validation_enabled()
                    &&& plan.debug_messenger == if self.debug_messenger_enabled() {
                        Some(DebugMessengerSettings {
                            severity: DEBUG_SEVERITY_WARNING_AND_ERROR,
                            message_type: DEBUG_TYPE_GENERAL_VALIDATION_PERFORMANCE,
                        })
                    } else {
                        None
                    }
                },
                Err(InstanceError::AppNameHasNul(i)) => is_first_nul(utf8_bytes(self.app_name_chars()), i as int),
                Err(InstanceError::EngineNameHasNul(i)) => !utf8_bytes(self.app_name_chars()).contains(0u8)
                    && is_first_nul(utf8_bytes(self.engine_name_chars()), i as int),
            },
    {
        let app_name = match to_c_string(self.app_name.as_str().as_bytes()) {
            Ok(c) => c,
            Err(i) => {
                return Err(InstanceError::AppNameHasNul(i));
            },
        };
        let engine_name = match to_c_string(self.engine_name.as_str().as_bytes()) {
            Ok(c) => c,
            Err(i) => {
                return Err(InstanceError::EngineNameHasNul(i));
            },
        };
        let debug_messenger = if self.debug_messenger {
            Some(DebugMessengerSettings {
                severity: DEBUG_SEVERITY_WARNING_AND_ERROR,
                message_type: DEBUG_TYPE_GENERAL_VALIDATION_PERFORMANCE,
            })
        } else {
            None
        };
        Ok(InstancePlan {
            app_name,
            engine_name,
            api_version: self.api_version,
            validation_layer: self.validation,
            debug_messenger,
        })
    }
}

} // verus!
