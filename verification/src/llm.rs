//! The model lifecycle manager: which model is loaded, where it runs, and
//! the decisions of loading and unloading.
//!
//! At most one model is loaded at a time. Loading is done in two steps around
//! the runtime's own work: [`begin_load`] decides whether the load may go
//! ahead and what has to be given up first, [`finish_load`] records how it
//! ended. A load that is turned away changes nothing.

use crate::text::{str_is_empty, str_trim};
use vstd::prelude::*;

verus! {

/// What is known of the graphics processor.
#[derive(Debug, Clone)]
pub struct GpuInfo {
    pub available: bool,
    pub backend: String,
    pub device_name: String,
    pub vram_total_mb: u64,
    pub vram_free_mb: u64,
}

/// Whether the runtime can place layers on a graphics processor.
#[derive(Clone, Copy, Debug, PartialEq, Eq, Structural)]
pub enum PlacementCapability {
    CpuOnly,
    GpuCapable,
}

/// Where a loaded model runs.
#[derive(Clone, Copy, Debug, PartialEq, Eq, Structural)]
pub enum Placement {
    Cpu,
    Gpu { layers: u32 },
}

/// What callers see of the manager.
#[derive(Clone, Copy, Debug, PartialEq, Eq, Structural)]
pub enum ModelStatus {
    Unloaded,
    Loaded { context_window_tokens: u32, placement: Placement },
}

/// Why the runtime could not load a model.
#[derive(Debug)]
pub enum LoadFailure {
    /// The runtime returned no model: the file is not a usable model.
    NullResult,
    /// Anything else, in the runtime's words.
    Other(String),
}

/// Why a load did not happen.
#[derive(Debug)]
pub enum LifecycleError {
    /// No file at the path.
    FileNotFound(String),
    /// The runtime refused the file.
    RuntimeLoadFailed(String),
    /// The exclusive section could not be entered; trying again may help.
    LockContention,
}

/// What a load has to do before it calls the runtime.
#[derive(Clone, Copy, Debug, PartialEq, Eq, Structural)]
pub struct LoadPlan {
    /// A model was loaded and has to be released first.
    pub release_previous: bool,
    /// How long to wait after the release, in milliseconds.
    pub settle_millis: u64,
    /// How many layers to place on the graphics processor.
    pub gpu_layers: u32,
}

/// All layers, as far as the runtime is concerned.
pub const ALL_GPU_LAYERS: u32 = 99;

/// The pause that lets the device reclaim memory after a release.
pub const SETTLE_MILLIS: u64 = 800;

/// The context window of a manager that never loaded a model.
pub const DEFAULT_CONTEXT_SIZE: u32 = 2048;

/// The thread count to fall back on when the machine does not tell.
pub const DEFAULT_CPU_THREADS: i32 = 4;

/// The layers to place on the graphics processor.
pub open spec fn layers_for(capability: PlacementCapability) -> u32 {
    match capability {
        PlacementCapability::GpuCapable => ALL_GPU_LAYERS,
        PlacementCapability::CpuOnly => 0,
    }
}

/// Where a model runs that was loaded under the capability.
pub open spec fn placement_for(capability: PlacementCapability) -> Placement {
    match capability {
        PlacementCapability::GpuCapable => Placement::Gpu { layers: ALL_GPU_LAYERS },
        PlacementCapability::CpuOnly => Placement::Cpu,
    }
}

/// The manager of the one model that may be loaded.
pub struct ModelManager {
    pub status: ModelStatus,
    /// The path of the loaded model.
    pub model_path: Option<String>,
    /// The context window of the last successful load.
    pub context_size: u32,
    /// What the runtime said of the machine when the process started.
    pub capability: PlacementCapability,
}

impl ModelManager {
    /// A path is recorded exactly while a model is loaded, and the recorded
    /// context window is that of the loaded model.
    pub open spec fn wf(&self) -> bool {
        match self.status {
            ModelStatus::Unloaded => self.model_path is None,
            ModelStatus::Loaded { context_window_tokens, placement } => self.model_path is Some
                && context_window_tokens == self.context_size && placement == placement_for(
                self.capability,
            ),
        }
    }

    /// A manager with nothing loaded, for a runtime that does or does not
    /// support a graphics processor.
    pub fn new(gpu_supported: bool) -> (m: ModelManager)
        ensures
            m.wf(),
            m.status == ModelStatus::Unloaded,
            m.context_size == DEFAULT_CONTEXT_SIZE,
            m.capability == if gpu_supported {
                PlacementCapability::GpuCapable
            } else {
                PlacementCapability::CpuOnly
            },
    {
        ModelManager {
            status: ModelStatus::Unloaded,
            model_path: None,
            context_size: DEFAULT_CONTEXT_SIZE,
            capability: if gpu_supported {
                PlacementCapability::GpuCapable
            } else {
                PlacementCapability::CpuOnly
            },
        }
    }

    /// Whether the manager is as every operation leaves it.
    pub fn is_well_formed(&self) -> (b: bool)
        ensures
            b == self.wf(),
    {
        let expected = match self.capability {
            PlacementCapability::GpuCapable => Placement::Gpu { layers: ALL_GPU_LAYERS },
            PlacementCapability::CpuOnly => Placement::Cpu,
        };
        match self.status {
            ModelStatus::Unloaded => self.model_path.is_none(),
            ModelStatus::Loaded { context_window_tokens, placement } => self.model_path.is_some()
                && context_window_tokens == self.context_size && placement == expected,
        }
    }

    /// What callers see: unloaded, or loaded with window and placement.
    pub fn status(&self) -> (s: ModelStatus)
        ensures
            s == self.status,
    {
        self.status
    }

    /// What the runtime said of the machine when the process started.
    pub fn placement_capability(&self) -> (c: PlacementCapability)
        ensures
            c == self.capability,
    {
        self.capability
    }
}

/// Whether a graphics processor can be used.
pub fn is_gpu_available(manager: &ModelManager) -> (b: bool)
    ensures
        b == (manager.capability == PlacementCapability::GpuCapable),
{
    match manager.capability {
        PlacementCapability::GpuCapable => true,
        PlacementCapability::CpuOnly => false,
    }
}

/// Whether a model is loaded.
pub fn is_loaded(manager: &ModelManager) -> (b: bool)
    ensures
        b == (manager.status is Loaded),
{
    match manager.status {
        ModelStatus::Loaded { .. } => true,
        ModelStatus::Unloaded => false,
    }
}

/// The number of layers to place on the graphics processor: all of them
/// where one can be used, none where not.
pub fn gpu_layers(manager: &ModelManager) -> (n: u32)
    ensures
        n == layers_for(manager.capability),
{
    if is_gpu_available(manager) {
        ALL_GPU_LAYERS
    } else {
        0
    }
}

/// The bytes in a mebibyte.
pub const MEBIBYTE: u64 = 1024 * 1024;

/// The name under which a device is shown: its own name without surrounding
/// whitespace, or a generic one when nothing is left.
pub open spec fn device_label(name: Seq<char>) -> Seq<char> {
    if crate::text::trim(name).len() == 0 {
        "NVIDIA GPU"@
    } else {
        crate::text::trim(name)
    }
}

/// What the management library reported of the first device, made ready for
/// display: the name, and total and free memory in mebibytes.
pub fn describe_device(name: &str, total_bytes: u64, free_bytes: u64) -> (r: (String, u64, u64))
    ensures
        r.0@ == device_label(name@),
        r.1 == total_bytes / MEBIBYTE,
        r.2 == free_bytes / MEBIBYTE,
{
    let trimmed = str_trim(name);
    let label = if str_is_empty(trimmed.as_str()) {
        String::from_str("NVIDIA GPU")
    } else {
        trimmed
    };
    (label, total_bytes / MEBIBYTE, free_bytes / MEBIBYTE)
}

/// What is known of the graphics processor. `device` is what the management
/// library reported of the first device, if it could be asked.
///
/// Without a usable graphics processor the answer is the fixed one for the
/// processor alone. With one, the device is described as reported, or as an
/// unnamed device without memory figures.
pub fn get_gpu_info(manager: &ModelManager, device: Option<(String, u64, u64)>) -> (info: GpuInfo)
    ensures
        info.available == (manager.capability == PlacementCapability::GpuCapable),
        !info.available ==> info.backend@ == "CPU"@ && info.device_name@ == "N/A"@
            && info.vram_total_mb == 0 && info.vram_free_mb == 0,
        info.available ==> info.backend@ == "CUDA"@,
        info.available && device is Some ==> info.device_name@ == device->Some_0.0@
            && info.vram_total_mb == device->Some_0.1 && info.vram_free_mb == device->Some_0.2,
        info.available && device is None ==> info.device_name@ == "NVIDIA GPU"@
            && info.vram_total_mb == 0 && info.vram_free_mb == 0,
{
    if is_gpu_available(manager) {
        let (device_name, vram_total_mb, vram_free_mb) = match device {
            Some(d) => d,
            None => (String::from_str("NVIDIA GPU"), 0, 0),
        };
        GpuInfo {
            available: true,
            backend: String::from_str("CUDA"),
            device_name,
            vram_total_mb,
            vram_free_mb,
        }
    } else {
        GpuInfo {
            available: false,
            backend: String::from_str("CPU"),
            device_name: String::from_str("N/A"),
            vram_total_mb: 0,
            vram_free_mb: 0,
        }
    }
}

/// The number of threads to run inference with, from what the machine
/// reported: that number, 4 when it did not tell, and never less than 1.
pub fn cpu_thread_count(detected: Option<usize>) -> (n: i32)
    ensures
        n >= 1,
        detected is None ==> n == DEFAULT_CPU_THREADS,
        detected is Some && 1 <= detected->Some_0 <= i32::MAX ==> n == detected->Some_0,
        detected is Some && detected->Some_0 == 0 ==> n == 1,
        detected is Some ==> n == if (detected->Some_0 as i32) < 1 {
            1
        } else {
            detected->Some_0 as i32
        },
{
    match detected {
        None => DEFAULT_CPU_THREADS,
        Some(p) => {
            let t: i32 = #[verifier::truncate]
            (p as i32);
            if t < 1 {
                1
            } else {
                t
            }
        },
    }
}

/// Forgets the loaded model. Doing so with nothing loaded changes nothing.
pub fn unload_model(manager: &mut ModelManager)
    requires
        old(manager).wf(),
    ensures
        final(manager).wf(),
        final(manager).status == ModelStatus::Unloaded,
        final(manager).model_path is None,
        final(manager).context_size == old(manager).context_size,
        final(manager).capability == old(manager).capability,
        old(manager).status == ModelStatus::Unloaded ==> *final(manager) == *old(manager),
{
    manager.status = ModelStatus::Unloaded;
    manager.model_path = None;
}

/// Decides whether a load of `path` may go ahead.
///
/// `section_entered` tells whether the exclusive section of loading and
/// unloading could be entered, `path_exists` whether a file is at the path.
/// A load that cannot enter the section fails with `LockContention`, one
/// whose file is missing with `FileNotFound`; either leaves the manager, and
/// with it a model that is loaded, exactly as it was. Any other load goes
/// ahead: the loaded model, if there is one, is given up, and the plan tells
/// what to release, how long to let the device settle and where to place the
/// new model.
pub fn begin_load(
    manager: &mut ModelManager,
    path: &str,
    section_entered: bool,
    path_exists: bool,
) -> (r: Result<LoadPlan, LifecycleError>)
    requires
        old(manager).wf(),
    ensures
        final(manager).wf(),
        !section_entered ==> r is Err && r->Err_0 == LifecycleError::LockContention && *final(manager) == *old(manager),
        section_entered && !path_exists ==> r is Err && r->Err_0 is FileNotFound
            && r->Err_0->FileNotFound_0@ == path@ && *final(manager) == *old(manager),
        section_entered && path_exists ==> r is Ok && r->Ok_0 == (LoadPlan {
            release_previous: old(manager).status is Loaded,
            settle_millis: SETTLE_MILLIS,
            gpu_layers: layers_for(old(manager).capability),
        }) && final(manager).status == ModelStatus::Unloaded && final(manager).context_size
            == old(manager).context_size && final(manager).capability == old(manager).capability,
{
    if !section_entered {
        return Err(LifecycleError::LockContention);
    }
    if !path_exists {
        return Err(LifecycleError::FileNotFound(String::from_str(path)));
    }
    let release_previous = is_loaded(manager);
    let layers = gpu_layers(manager);
    unload_model(manager);
    Ok(LoadPlan { release_previous, settle_millis: SETTLE_MILLIS, gpu_layers: layers })
}

/// What the caller is told when the runtime could not load the model.
pub open spec fn load_failure_message(failure: LoadFailure) -> Seq<char> {
    match failure {
        LoadFailure::NullResult => "Не удалось загрузить модель. Убедитесь что файл GGUF корректен и не повреждён."@,
        LoadFailure::Other(detail) => "Failed to load model: "@ + detail@,
    }
}

/// Records how the runtime's load ended.
///
/// After a success the manager shows the model as loaded, with the context
/// window and the placement that the capability gives. After a failure
/// nothing is loaded and the error carries the runtime's reason.
pub fn finish_load(
    manager: &mut ModelManager,
    path: &str,
    context_length: usize,
    outcome: Result<(), LoadFailure>,
) -> (r: Result<(), LifecycleError>)
    requires
        old(manager).wf(),
        old(manager).status == ModelStatus::Unloaded,
    ensures
        final(manager).wf(),
        final(manager).capability == old(manager).capability,
        outcome is Ok ==> r is Ok && final(manager).status == (ModelStatus::Loaded {
            context_window_tokens: context_length as u32,
            placement: placement_for(old(manager).capability),
        }) && final(manager).model_path is Some && final(manager).model_path->Some_0@ == path@,
        outcome is Err ==> r is Err && r->Err_0 is RuntimeLoadFailed
            && r->Err_0->RuntimeLoadFailed_0@ == load_failure_message(outcome->Err_0) && *final(manager) == *old(manager),
{
    match outcome {
        Ok(_) => {
            let window: u32 = #[verifier::truncate]
            (context_length as u32);
            let placement = if is_gpu_available(manager) {
                Placement::Gpu { layers: ALL_GPU_LAYERS }
            } else {
                Placement::Cpu
            };
            manager.context_size = window;
            manager.model_path = Some(String::from_str(path));
            manager.status = ModelStatus::Loaded { context_window_tokens: window, placement };
            Ok(())
        },
        Err(failure) => {
            let message = match failure {
                LoadFailure::NullResult => String::from_str(
                    "Не удалось загрузить модель. Убедитесь что файл GGUF корректен и не повреждён.",
                ),
                LoadFailure::Other(detail) => {
                    let mut m = String::from_str("Failed to load model: ");
                    m.append(detail.as_str());
                    m
                },
            };
            Err(LifecycleError::RuntimeLoadFailed(message))
        },
    }
}

} // verus!
