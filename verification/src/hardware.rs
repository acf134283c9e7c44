//! Hardware detection policy: which GPU backend to use and how to configure
//! the transcription engine for it. The platform facts themselves (operating
//! system, CUDA availability) are queried by the caller and handed in as
//! plain booleans.

use vstd::prelude::*;

verus! {

/// The kind of GPU acceleration available.
#[derive(Debug, Clone)]
pub enum GpuType {
    NoGpu,
    Cuda,
    Metal,
    Vulkan,
    OpenCL,
}

/// A coarse ranking of how capable the machine is.
#[derive(Debug, Clone)]
pub enum PerformanceTier {
    Low,
    Medium,
    High,
    Ultra,
}

/// Configuration handed to the transcription engine. The sampling
/// temperature is carried in thousandths, so `0` means a temperature of
/// exactly zero.
#[derive(Debug, Clone)]
pub struct WhisperConfig {
    pub use_gpu: bool,
    pub beam_size: u32,
    pub temperature_milli: u32,
    pub max_threads: Option<i32>,
}

/// What was detected about the machine this process runs on.
#[derive(Debug, Clone)]
pub struct HardwareProfile {
    pub gpu_type: GpuType,
    pub performance_tier: PerformanceTier,
}

/// Whether a GPU backend is present at all.
pub open spec fn gpu_present(g: GpuType) -> bool {
    !(g is NoGpu)
}

impl HardwareProfile {
    /// Derives the hardware profile from the platform facts the caller
    /// queried: macOS gets Metal, otherwise CUDA when it is available, and
    /// no GPU backend in every other case. The tier defaults to `Medium`.
    pub fn detect(on_macos: bool, cuda_available: bool) -> (p: HardwareProfile)
        ensures
            p.gpu_type == (if on_macos {
                GpuType::Metal
            } else if cuda_available {
                GpuType::Cuda
            } else {
                GpuType::NoGpu
            }),
            p.performance_tier is Medium,
    {
        let gpu_type = if on_macos {
            GpuType::Metal
        } else if cuda_available {
            GpuType::Cuda
        } else {
            GpuType::NoGpu
        };
        HardwareProfile { gpu_type, performance_tier: PerformanceTier::Medium }
    }

    /// The transcription configuration for this profile: GPU use exactly
    /// when a GPU backend is present, beam size 5, temperature zero, and at
    /// most four threads.
    pub fn get_whisper_config(&self) -> (c: WhisperConfig)
        ensures
            c.use_gpu == gpu_present(self.gpu_type),
            c.beam_size == 5,
            c.temperature_milli == 0,
            c.max_threads == Some(4i32),
    {
        WhisperConfig {
            use_gpu: !matches!(self.gpu_type, GpuType::NoGpu),
            beam_size: 5,
            temperature_milli: 0,
            max_threads: Some(4),
        }
    }
}

} // verus!
