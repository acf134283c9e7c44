//! Tests of the download-progress accounting and the hardware profile
//! policy.

use diarize::hardware::GpuType;
use diarize::hardware::HardwareProfile;
use diarize::progress::download_progress;
use diarize::progress::progress_event_due;
use diarize::similarity::is_valid_embedding;

#[test]
fn progress_percentages_round_down() {
    assert_eq!(download_progress(0, 1), 0);
    assert_eq!(download_progress(50, 200), 25);
    assert_eq!(download_progress(199, 200), 99);
    assert_eq!(download_progress(7, 7), 100);
    // An over-long transfer still reads as complete.
    assert_eq!(download_progress(10, 3), 100);
    assert_eq!(download_progress(u64::MAX, u64::MAX), 100);
    assert_eq!(download_progress(1, u64::MAX), 0);
}

#[test]
fn progress_events_fire_every_five_points() {
    assert!(progress_event_due(0));
    assert!(progress_event_due(25));
    assert!(progress_event_due(100));
    assert!(!progress_event_due(26));
    assert!(!progress_event_due(99));
}

#[test]
fn detect_prefers_metal_then_cuda() {
    let mac = HardwareProfile::detect(true, true);
    assert!(matches!(mac.gpu_type, GpuType::Metal));
    let cuda = HardwareProfile::detect(false, true);
    assert!(matches!(cuda.gpu_type, GpuType::Cuda));
    let plain = HardwareProfile::detect(false, false);
    assert!(matches!(plain.gpu_type, GpuType::NoGpu));
}

#[test]
fn whisper_config_follows_the_gpu() {
    let with_gpu = HardwareProfile::detect(true, false).get_whisper_config();
    assert!(with_gpu.use_gpu);
    assert_eq!(with_gpu.beam_size, 5);
    assert_eq!(with_gpu.temperature_milli, 0);
    assert_eq!(with_gpu.max_threads, Some(4));

    let without = HardwareProfile::detect(false, false).get_whisper_config();
    assert!(!without.use_gpu);
}

#[test]
fn embedding_validation_enforces_the_documented_bounds() {
    assert!(is_valid_embedding(&vec![0]));
    assert!(is_valid_embedding(&vec![65536, -65536]));
    assert!(is_valid_embedding(&vec![1; 1024]));
    assert!(!is_valid_embedding(&vec![]));
    assert!(!is_valid_embedding(&vec![1; 1025]));
    assert!(!is_valid_embedding(&vec![65537]));
    assert!(!is_valid_embedding(&vec![-65537]));
}
