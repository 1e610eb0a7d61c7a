use std::sync::atomic::Ordering;
use std::sync::Arc;
use wishmaster::hf_models::{
    extract_quant_type, format_size, get_popular_models, get_progress, is_gguf_file, model_file,
    quant_type_of, DownloadState, ProgressTracker,
};

#[test]
fn test_format_size_bytes() {
    assert_eq!(format_size(500), "500 B");
}

#[test]
fn test_format_size_kb() {
    assert_eq!(format_size(2048), "2 KB");
}

#[test]
fn test_format_size_mb() {
    assert_eq!(format_size(1024 * 1024 * 5), "5.0 MB");
}

#[test]
fn test_format_size_gb() {
    assert_eq!(format_size(1024 * 1024 * 1024 * 4), "4.00 GB");
}

#[test]
fn test_extract_quant_q4_k_m() {
    let filename = "qwen2.5-7b-instruct-q4_k_m.gguf";
    assert_eq!(extract_quant_type(filename), Some("Q4_K_M".to_string()));
}

#[test]
fn test_extract_quant_q5_k_s() {
    let filename = "model-Q5_K_S.gguf";
    assert_eq!(extract_quant_type(filename), Some("Q5_K_S".to_string()));
}

#[test]
fn test_extract_quant_f16() {
    let filename = "model-f16.gguf";
    assert_eq!(extract_quant_type(filename), Some("F16".to_string()));
}

#[test]
fn test_extract_quant_none() {
    let filename = "model.gguf";
    assert_eq!(extract_quant_type(filename), None);
}

#[test]
fn test_popular_models_not_empty() {
    let models = get_popular_models();
    assert!(!models.is_empty());
}

#[test]
fn test_popular_models_have_qwen() {
    let models = get_popular_models();
    let has_qwen = models.iter().any(|m| m.name.contains("Qwen"));
    assert!(has_qwen, "Should have Qwen model");
}

#[test]
fn test_download_state_initialization() {
    let state = DownloadState::new();
    assert_eq!(state.downloaded.load(Ordering::SeqCst), 0);
    assert_eq!(state.total.load(Ordering::SeqCst), 0);
    assert!(!state.cancelled.load(Ordering::SeqCst));
}

#[test]
fn test_progress_calculation() {
    let state = DownloadState::new();
    state.total.store(1000, Ordering::SeqCst);
    state.downloaded.store(500, Ordering::SeqCst);

    let (downloaded, total) = get_progress(&state);
    let percent = (downloaded as f64 / total as f64 * 100.0) as f32;
    assert_eq!(downloaded, 500);
    assert_eq!(total, 1000);
    assert!((percent - 50.0).abs() < 0.1);
}

fn reference_size(bytes: u64) -> String {
    const KB: u64 = 1024;
    const MB: u64 = KB * 1024;
    const GB: u64 = MB * 1024;

    if bytes >= GB {
        format!("{:.2} GB", bytes as f64 / GB as f64)
    } else if bytes >= MB {
        format!("{:.1} MB", bytes as f64 / MB as f64)
    } else if bytes >= KB {
        format!("{:.0} KB", bytes as f64 / KB as f64)
    } else {
        format!("{} B", bytes)
    }
}

#[test]
fn test_format_size_edges() {
    let gb: u64 = 1 << 30;
    let mb: u64 = 1 << 20;
    let edges: Vec<u64> = vec![
        0, 1, 9, 10, 999, 1023, 1024, 1025, 1535, 1536, 1537, 2559, 2560, 2561, 3584,
        mb - 1, mb, mb + 1, mb + 52428, mb + 52429, mb + 157286, mb + 157287,
        3 * mb / 2, gb - 1, gb, gb + 1,
        (1 << 27) * 9, (1 << 27) * 11, (1 << 27) * 13, (1 << 27) * 9 + 1, (1 << 27) * 9 - 1,
        5 * gb + gb / 200, 5 * gb + gb / 200 + 1, 5 * gb + gb / 200 - 1,
        (1 << 53) - 1, 1 << 53, (1 << 53) + 1, (1 << 53) + 2, (1 << 53) + 3,
        (1 << 54) + 2, (1 << 54) + 6, (1 << 60) + 12345, (1 << 63) + 1024, (1 << 63) + 1025,
        u64::MAX - 1024, u64::MAX - 1, u64::MAX,
    ];
    for bytes in edges {
        assert_eq!(format_size(bytes), reference_size(bytes), "for {} bytes", bytes);
    }
}

#[test]
fn test_format_size_sweep() {
    let mut bytes: u64 = 1;
    let mut step: u64 = 1;
    while bytes < u64::MAX / 3 {
        assert_eq!(format_size(bytes), reference_size(bytes), "for {} bytes", bytes);
        assert_eq!(format_size(bytes - 1), reference_size(bytes - 1), "for {} bytes", bytes - 1);
        bytes = bytes + bytes / 7 + step;
        step = step * 3 % 1009 + 1;
    }
}

#[test]
fn test_quant_order_decides() {
    assert_eq!(quant_type_of("a-q8_0-and-q2_k"), Some("Q2_K".to_string()));
    assert_eq!(quant_type_of("model-iq4_xs"), Some("IQ4_XS".to_string()));
    assert_eq!(quant_type_of("model-f32.gguf"), Some("F32".to_string()));
    assert_eq!(quant_type_of("MODEL-Q4_0"), None);
    assert_eq!(extract_quant_type("MODEL-Q4_0"), Some("Q4_0".to_string()));
    assert_eq!(quant_type_of(""), None);
}

#[test]
fn test_popular_models_exact() {
    let models = get_popular_models();
    assert_eq!(models.len(), 15);
    assert_eq!(models[0].repo_id, "pomelk1n/RuadaptQwen2.5-32B-instruct-4-bit-AWQ-GGUF");
    assert_eq!(models[3].name, "Qwen 2.5 7B Instruct");
    assert_eq!(models[3].description, "Лучший для русского языка, 128K контекст");
    assert_eq!(models[8].category, "code");
    assert_eq!(models[14].repo_id, "bartowski/Qwen_Qwen3-4B-Instruct-2507-GGUF");
    assert!(models.iter().all(|m| m.recommended_quant == "Q4_K_M"));
    let categories: Vec<&str> = models.iter().map(|m| m.category.as_str()).collect();
    assert_eq!(
        categories,
        vec![
            "awq", "awq", "awq", "multilingual", "multilingual", "multilingual", "code", "code",
            "code", "compact", "compact", "compact", "general", "general", "general"
        ]
    );
}

#[test]
fn test_progress_tracker_counts() {
    let state = Arc::new(DownloadState::new());
    let mut tracker = ProgressTracker::new(state.clone());
    tracker.init(1000, "model.gguf");
    tracker.update(300);
    tracker.update(200);
    tracker.finish();
    assert_eq!(get_progress(&state), (500, 1000));
    tracker.init(10, "other.gguf");
    assert_eq!(get_progress(&state), (0, 10));
}

#[test]
fn test_model_file_entry() {
    let f = model_file("Qwen2.5-7B-Instruct-Q4_K_M.gguf");
    assert_eq!(f.filename, "Qwen2.5-7B-Instruct-Q4_K_M.gguf");
    assert_eq!(f.size, 0);
    assert_eq!(f.size_formatted, "—");
    assert_eq!(f.quant_type, Some("Q4_K_M".to_string()));
    assert!(is_gguf_file("model.gguf"));
    assert!(!is_gguf_file("model.gguf.part"));
    assert!(!is_gguf_file("gguf"));
}
