use std::path::{Path, PathBuf};
use std::sync::atomic::{AtomicBool, Ordering};
use wishmaster::voice::{
    clean_transcript, decode_voice, decoded_or_invalid, detect_stt_engine, detect_tts_engine,
    festival_command, is_stt_available, piper_command, sapi_escape, set_last_audio_path,
    shell_quote, speak, start_recording, stop_recording, stop_speaking, stt_name, tts_name,
    voice_file_name, Platform, SpeakPlan, SttEngine, TtsEngine, VoiceState, PIPER_MODEL_PATHS,
    WHISPER_MODEL_PATHS,
};

// ==================== Engine Enum Tests ====================

#[test]
fn test_stt_engine_variants() {
    let engines = [SttEngine::WhisperCpp, SttEngine::WhisperPython, SttEngine::NoneAvailable];
    assert_eq!(engines.len(), 3);
}

#[test]
fn test_tts_engine_variants() {
    let engines = [TtsEngine::EspeakNg, TtsEngine::Piper, TtsEngine::Festival, TtsEngine::WindowsSapi];
    assert_eq!(engines.len(), 4);
}

#[test]
fn test_engine_debug_trait() {
    // Test that engines implement Debug
    let tts = TtsEngine::EspeakNg;
    let stt = SttEngine::NoneAvailable;
    assert!(format!("{:?}", tts).contains("EspeakNg"));
    assert!(format!("{:?}", stt).contains("None"));
}

#[test]
fn test_engine_copy_clone() {
    // Test that engines implement Copy and Clone
    let tts = TtsEngine::Piper;
    let tts_copy = tts;
    let tts_clone = tts.clone();
    assert_eq!(tts, tts_copy);
    assert_eq!(tts, tts_clone);
}

// ==================== Whisper Model Tests ====================

#[test]
fn test_whisper_model_paths() {
    for path in WHISPER_MODEL_PATHS {
        assert!(path.contains("ggml") || path.contains("whisper"));
    }
}

#[test]
fn test_whisper_model_paths_not_empty() {
    assert!(!WHISPER_MODEL_PATHS.is_empty());
    assert!(WHISPER_MODEL_PATHS.len() >= 4);
}

// ==================== State Management Tests ====================

#[test]
fn test_recording_state() {
    let recording = AtomicBool::new(false);
    assert!(!recording.load(Ordering::SeqCst));
    recording.store(true, Ordering::SeqCst);
    assert!(recording.load(Ordering::SeqCst));

    let mut state = VoiceState::new(TtsEngine::EspeakNg, SttEngine::NoneAvailable);
    assert!(!state.recording);
    assert!(start_recording(&mut state).is_ok());
    assert!(state.recording);
}

#[test]
fn test_speaking_state() {
    let speaking = AtomicBool::new(false);
    assert!(!speaking.load(Ordering::SeqCst));
    speaking.store(true, Ordering::SeqCst);
    assert!(speaking.load(Ordering::SeqCst));
    speaking.store(false, Ordering::SeqCst);
    assert!(!speaking.load(Ordering::SeqCst));

    let mut state = VoiceState::new(TtsEngine::Piper, SttEngine::NoneAvailable);
    assert!(!state.speaking);
    let plan = speak(&mut state, "Привет", None);
    assert_eq!(plan, SpeakPlan { interrupt: false, engine: Some(TtsEngine::Piper) });
    assert!(state.speaking);
    stop_speaking(&mut state);
    assert!(!state.speaking);
}

// ==================== Text Processing Tests ====================

#[test]
fn test_text_escape() {
    let text = "It's a test";
    let escaped = text.replace("'", "\\'");
    assert_eq!(escaped, "It\\'s a test");
    assert_eq!(shell_quote(text), "It\\'s a test");
}

#[test]
fn test_text_truncation_for_logging() {
    let short_text = "Hello";
    let long_text = "This is a very long text that exceeds fifty characters in length for sure";

    assert_eq!(short_text.len().min(50), 5);
    assert_eq!(long_text.len().min(50), 50);
}

#[test]
fn test_empty_text_handling() {
    let text = "";
    assert!(text.trim().is_empty());

    let whitespace = "   ";
    assert!(whitespace.trim().is_empty());

    let mut state = VoiceState::new(TtsEngine::EspeakNg, SttEngine::NoneAvailable);
    assert_eq!(speak(&mut state, text, None), SpeakPlan { interrupt: false, engine: None });
    assert_eq!(speak(&mut state, whitespace, Some(3)), SpeakPlan { interrupt: false, engine: None });
    assert!(!state.speaking);
}

// ==================== Path Manipulation Tests ====================

#[test]
fn test_wav_extension_change() {
    let input_path = PathBuf::from("/tmp/audio.webm");
    let output_path = input_path.with_extension("wav");
    assert_eq!(output_path, PathBuf::from("/tmp/audio.wav"));
}

#[test]
fn test_txt_extension_change() {
    let wav_path = PathBuf::from("/tmp/audio.wav");
    let txt_path = wav_path.with_extension("txt");
    assert_eq!(txt_path, PathBuf::from("/tmp/audio.txt"));
}

#[test]
fn test_path_parent() {
    let path = Path::new("/tmp/audio/file.wav");
    assert_eq!(path.parent().unwrap(), Path::new("/tmp/audio"));
}

// ==================== Transcript Cleaning Tests ====================

#[test]
fn test_transcript_cleaning() {
    let raw_output = "[BLANK_AUDIO]\nHello world\n[BLANK_AUDIO]\nHow are you?\n";
    let cleaned: String = raw_output
        .lines()
        .filter(|line| !line.contains("[BLANK_AUDIO]") && !line.is_empty())
        .collect::<Vec<_>>()
        .join(" ")
        .trim()
        .to_string();

    assert_eq!(cleaned, "Hello world How are you?");
    assert_eq!(clean_transcript(raw_output), "Hello world How are you?");
}

#[test]
fn test_transcript_all_blank() {
    let raw_output = "[BLANK_AUDIO]\n[BLANK_AUDIO]\n";
    let cleaned: String = raw_output
        .lines()
        .filter(|line| !line.contains("[BLANK_AUDIO]") && !line.is_empty())
        .collect::<Vec<_>>()
        .join(" ")
        .trim()
        .to_string();

    assert!(cleaned.is_empty());
    assert!(clean_transcript(raw_output).is_empty());
}

// ==================== Error Message Tests ====================

#[test]
fn test_error_messages() {
    let recording_err = "Already recording";
    let not_recording_err = "Not recording";
    let no_audio_err = "No audio file recorded";

    assert!(!recording_err.is_empty());
    assert!(!not_recording_err.is_empty());
    assert!(!no_audio_err.is_empty());

    let mut state = VoiceState::new(TtsEngine::EspeakNg, SttEngine::WhisperCpp);
    assert_eq!(stop_recording(&mut state), Err(not_recording_err.to_string()));
    assert_eq!(start_recording(&mut state), Ok(()));
    assert_eq!(start_recording(&mut state), Err(recording_err.to_string()));
    assert!(state.recording);
    assert_eq!(stop_recording(&mut state), Err(no_audio_err.to_string()));
    assert!(!state.recording);
    assert_eq!(start_recording(&mut state), Ok(()));
    set_last_audio_path(&mut state, "/tmp/chat_1.webm");
    assert_eq!(stop_recording(&mut state), Ok("/tmp/chat_1.webm".to_string()));
    assert!(!state.recording);
    assert_eq!(stop_recording(&mut state), Err(not_recording_err.to_string()));
}

#[test]
fn test_stt_fallback_message() {
    let fallback_msg = "Локальная транскрипция недоступна. Используется Web Speech API браузера.";
    assert!(fallback_msg.contains("Web Speech API"));
}

// ==================== Windows SAPI Escaping Tests ====================

#[test]
fn test_windows_sapi_escaping() {
    let text = r#"Hello "World" $var `test`"#;
    let escaped = text
        .replace("\\", "\\\\")
        .replace("\"", "`\"")
        .replace("$", "`$")
        .replace("`", "``");

    assert!(escaped.contains("``\""));  // Escaped quote
    assert!(escaped.contains("``$"));   // Escaped dollar
    assert_eq!(sapi_escape(text), escaped);
}

// ==================== More of the voice ====================

fn reference_transcript(raw: &str) -> String {
    raw.trim()
        .to_string()
        .lines()
        .filter(|line| !line.contains("[BLANK_AUDIO]") && !line.is_empty())
        .collect::<Vec<_>>()
        .join(" ")
        .trim()
        .to_string()
}

#[test]
fn test_transcript_edges() {
    for raw in [
        "",
        "\n",
        "  one  \r\n two\r\n\r\nthree\r",
        "a\n\nb",
        "x [BLANK_AUDIO] y\nkept\n",
        "\t lead\n trail \n",
        "only",
        "\r\n\r\n",
        "a\rb\nc",
        "\u{a0}nbsp\u{3000}\n",
    ] {
        assert_eq!(clean_transcript(raw), reference_transcript(raw), "for {:?}", raw);
    }
}

#[test]
fn test_escapes_agree_with_replace() {
    for text in [
        "",
        "'",
        "''",
        "a'b'c",
        "no quotes",
        "It's John's book, isn't it?",
        "\\'",
        "`$\"\\",
        "$$",
        "``",
        "\"quoted\"",
    ] {
        assert_eq!(shell_quote(text), text.replace("'", "\\'"), "for {:?}", text);
        let sapi = text
            .replace("\\", "\\\\")
            .replace("\"", "`\"")
            .replace("$", "`$")
            .replace("`", "``");
        assert_eq!(sapi_escape(text), sapi, "for {:?}", text);
    }
}

#[test]
fn test_speech_commands() {
    assert_eq!(
        piper_command("it's", "/m/voice.onnx"),
        "echo 'it\\'s' | piper --model /m/voice.onnx --output_file - | aplay -q"
    );
    assert_eq!(festival_command("it's"), "echo 'it\\'s' | festival --tts");
    assert_eq!(PIPER_MODEL_PATHS.len(), 3);
    assert_eq!(WHISPER_MODEL_PATHS[0], "~/.local/share/whisper.cpp/models/ggml-base.bin");
}

#[test]
fn test_engine_choice() {
    assert_eq!(detect_tts_engine(Platform::Windows, true, true, true, true), TtsEngine::EspeakNg);
    assert_eq!(detect_tts_engine(Platform::Windows, true, false, true, true), TtsEngine::WindowsSapi);
    assert_eq!(detect_tts_engine(Platform::Linux, true, true, true, true), TtsEngine::Piper);
    assert_eq!(detect_tts_engine(Platform::Linux, false, true, false, true), TtsEngine::EspeakNg);
    assert_eq!(detect_tts_engine(Platform::Linux, false, false, true, true), TtsEngine::EspeakNg);
    assert_eq!(detect_tts_engine(Platform::Linux, false, false, false, true), TtsEngine::Festival);
    assert_eq!(detect_tts_engine(Platform::Linux, false, false, false, false), TtsEngine::EspeakNg);
    assert_eq!(detect_tts_engine(Platform::Other, true, false, false, true), TtsEngine::EspeakNg);
    assert_eq!(detect_stt_engine(true, false, true), SttEngine::WhisperCpp);
    assert_eq!(detect_stt_engine(false, true, true), SttEngine::WhisperCpp);
    assert_eq!(detect_stt_engine(false, false, true), SttEngine::WhisperPython);
    assert_eq!(detect_stt_engine(false, false, false), SttEngine::NoneAvailable);
    assert_eq!(tts_name(TtsEngine::EspeakNg), "espeak-ng");
    assert_eq!(tts_name(TtsEngine::Piper), "piper");
    assert_eq!(tts_name(TtsEngine::Festival), "festival");
    assert_eq!(tts_name(TtsEngine::WindowsSapi), "Windows SAPI");
    assert_eq!(stt_name(SttEngine::WhisperCpp), "whisper.cpp");
    assert_eq!(stt_name(SttEngine::WhisperPython), "whisper (Python)");
    assert_eq!(stt_name(SttEngine::NoneAvailable), "none (Web Speech API fallback)");
    assert!(is_stt_available(&VoiceState::new(TtsEngine::Piper, SttEngine::WhisperCpp)));
    assert!(is_stt_available(&VoiceState::new(TtsEngine::Piper, SttEngine::WhisperPython)));
    assert!(!is_stt_available(&VoiceState::new(TtsEngine::Piper, SttEngine::NoneAvailable)));
}

#[test]
fn test_speaking_interrupts_speech() {
    let mut state = VoiceState::new(TtsEngine::Festival, SttEngine::NoneAvailable);
    assert_eq!(
        speak(&mut state, "one", None),
        SpeakPlan { interrupt: false, engine: Some(TtsEngine::Festival) }
    );
    assert_eq!(
        speak(&mut state, "two", None),
        SpeakPlan { interrupt: true, engine: Some(TtsEngine::Festival) }
    );
    assert_eq!(speak(&mut state, " \n", None), SpeakPlan { interrupt: true, engine: None });
    assert!(!state.speaking);
}

#[test]
fn test_voice_data_is_decoded() {
    assert_eq!(decode_voice("aGVsbG8gd29ybGR+Cg=="), Ok(b"hello world~\n".to_vec()));
    assert_eq!(decode_voice("  aGk=\n"), Ok(b"hi".to_vec()));
    assert_eq!(decode_voice(""), Ok(Vec::new()));
    let bad = decode_voice("not base64!").unwrap_err();
    assert!(bad.starts_with("Invalid base64: "), "{}", bad);
    assert!(bad.len() > "Invalid base64: ".len());
    assert!(decode_voice("aGk").is_err());
    assert_eq!(decoded_or_invalid(Err("x".to_string())), Err("Invalid base64: x".to_string()));
    assert_eq!(decoded_or_invalid(Ok(vec![1, 2])), Ok(vec![1, 2]));
    assert_eq!(voice_file_name(0), "chat_0.webm");
    assert_eq!(voice_file_name(1700000000123), "chat_1700000000123.webm");
    assert_eq!(voice_file_name(u64::MAX), format!("chat_{}.webm", u64::MAX));
}
