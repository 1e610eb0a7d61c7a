use wishmaster::errors::{AppError, DbError, LlmError, VoiceError};

#[test]
fn test_llm_error_display() {
    let err = LlmError::ModelNotFound("/path/to/model.gguf".to_string());
    assert_eq!(err.to_string(), "Model file not found: /path/to/model.gguf");
}

#[test]
fn test_db_error_from_rusqlite() {
    // Create a mock rusqlite error
    let sqlite_err = rusqlite::Error::InvalidQuery;
    let db_err: DbError = sqlite_err.into();
    assert!(matches!(db_err, DbError::SqlError(_)));
}

#[test]
fn test_app_error_from_llm_error() {
    let llm_err = LlmError::BackendNotInitialized;
    let app_err: AppError = llm_err.into();
    assert!(matches!(app_err, AppError::Llm(_)));
}

#[test]
fn test_error_to_string_conversion() {
    let err = LlmError::ModelNotLoaded;
    let s: String = err.into();
    assert_eq!(s, "No model loaded");
}

#[test]
fn test_every_llm_error_message() {
    assert_eq!(LlmError::BackendNotInitialized.to_string(), "LLM backend not initialized");
    assert_eq!(LlmError::ModelNotLoaded.to_string(), "No model loaded");
    assert_eq!(LlmError::LoadError("x".to_string()).to_string(), "Failed to load model: x");
    assert_eq!(LlmError::ContextError("x".to_string()).to_string(), "Failed to create context: x");
    assert_eq!(LlmError::TokenizationError("x".to_string()).to_string(), "Tokenization failed: x");
    assert_eq!(LlmError::GenerationError("x".to_string()).to_string(), "Generation failed: x");
    assert_eq!(LlmError::LockError("x".to_string()).to_string(), "Failed to acquire lock: x");
}

#[test]
fn test_every_db_error_message() {
    assert_eq!(DbError::NotInitialized.to_string(), "Database not initialized");
    assert_eq!(DbError::LockPoisoned.to_string(), "Database lock poisoned");
    assert_eq!(DbError::SqlError("x".to_string()).to_string(), "SQL error: x");
    assert_eq!(DbError::NotFound("x".to_string()).to_string(), "Record not found: x");
    assert_eq!(DbError::InvalidData("x".to_string()).to_string(), "Invalid data: x");
    assert_eq!(DbError::SerializationError("x".to_string()).to_string(), "Serialization error: x");
}

#[test]
fn test_every_voice_error_message() {
    assert_eq!(VoiceError::NotRecording.to_string(), "Recording not in progress");
    assert_eq!(VoiceError::AlreadyRecording.to_string(), "Already recording");
    assert_eq!(VoiceError::TtsNotAvailable("x".to_string()).to_string(), "TTS not available: x");
    assert_eq!(VoiceError::SttNotAvailable("x".to_string()).to_string(), "STT not available: x");
    assert_eq!(VoiceError::AudioError("x".to_string()).to_string(), "Audio error: x");
    assert_eq!(VoiceError::ProfileNotFound(42).to_string(), "Voice profile not found: 42");
    assert_eq!(VoiceError::RecordingNotFound(-7).to_string(), "Recording not found: -7");
    assert_eq!(
        VoiceError::RecordingNotFound(i64::MIN).to_string(),
        format!("Recording not found: {}", i64::MIN)
    );
    assert_eq!(
        VoiceError::ProfileNotFound(i64::MAX).to_string(),
        format!("Voice profile not found: {}", i64::MAX)
    );
    assert_eq!(VoiceError::ProfileNotFound(0).to_string(), "Voice profile not found: 0");
}

#[test]
fn test_app_error_messages() {
    let e: AppError = LlmError::ModelNotLoaded.into();
    assert_eq!(e.to_string(), "LLM error: No model loaded");
    let e: AppError = DbError::LockPoisoned.into();
    assert_eq!(e.to_string(), "Database error: Database lock poisoned");
    let e: AppError = VoiceError::NotRecording.into();
    assert_eq!(e.to_string(), "Voice error: Recording not in progress");
    let e: AppError = std::io::Error::new(std::io::ErrorKind::NotFound, "gone").into();
    assert_eq!(e.to_string(), "IO error: gone");
    assert_eq!(AppError::InvalidArgument("x".to_string()).to_string(), "Invalid argument: x");
    let s: String = AppError::Internal("x".to_string()).into();
    assert_eq!(s, "Internal error: x");
}

#[test]
fn test_db_error_from_json_error() {
    let json_err = serde_json::from_str::<Vec<String>>("not json").unwrap_err();
    let text = json_err.to_string();
    let db_err: DbError = json_err.into();
    match db_err {
        DbError::SerializationError(detail) => assert_eq!(detail, text),
        other => panic!("unexpected {:?}", other),
    }
}

#[test]
fn test_db_error_text_from_rusqlite() {
    let db_err: DbError = rusqlite::Error::QueryReturnedNoRows.into();
    assert_eq!(
        db_err.to_string(),
        format!("SQL error: {}", rusqlite::Error::QueryReturnedNoRows)
    );
}
