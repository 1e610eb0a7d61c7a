//! The error types of the application, each with the message it is shown
//! under.

use crate::text::{decimal, integer_to_string};
use vstd::prelude::*;
use vstd::std_specs::convert::FromSpecImpl;

verus! {

/// `rusqlite::Error`, carried through without looking inside.
#[verifier::external_type_specification]
#[verifier::external_body]
pub struct ExSqlError(rusqlite::Error);

/// `serde_json::Error`, carried through without looking inside.
#[verifier::external_type_specification]
#[verifier::external_body]
pub struct ExJsonError(serde_json::Error);

/// `std::io::Error`, carried through without looking inside.
#[verifier::external_type_specification]
#[verifier::external_body]
pub struct ExIoError(std::io::Error);

/// `rusqlite::Error`'s `Display`: the error in words. Nothing is claimed of
/// the words.
#[verifier::external_body]
fn sql_error_text(err: &rusqlite::Error) -> (text: String) {
    err.to_string()
}

/// `serde_json::Error`'s `Display`: the error in words. Nothing is claimed
/// of the words.
#[verifier::external_body]
fn json_error_text(err: &serde_json::Error) -> (text: String) {
    err.to_string()
}

/// `std::io::Error`'s `Display`: the error in words. Nothing is claimed of
/// the words.
#[verifier::external_body]
fn io_error_text(err: &std::io::Error) -> (text: String) {
    err.to_string()
}

fn labelled(label: &str, detail: &str) -> (s: String)
    ensures
        s@ == label@ + detail@,
{
    let mut s = String::from_str(label);
    s.append(detail);
    s
}

/// What went wrong with the language model.
#[derive(Debug)]
pub enum LlmError {
    BackendNotInitialized,
    ModelNotLoaded,
    ModelNotFound(String),
    LoadError(String),
    ContextError(String),
    TokenizationError(String),
    GenerationError(String),
    LockError(String),
}

impl LlmError {
    /// The message of the error.
    pub open spec fn message(self) -> Seq<char> {
        match self {
            LlmError::BackendNotInitialized => "LLM backend not initialized"@,
            LlmError::ModelNotLoaded => "No model loaded"@,
            LlmError::ModelNotFound(path) => "Model file not found: "@ + path@,
            LlmError::LoadError(detail) => "Failed to load model: "@ + detail@,
            LlmError::ContextError(detail) => "Failed to create context: "@ + detail@,
            LlmError::TokenizationError(detail) => "Tokenization failed: "@ + detail@,
            LlmError::GenerationError(detail) => "Generation failed: "@ + detail@,
            LlmError::LockError(detail) => "Failed to acquire lock: "@ + detail@,
        }
    }

    /// The message of the error.
    pub fn to_string(&self) -> (s: String)
        ensures
            s@ == self.message(),
    {
        match self {
            LlmError::BackendNotInitialized => String::from_str("LLM backend not initialized"),
            LlmError::ModelNotLoaded => String::from_str("No model loaded"),
            LlmError::ModelNotFound(path) => labelled("Model file not found: ", path.as_str()),
            LlmError::LoadError(detail) => labelled("Failed to load model: ", detail.as_str()),
            LlmError::ContextError(detail) => labelled(
                "Failed to create context: ",
                detail.as_str(),
            ),
            LlmError::TokenizationError(detail) => labelled(
                "Tokenization failed: ",
                detail.as_str(),
            ),
            LlmError::GenerationError(detail) => labelled("Generation failed: ", detail.as_str()),
            LlmError::LockError(detail) => labelled("Failed to acquire lock: ", detail.as_str()),
        }
    }
}

/// What went wrong with the store.
#[derive(Debug)]
pub enum DbError {
    NotInitialized,
    LockPoisoned,
    SqlError(String),
    NotFound(String),
    InvalidData(String),
    SerializationError(String),
}

impl DbError {
    /// The message of the error.
    pub open spec fn message(self) -> Seq<char> {
        match self {
            DbError::NotInitialized => "Database not initialized"@,
            DbError::LockPoisoned => "Database lock poisoned"@,
            DbError::SqlError(detail) => "SQL error: "@ + detail@,
            DbError::NotFound(what) => "Record not found: "@ + what@,
            DbError::InvalidData(detail) => "Invalid data: "@ + detail@,
            DbError::SerializationError(detail) => "Serialization error: "@ + detail@,
        }
    }

    /// The message of the error.
    pub fn to_string(&self) -> (s: String)
        ensures
            s@ == self.message(),
    {
        match self {
            DbError::NotInitialized => String::from_str("Database not initialized"),
            DbError::LockPoisoned => String::from_str("Database lock poisoned"),
            DbError::SqlError(detail) => labelled("SQL error: ", detail.as_str()),
            DbError::NotFound(what) => labelled("Record not found: ", what.as_str()),
            DbError::InvalidData(detail) => labelled("Invalid data: ", detail.as_str()),
            DbError::SerializationError(detail) => labelled(
                "Serialization error: ",
                detail.as_str(),
            ),
        }
    }
}

/// What went wrong with the voice.
#[derive(Debug)]
pub enum VoiceError {
    NotRecording,
    AlreadyRecording,
    TtsNotAvailable(String),
    SttNotAvailable(String),
    AudioError(String),
    ProfileNotFound(i64),
    RecordingNotFound(i64),
}

impl VoiceError {
    /// The message of the error.
    pub open spec fn message(self) -> Seq<char> {
        match self {
            VoiceError::NotRecording => "Recording not in progress"@,
            VoiceError::AlreadyRecording => "Already recording"@,
            VoiceError::TtsNotAvailable(detail) => "TTS not available: "@ + detail@,
            VoiceError::SttNotAvailable(detail) => "STT not available: "@ + detail@,
            VoiceError::AudioError(detail) => "Audio error: "@ + detail@,
            VoiceError::ProfileNotFound(id) => "Voice profile not found: "@ + decimal(id as int),
            VoiceError::RecordingNotFound(id) => "Recording not found: "@ + decimal(id as int),
        }
    }

    /// The message of the error.
    pub fn to_string(&self) -> (s: String)
        ensures
            s@ == self.message(),
    {
        match self {
            VoiceError::NotRecording => String::from_str("Recording not in progress"),
            VoiceError::AlreadyRecording => String::from_str("Already recording"),
            VoiceError::TtsNotAvailable(detail) => labelled("TTS not available: ", detail.as_str()),
            VoiceError::SttNotAvailable(detail) => labelled("STT not available: ", detail.as_str()),
            VoiceError::AudioError(detail) => labelled("Audio error: ", detail.as_str()),
            VoiceError::ProfileNotFound(id) => labelled(
                "Voice profile not found: ",
                integer_to_string(*id).as_str(),
            ),
            VoiceError::RecordingNotFound(id) => labelled(
                "Recording not found: ",
                integer_to_string(*id).as_str(),
            ),
        }
    }
}

/// Anything that can go wrong in the application.
#[derive(Debug)]
pub enum AppError {
    Llm(LlmError),
    Database(DbError),
    Voice(VoiceError),
    Io(std::io::Error),
    InvalidArgument(String),
    Internal(String),
}

impl AppError {
    /// The message of the error begins with the name of its kind; for all
    /// but an input or output error the rest is known too.
    pub open spec fn is_message(self, text: Seq<char>) -> bool {
        match self {
            AppError::Llm(inner) => text == "LLM error: "@ + inner.message(),
            AppError::Database(inner) => text == "Database error: "@ + inner.message(),
            AppError::Voice(inner) => text == "Voice error: "@ + inner.message(),
            AppError::Io(_) => crate::text::has_prefix(text, "IO error: "@),
            AppError::InvalidArgument(detail) => text == "Invalid argument: "@ + detail@,
            AppError::Internal(detail) => text == "Internal error: "@ + detail@,
        }
    }

    /// The message of the error.
    pub fn to_string(&self) -> (s: String)
        ensures
            self.is_message(s@),
    {
        match self {
            AppError::Llm(inner) => labelled("LLM error: ", inner.to_string().as_str()),
            AppError::Database(inner) => labelled("Database error: ", inner.to_string().as_str()),
            AppError::Voice(inner) => labelled("Voice error: ", inner.to_string().as_str()),
            AppError::Io(inner) => {
                let s = labelled("IO error: ", io_error_text(inner).as_str());
                assert(s@.subrange(0, "IO error: "@.len() as int) =~= "IO error: "@);
                s
            },
            AppError::InvalidArgument(detail) => labelled("Invalid argument: ", detail.as_str()),
            AppError::Internal(detail) => labelled("Internal error: ", detail.as_str()),
        }
    }
}

impl From<LlmError> for String {
    fn from(err: LlmError) -> (s: String)
        ensures
            s@ == err.message(),
    {
        err.to_string()
    }
}

impl FromSpecImpl<LlmError> for String {
    open spec fn obeys_from_spec() -> bool {
        false
    }

    open spec fn from_spec(err: LlmError) -> String {
        arbitrary()
    }
}

impl From<DbError> for String {
    fn from(err: DbError) -> (s: String)
        ensures
            s@ == err.message(),
    {
        err.to_string()
    }
}

impl FromSpecImpl<DbError> for String {
    open spec fn obeys_from_spec() -> bool {
        false
    }

    open spec fn from_spec(err: DbError) -> String {
        arbitrary()
    }
}

impl From<VoiceError> for String {
    fn from(err: VoiceError) -> (s: String)
        ensures
            s@ == err.message(),
    {
        err.to_string()
    }
}

impl FromSpecImpl<VoiceError> for String {
    open spec fn obeys_from_spec() -> bool {
        false
    }

    open spec fn from_spec(err: VoiceError) -> String {
        arbitrary()
    }
}

impl From<AppError> for String {
    fn from(err: AppError) -> (s: String)
        ensures
            err.is_message(s@),
    {
        err.to_string()
    }
}

impl FromSpecImpl<AppError> for String {
    open spec fn obeys_from_spec() -> bool {
        false
    }

    open spec fn from_spec(err: AppError) -> String {
        arbitrary()
    }
}

impl From<rusqlite::Error> for DbError {
    fn from(err: rusqlite::Error) -> (e: DbError)
        ensures
            e is SqlError,
    {
        DbError::SqlError(sql_error_text(&err))
    }
}

impl FromSpecImpl<rusqlite::Error> for DbError {
    open spec fn obeys_from_spec() -> bool {
        false
    }

    open spec fn from_spec(err: rusqlite::Error) -> DbError {
        arbitrary()
    }
}

impl From<serde_json::Error> for DbError {
    fn from(err: serde_json::Error) -> (e: DbError)
        ensures
            e is SerializationError,
    {
        DbError::SerializationError(json_error_text(&err))
    }
}

impl FromSpecImpl<serde_json::Error> for DbError {
    open spec fn obeys_from_spec() -> bool {
        false
    }

    open spec fn from_spec(err: serde_json::Error) -> DbError {
        arbitrary()
    }
}

impl From<LlmError> for AppError {
    fn from(err: LlmError) -> (e: AppError) {
        AppError::Llm(err)
    }
}

impl FromSpecImpl<LlmError> for AppError {
    open spec fn obeys_from_spec() -> bool {
        true
    }

    open spec fn from_spec(err: LlmError) -> AppError {
        AppError::Llm(err)
    }
}

impl From<DbError> for AppError {
    fn from(err: DbError) -> (e: AppError) {
        AppError::Database(err)
    }
}

impl FromSpecImpl<DbError> for AppError {
    open spec fn obeys_from_spec() -> bool {
        true
    }

    open spec fn from_spec(err: DbError) -> AppError {
        AppError::Database(err)
    }
}

impl From<VoiceError> for AppError {
    fn from(err: VoiceError) -> (e: AppError) {
        AppError::Voice(err)
    }
}

impl FromSpecImpl<VoiceError> for AppError {
    open spec fn obeys_from_spec() -> bool {
        true
    }

    open spec fn from_spec(err: VoiceError) -> AppError {
        AppError::Voice(err)
    }
}

impl From<std::io::Error> for AppError {
    fn from(err: std::io::Error) -> (e: AppError) {
        AppError::Io(err)
    }
}

impl FromSpecImpl<std::io::Error> for AppError {
    open spec fn obeys_from_spec() -> bool {
        true
    }

    open spec fn from_spec(err: std::io::Error) -> AppError {
        AppError::Io(err)
    }
}

} // verus!
