//! Voice: which engines speak and listen, what state recording and speaking
//! are in, and the texts that are handed to the engines.

use crate::text::{
    contains, join, join_with, lines, replaced, split_lines, str_contains, str_is_empty,
    str_replace, str_trim, trim, views,
};
use base64::Engine;
use vstd::prelude::*;

verus! {

/// The engines that turn text into speech.
#[derive(Clone, Copy, PartialEq, Eq, Debug, Structural)]
pub enum TtsEngine {
    EspeakNg,
    Piper,
    Festival,
    WindowsSapi,
}

/// The engines that turn speech into text.
#[derive(Clone, Copy, PartialEq, Eq, Debug, Structural)]
pub enum SttEngine {
    WhisperCpp,
    WhisperPython,
    /// No engine is installed.
    NoneAvailable,
}

/// Where a speech model is looked for, in this order.
pub const WHISPER_MODEL_PATHS: [&'static str; 6] = [
    "~/.local/share/whisper.cpp/models/ggml-base.bin",
    "~/.local/share/whisper/ggml-base.bin",
    "/usr/share/whisper.cpp/models/ggml-base.bin",
    "/usr/local/share/whisper.cpp/models/ggml-base.bin",
    "./models/ggml-base.bin",
    "./ggml-base.bin",
];

/// Where a voice model is looked for, in this order, after the place that
/// the environment names.
pub const PIPER_MODEL_PATHS: [&'static str; 3] = [
    "/usr/share/piper-voices/ru_RU-irina-medium.onnx",
    "~/.local/share/piper/ru_RU-irina-medium.onnx",
    "./piper-model.onnx",
];

/// The system the application runs on.
#[derive(Clone, Copy, PartialEq, Eq, Debug, Structural)]
pub enum Platform {
    Windows,
    Linux,
    Other,
}

/// The engine to speak with, from what was found installed.
pub fn detect_tts_engine(
    platform: Platform,
    piper: bool,
    espeak_ng: bool,
    espeak: bool,
    festival: bool,
) -> (engine: TtsEngine)
    ensures
        engine == match platform {
            Platform::Windows => if espeak_ng {
                TtsEngine::EspeakNg
            } else {
                TtsEngine::WindowsSapi
            },
            Platform::Linux => if piper {
                TtsEngine::Piper
            } else if espeak_ng || espeak {
                TtsEngine::EspeakNg
            } else if festival {
                TtsEngine::Festival
            } else {
                TtsEngine::EspeakNg
            },
            Platform::Other => TtsEngine::EspeakNg,
        },
{
    match platform {
        Platform::Windows => {
            if espeak_ng {
                TtsEngine::EspeakNg
            } else {
                TtsEngine::WindowsSapi
            }
        },
        Platform::Linux => {
            if piper {
                TtsEngine::Piper
            } else if espeak_ng || espeak {
                TtsEngine::EspeakNg
            } else if festival {
                TtsEngine::Festival
            } else {
                TtsEngine::EspeakNg
            }
        },
        Platform::Other => TtsEngine::EspeakNg,
    }
}

/// The engine to listen with, from what was found installed.
pub fn detect_stt_engine(whisper_cpp: bool, main_is_whisper: bool, whisper_python: bool) -> (engine:
    SttEngine)
    ensures
        engine == if whisper_cpp || main_is_whisper {
            SttEngine::WhisperCpp
        } else if whisper_python {
            SttEngine::WhisperPython
        } else {
            SttEngine::NoneAvailable
        },
{
    if whisper_cpp || main_is_whisper {
        SttEngine::WhisperCpp
    } else if whisper_python {
        SttEngine::WhisperPython
    } else {
        SttEngine::NoneAvailable
    }
}

/// The name of an engine that speaks.
pub fn tts_name(engine: TtsEngine) -> (name: &'static str)
    ensures
        name@ == match engine {
            TtsEngine::EspeakNg => "espeak-ng"@,
            TtsEngine::Piper => "piper"@,
            TtsEngine::Festival => "festival"@,
            TtsEngine::WindowsSapi => "Windows SAPI"@,
        },
{
    match engine {
        TtsEngine::EspeakNg => "espeak-ng",
        TtsEngine::Piper => "piper",
        TtsEngine::Festival => "festival",
        TtsEngine::WindowsSapi => "Windows SAPI",
    }
}

/// The name of an engine that listens.
pub fn stt_name(engine: SttEngine) -> (name: &'static str)
    ensures
        name@ == match engine {
            SttEngine::WhisperCpp => "whisper.cpp"@,
            SttEngine::WhisperPython => "whisper (Python)"@,
            SttEngine::NoneAvailable => "none (Web Speech API fallback)"@,
        },
{
    match engine {
        SttEngine::WhisperCpp => "whisper.cpp",
        SttEngine::WhisperPython => "whisper (Python)",
        SttEngine::NoneAvailable => "none (Web Speech API fallback)",
    }
}

/// What the voice is doing.
pub struct VoiceState {
    pub recording: bool,
    pub speaking: bool,
    /// The file of the last recording.
    pub last_audio_path: Option<String>,
    pub tts: TtsEngine,
    pub stt: SttEngine,
}

impl VoiceState {
    /// A voice at rest with the given engines.
    pub fn new(tts: TtsEngine, stt: SttEngine) -> (state: VoiceState)
        ensures
            !state.recording,
            !state.speaking,
            state.last_audio_path is None,
            state.tts == tts,
            state.stt == stt,
    {
        VoiceState { recording: false, speaking: false, last_audio_path: None, tts, stt }
    }
}

/// Begins a recording. Fails, and changes nothing, while one is under way.
pub fn start_recording(state: &mut VoiceState) -> (r: Result<(), String>)
    ensures
        old(state).recording ==> r is Err && r->Err_0@ == "Already recording"@ && *final(state)
            == *old(state),
        !old(state).recording ==> r is Ok && final(state).recording && final(state).speaking
            == old(state).speaking && final(state).last_audio_path == old(state).last_audio_path
            && final(state).tts == old(state).tts && final(state).stt == old(state).stt,
{
    if state.recording {
        return Err(String::from_str("Already recording"));
    }
    state.recording = true;
    Ok(())
}

/// Remembers the file of the last recording.
pub fn set_last_audio_path(state: &mut VoiceState, path: &str)
    ensures
        final(state).last_audio_path is Some,
        final(state).last_audio_path->Some_0@ == path@,
        final(state).recording == old(state).recording,
        final(state).speaking == old(state).speaking,
        final(state).tts == old(state).tts,
        final(state).stt == old(state).stt,
{
    state.last_audio_path = Some(String::from_str(path));
}

/// Ends a recording and names the file to transcribe.
///
/// Fails with "Not recording", and changes nothing, when none is under way.
/// Else the recording is over, and the file of the last recording is
/// returned, or "No audio file recorded" where there is none.
pub fn stop_recording(state: &mut VoiceState) -> (r: Result<String, String>)
    ensures
        !old(state).recording ==> r is Err && r->Err_0@ == "Not recording"@ && *final(state)
            == *old(state),
        old(state).recording ==> !final(state).recording && final(state).speaking == old(state).speaking && final(state).last_audio_path == old(state).last_audio_path && final(state).tts == old(state).tts && final(state).stt == old(state).stt,
        old(state).recording && old(state).last_audio_path is None ==> r is Err && r->Err_0@
            == "No audio file recorded"@,
        old(state).recording && old(state).last_audio_path is Some ==> r is Ok && r->Ok_0@
            == old(state).last_audio_path->Some_0@,
{
    if !state.recording {
        return Err(String::from_str("Not recording"));
    }
    state.recording = false;
    match &state.last_audio_path {
        Some(path) => Ok(path.clone()),
        None => Err(String::from_str("No audio file recorded")),
    }
}

/// Whether speech can be turned into text here.
pub fn is_stt_available(state: &VoiceState) -> (b: bool)
    ensures
        b == (state.stt != SttEngine::NoneAvailable),
{
    match state.stt {
        SttEngine::NoneAvailable => false,
        _ => true,
    }
}

/// What speaking a text takes.
#[derive(Clone, Copy, Debug, PartialEq, Eq, Structural)]
pub struct SpeakPlan {
    /// Speech is under way and has to be stopped first.
    pub interrupt: bool,
    /// The engine to speak with; none for a text that says nothing.
    pub engine: Option<TtsEngine>,
}

/// Decides how to speak a text. Speech under way is interrupted; a text of
/// nothing but whitespace is not spoken; any other is spoken with the
/// current engine, and the voice counts as speaking until
/// [`stop_speaking`] is called.
pub fn speak(state: &mut VoiceState, text: &str, _voice_id: Option<i64>) -> (plan: SpeakPlan)
    ensures
        plan.interrupt == old(state).speaking,
        plan.engine == if trim(text@).len() == 0 {
            None
        } else {
            Some(old(state).tts)
        },
        final(state).speaking == (plan.engine is Some),
        final(state).recording == old(state).recording,
        final(state).last_audio_path == old(state).last_audio_path,
        final(state).tts == old(state).tts,
        final(state).stt == old(state).stt,
{
    let interrupt = state.speaking;
    let trimmed = str_trim(text);
    if str_is_empty(trimmed.as_str()) {
        state.speaking = false;
        SpeakPlan { interrupt, engine: None }
    } else {
        state.speaking = true;
        SpeakPlan { interrupt, engine: Some(state.tts) }
    }
}

/// The voice speaks no more.
pub fn stop_speaking(state: &mut VoiceState)
    ensures
        !final(state).speaking,
        final(state).recording == old(state).recording,
        final(state).last_audio_path == old(state).last_audio_path,
        final(state).tts == old(state).tts,
        final(state).stt == old(state).stt,
{
    state.speaking = false;
}

/// A text made safe between single quotes of a shell command: every single
/// quote gets a backslash in front.
pub open spec fn shell_quoted(text: Seq<char>) -> Seq<char> {
    replaced(text, "'"@, "\\'"@)
}

/// A text made safe between single quotes of a shell command.
pub fn shell_quote(text: &str) -> (quoted: String)
    ensures
        quoted@ == shell_quoted(text@),
{
    str_replace(text, "'", "\\'")
}

/// A text made ready for a script of the system's own speech: backslashes
/// doubled, then double quotes and dollar signs given a backtick in front,
/// then every backtick doubled.
pub open spec fn sapi_escaped(text: Seq<char>) -> Seq<char> {
    replaced(
        replaced(replaced(replaced(text, "\\"@, "\\\\"@), "\""@, "`\""@), "$"@, "`$"@),
        "`"@,
        "``"@,
    )
}

/// A text made ready for a script of the system's own speech.
pub fn sapi_escape(text: &str) -> (escaped: String)
    ensures
        escaped@ == sapi_escaped(text@),
{
    let a = str_replace(text, "\\", "\\\\");
    let b = str_replace(a.as_str(), "\"", "`\"");
    let c = str_replace(b.as_str(), "$", "`$");
    str_replace(c.as_str(), "`", "``")
}

/// The command that speaks a text with the neural engine.
pub fn piper_command(text: &str, model_path: &str) -> (command: String)
    ensures
        command@ == "echo '"@ + shell_quoted(text@) + "' | piper --model "@ + model_path@
            + " --output_file - | aplay -q"@,
{
    let mut command = String::from_str("echo '");
    command.append(shell_quote(text).as_str());
    command.append("' | piper --model ");
    command.append(model_path);
    command.append(" --output_file - | aplay -q");
    command
}

/// The command that speaks a text with the festival engine.
pub fn festival_command(text: &str) -> (command: String)
    ensures
        command@ == "echo '"@ + shell_quoted(text@) + "' | festival --tts"@,
{
    let mut command = String::from_str("echo '");
    command.append(shell_quote(text).as_str());
    command.append("' | festival --tts");
    command
}

/// The line says something: it is not empty and marks no silence.
pub open spec fn is_spoken(line: Seq<char>) -> bool {
    !contains(line, "[BLANK_AUDIO]"@) && line.len() > 0
}

/// The lines that say something, in order.
pub open spec fn spoken(ls: Seq<Seq<char>>) -> Seq<Seq<char>>
    decreases ls.len(),
{
    if ls.len() == 0 {
        Seq::empty()
    } else {
        let before = spoken(ls.drop_last());
        if is_spoken(ls.last()) {
            before.push(ls.last())
        } else {
            before
        }
    }
}

/// What was said, from what the engine printed: its lines that say
/// something, joined by single spaces, without whitespace around the whole.
pub open spec fn transcript_of(output: Seq<char>) -> Seq<char> {
    trim(join(spoken(lines(trim(output))), " "@))
}

/// What was said, from what the engine printed.
pub fn clean_transcript(output: &str) -> (transcript: String)
    ensures
        transcript@ == transcript_of(output@),
{
    let trimmed = str_trim(output);
    let all = split_lines(trimmed.as_str());
    let mut kept: Vec<String> = Vec::new();
    let mut i: usize = 0;
    assert(views(all@).take(0) =~= Seq::<Seq<char>>::empty());
    assert(views(kept@) =~= Seq::<Seq<char>>::empty());
    while i < all.len()
        invariant
            i <= all.len(),
            views(kept@) == spoken(views(all@).take(i as int)),
        decreases all.len() - i,
    {
        proof {
            assert(views(all@).take(i + 1).drop_last() =~= views(all@).take(i as int));
            assert(views(all@).take(i + 1).last() == all@[i as int]@);
        }
        let line = all[i].as_str();
        if !str_contains(line, "[BLANK_AUDIO]") && !str_is_empty(line) {
            let copy = all[i].clone();
            assert(views(kept@.push(copy)) =~= views(kept@).push(copy@));
            kept.push(copy);
        }
        i = i + 1;
    }
    assert(views(all@).take(i as int) =~= views(all@));
    let joined = join_with(&kept, " ");
    str_trim(joined.as_str())
}


/// The bytes that a text in standard base64, with padding, stands for;
/// nothing for a text that is no such base64.
pub uninterp spec fn standard_base64(text: Seq<char>) -> Option<Seq<u8>>;

/// `base64::engine::general_purpose::STANDARD.decode`: the bytes that the
/// text stands for, or the error in words. Whether it succeeds and what it
/// gives depend on the text alone.
#[verifier::external_body]
fn base64_decode(text: &str) -> (r: Result<Vec<u8>, String>)
    ensures
        r is Ok <==> standard_base64(text@) is Some,
        r is Ok ==> r->Ok_0@ == standard_base64(text@)->Some_0,
{
    base64::engine::general_purpose::STANDARD.decode(text).map_err(|e| e.to_string())
}

/// What decoding gave, with a failure told as one of invalid base64.
pub fn decoded_or_invalid(decoded: Result<Vec<u8>, String>) -> (r: Result<Vec<u8>, String>)
    ensures
        decoded is Ok ==> r == decoded,
        decoded is Err ==> r is Err && r->Err_0@ == "Invalid base64: "@ + decoded->Err_0@,
{
    match decoded {
        Ok(bytes) => Ok(bytes),
        Err(detail) => {
            let mut message = String::from_str("Invalid base64: ");
            message.append(detail.as_str());
            Err(message)
        },
    }
}

/// The sound that the user interface sent as base64 text, whitespace
/// around it aside.
pub fn decode_voice(base64_audio: &str) -> (r: Result<Vec<u8>, String>)
    ensures
        r is Ok <==> standard_base64(trim(base64_audio@)) is Some,
        r is Ok ==> r->Ok_0@ == standard_base64(trim(base64_audio@))->Some_0,
        r is Err ==> crate::text::has_prefix(r->Err_0@, "Invalid base64: "@),
{
    let trimmed = str_trim(base64_audio);
    let r = decoded_or_invalid(base64_decode(trimmed.as_str()));
    proof {
        if r is Err {
            assert(r->Err_0@.subrange(0, "Invalid base64: "@.len() as int) =~= "Invalid base64: "@);
        }
    }
    r
}

/// The name of the file that holds a recording made at `millis`
/// milliseconds since the epoch.
pub fn voice_file_name(millis: u64) -> (name: String)
    ensures
        name@ == "chat_"@ + crate::text::decimal_digits(millis as nat) + ".webm"@,
{
    let mut name = String::from_str("chat_");
    crate::text::append_decimal(&mut name, millis);
    name.append(".webm");
    name
}

} // verus!
