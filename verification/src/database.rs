//! The records that the persistent store hands to the rest of the crate.

use crate::commands::{Session, Settings, DEFAULT_TEMPERATURE};
use crate::text::{decimal, i32_of, integer_to_string, parse_i32, str_equals};
use vstd::prelude::*;

verus! {

/// A fact remembered across sessions.
#[derive(Debug, Clone)]
pub struct MemoryEntry {
    pub id: i64,
    pub content: String,
    /// fact, preference, name, topic, skill and the like
    pub category: String,
    pub source_session_id: i64,
    pub source_message_id: i64,
    /// 1 to 10
    pub importance: i32,
    pub created_at: i64,
}

/// A heuristic profile of how the user writes.
#[derive(Debug, Clone)]
pub struct UserPersona {
    pub id: i64,
    /// formal, casual or neutral
    pub writing_style: String,
    /// The mean message length, as the bit pattern of a single-precision
    /// number.
    pub avg_message_length: u32,
    /// A JSON array of strings.
    pub common_phrases: String,
    /// A JSON array of strings.
    pub topics_of_interest: String,
    pub language: String,
    /// none, minimal, moderate or heavy
    pub emoji_usage: String,
    /// friendly, inquisitive or neutral
    pub tone: String,
    pub messages_analyzed: i64,
    pub last_updated: i64,
}

/// Everything the store holds, for export.
#[derive(Debug, Clone)]
pub struct ExportData {
    pub sessions: Vec<Session>,
    pub messages: Vec<ExportMessage>,
    pub memory: Vec<MemoryEntry>,
    pub persona: Option<UserPersona>,
    pub exported_at: i64,
}

/// A message together with the session it belongs to.
#[derive(Debug, Clone)]
pub struct ExportMessage {
    pub id: i64,
    pub session_id: i64,
    pub session_title: String,
    pub content: String,
    pub is_user: bool,
    pub timestamp: i64,
}


/// The strings that a text holds as a JSON array of strings; nothing for a
/// text that is no such array.
pub uninterp spec fn json_strings(text: Seq<char>) -> Option<Seq<Seq<char>>>;

/// The JSON array of the strings, as text.
pub uninterp spec fn json_array(strings: Seq<Seq<char>>) -> Seq<char>;

/// `serde_json::from_str` at the type `Vec<String>`: the strings of a JSON
/// array of strings, or nothing for any other text. What it gives depends on
/// the text alone.
#[verifier::external_body]
fn parse_string_array(text: &str) -> (r: Option<Vec<String>>)
    ensures
        r is Some <==> json_strings(text@) is Some,
        r is Some ==> crate::text::views(r->Some_0@) == json_strings(text@)->Some_0,
{
    serde_json::from_str::<Vec<String>>(text).ok()
}

/// `serde_json::to_string` of a `Vec<String>`: the strings as a JSON array.
/// What it gives depends on the strings alone. It always gives one: the
/// serializer writes into memory, and neither that nor the writing of a
/// string or of a sequence of strings can fail.
#[verifier::external_body]
fn string_array_text(strings: &Vec<String>) -> (r: Option<String>)
    ensures
        r is Some,
        r->Some_0@ == json_array(crate::text::views(strings@)),
{
    serde_json::to_string(strings).ok()
}

/// The model paths that a stored value holds: the strings of its JSON
/// array, or none where it is no such array.
pub fn paths_or_none(parsed: Option<Vec<String>>) -> (paths: Vec<String>)
    ensures
        parsed is Some ==> paths == parsed->Some_0,
        parsed is None ==> paths@.len() == 0,
{
    match parsed {
        Some(paths) => paths,
        None => Vec::new(),
    }
}

/// The stored value for a list of strings: its JSON array, or the empty
/// array where it could not be written.
pub fn array_or_empty(written: Option<String>) -> (text: String)
    ensures
        written is Some ==> text == written->Some_0,
        written is None ==> text@ == "[]"@,
{
    match written {
        Some(text) => text,
        None => String::from_str("[]"),
    }
}

/// A list of strings as it is stored: its JSON array.
pub fn strings_value(paths: &Vec<String>) -> (text: String)
    ensures
        text@ == json_array(crate::text::views(paths@)),
{
    array_or_empty(string_array_text(paths))
}

/// The list of strings that a stored value holds.
pub fn strings_of(value: &str) -> (paths: Vec<String>)
    ensures
        json_strings(value@) is Some ==> crate::text::views(paths@) == json_strings(
            value@,
        )->Some_0,
        json_strings(value@) is None ==> paths@.len() == 0,
{
    paths_or_none(parse_string_array(value))
}

/// The number that a stored value holds, or the default where it holds
/// none.
pub fn number_or(value: &str, default: i32) -> (n: i32)
    ensures
        n == match i32_of(value@) {
            Some(v) => v,
            None => default,
        },
{
    match parse_i32(value) {
        Some(v) => v,
        None => default,
    }
}

/// Takes one stored setting over into the settings. `temperature` is what
/// reading the value as a single-precision number gave.
///
/// A key that is not known changes nothing. A number that cannot be read
/// becomes the default of its setting; a switch is on for the value `true`
/// and off for any other; model paths that cannot be read become none.
pub fn apply_setting(settings: &mut Settings, key: &str, value: &str, temperature: Option<u32>)
    ensures
        key@ == "temperature"@ ==> final(settings).temperature == match temperature {
            Some(t) => t,
            None => DEFAULT_TEMPERATURE,
        },
        key@ != "temperature"@ ==> final(settings).temperature == old(settings).temperature,
        key@ == "maxTokens"@ ==> final(settings).max_tokens == match i32_of(value@) {
            Some(v) => v,
            None => 512i32,
        },
        key@ != "maxTokens"@ ==> final(settings).max_tokens == old(settings).max_tokens,
        key@ == "contextLength"@ ==> final(settings).context_length == match i32_of(value@) {
            Some(v) => v,
            None => 2048i32,
        },
        key@ != "contextLength"@ ==> final(settings).context_length == old(settings).context_length,
        key@ == "theme"@ ==> final(settings).theme@ == value@,
        key@ != "theme"@ ==> final(settings).theme == old(settings).theme,
        key@ == "accentColor"@ ==> final(settings).accent_color@ == value@,
        key@ != "accentColor"@ ==> final(settings).accent_color == old(settings).accent_color,
        key@ == "autoSpeak"@ ==> final(settings).auto_speak == (value@ == "true"@),
        key@ != "autoSpeak"@ ==> final(settings).auto_speak == old(settings).auto_speak,
        key@ == "sttEnabled"@ ==> final(settings).stt_enabled == (value@ == "true"@),
        key@ != "sttEnabled"@ ==> final(settings).stt_enabled == old(settings).stt_enabled,
        key@ == "ttsEnabled"@ ==> final(settings).tts_enabled == (value@ == "true"@),
        key@ != "ttsEnabled"@ ==> final(settings).tts_enabled == old(settings).tts_enabled,
        key@ == "modelPaths"@ && json_strings(value@) is Some ==> crate::text::views(
            final(settings).model_paths@,
        ) == json_strings(value@)->Some_0,
        key@ == "modelPaths"@ && json_strings(value@) is None ==> final(settings).model_paths@.len()
            == 0,
        key@ != "modelPaths"@ ==> final(settings).model_paths == old(settings).model_paths,
        final(settings).system_prompt == old(settings).system_prompt,
        final(settings).llm_backend == old(settings).llm_backend,
{
    proof {
        reveal_strlit("temperature");
        reveal_strlit("maxTokens");
        reveal_strlit("contextLength");
        reveal_strlit("theme");
        reveal_strlit("accentColor");
        reveal_strlit("autoSpeak");
        reveal_strlit("sttEnabled");
        reveal_strlit("ttsEnabled");
        reveal_strlit("modelPaths");
        assert("temperature"@.len() == 11 && "temperature"@[0] == 't' && "temperature"@[1] == 'e');
        assert("maxTokens"@.len() == 9 && "maxTokens"@[0] == 'm' && "maxTokens"@[1] == 'a');
        assert("contextLength"@.len() == 13);
        assert("theme"@.len() == 5);
        assert("accentColor"@.len() == 11 && "accentColor"@[0] == 'a' && "accentColor"@[1] == 'c');
        assert("autoSpeak"@.len() == 9 && "autoSpeak"@[0] == 'a' && "autoSpeak"@[1] == 'u');
        assert("sttEnabled"@.len() == 10 && "sttEnabled"@[0] == 's');
        assert("ttsEnabled"@.len() == 10 && "ttsEnabled"@[0] == 't' && "ttsEnabled"@[1] == 't');
        assert("modelPaths"@.len() == 10 && "modelPaths"@[0] == 'm' && "modelPaths"@[1] == 'o');
    }
    if str_equals(key, "temperature") {
        settings.temperature = match temperature {
            Some(t) => t,
            None => DEFAULT_TEMPERATURE,
        };
    } else if str_equals(key, "maxTokens") {
        settings.max_tokens = number_or(value, 512);
    } else if str_equals(key, "contextLength") {
        settings.context_length = number_or(value, 2048);
    } else if str_equals(key, "theme") {
        settings.theme = String::from_str(value);
    } else if str_equals(key, "accentColor") {
        settings.accent_color = String::from_str(value);
    } else if str_equals(key, "autoSpeak") {
        settings.auto_speak = str_equals(value, "true");
    } else if str_equals(key, "sttEnabled") {
        settings.stt_enabled = str_equals(value, "true");
    } else if str_equals(key, "ttsEnabled") {
        settings.tts_enabled = str_equals(value, "true");
    } else if str_equals(key, "modelPaths") {
        settings.model_paths = strings_of(value);
    }
}

/// How a switch is stored.
pub open spec fn switch_text(on: bool) -> Seq<char> {
    if on {
        "true"@
    } else {
        "false"@
    }
}

fn switch_value(on: bool) -> (s: String)
    ensures
        s@ == switch_text(on),
{
    if on {
        String::from_str("true")
    } else {
        String::from_str("false")
    }
}

fn pair(key: &str, value: String) -> (p: (String, String))
    ensures
        p.0@ == key@,
        p.1 == value,
{
    (String::from_str(key), value)
}

/// The settings as the keys and values under which they are stored, in the
/// order in which they are written. `temperature` is the temperature as
/// text. The system prompt and the backend are not stored.
pub fn save_settings(settings: &Settings, temperature: &str) -> (pairs: Vec<(String, String)>)
    ensures
        pairs@.len() == 9,
        pairs@[0].0@ == "temperature"@ && pairs@[0].1@ == temperature@,
        pairs@[1].0@ == "maxTokens"@ && pairs@[1].1@ == decimal(settings.max_tokens as int),
        pairs@[2].0@ == "contextLength"@ && pairs@[2].1@ == decimal(settings.context_length as int),
        pairs@[3].0@ == "theme"@ && pairs@[3].1@ == settings.theme@,
        pairs@[4].0@ == "accentColor"@ && pairs@[4].1@ == settings.accent_color@,
        pairs@[5].0@ == "autoSpeak"@ && pairs@[5].1@ == switch_text(settings.auto_speak),
        pairs@[6].0@ == "sttEnabled"@ && pairs@[6].1@ == switch_text(settings.stt_enabled),
        pairs@[7].0@ == "ttsEnabled"@ && pairs@[7].1@ == switch_text(settings.tts_enabled),
        pairs@[8].0@ == "modelPaths"@ && pairs@[8].1@ == json_array(
            crate::text::views(settings.model_paths@),
        ),
{
    let mut pairs: Vec<(String, String)> = Vec::new();
    pairs.push(pair("temperature", String::from_str(temperature)));
    pairs.push(pair("maxTokens", integer_to_string(settings.max_tokens as i64)));
    pairs.push(pair("contextLength", integer_to_string(settings.context_length as i64)));
    pairs.push(pair("theme", settings.theme.clone()));
    pairs.push(pair("accentColor", settings.accent_color.clone()));
    pairs.push(pair("autoSpeak", switch_value(settings.auto_speak)));
    pairs.push(pair("sttEnabled", switch_value(settings.stt_enabled)));
    pairs.push(pair("ttsEnabled", switch_value(settings.tts_enabled)));
    pairs.push(pair("modelPaths", strings_value(&settings.model_paths)));
    pairs
}

/// How the author of a message is named in the ShareGPT format.
pub fn sharegpt_role(is_user: bool) -> (role: &'static str)
    ensures
        role@ == if is_user {
            "human"@
        } else {
            "gpt"@
        },
{
    if is_user {
        "human"
    } else {
        "gpt"
    }
}

/// The name of a session in the ShareGPT format.
pub fn sharegpt_id(session_id: i64) -> (id: String)
    ensures
        id@ == "session_"@ + decimal(session_id as int),
{
    let mut id = String::from_str("session_");
    id.append(integer_to_string(session_id).as_str());
    id
}

/// The formats in which everything can be exported.
#[derive(Clone, Copy, Debug, PartialEq, Eq, Structural)]
pub enum ExportFormat {
    /// One instruction and answer per line.
    Alpaca,
    /// Whole conversations.
    ShareGpt,
    /// Everything the store holds.
    Full,
}

/// The format that a name asks for; any name but `alpaca` and `sharegpt`
/// asks for everything.
pub fn export_format(name: &str) -> (format: ExportFormat)
    ensures
        format == if name@ == "alpaca"@ {
            ExportFormat::Alpaca
        } else if name@ == "sharegpt"@ {
            ExportFormat::ShareGpt
        } else {
            ExportFormat::Full
        },
{
    if str_equals(name, "alpaca") {
        ExportFormat::Alpaca
    } else if str_equals(name, "sharegpt") {
        ExportFormat::ShareGpt
    } else {
        ExportFormat::Full
    }
}

/// The name of the file of an export made at `timestamp` seconds since the
/// epoch.
pub fn export_file_name(format: ExportFormat, timestamp: u64) -> (name: String)
    ensures
        name@ == match format {
            ExportFormat::Alpaca => "alpaca_"@ + crate::text::decimal_digits(timestamp as nat)
                + ".jsonl"@,
            ExportFormat::ShareGpt => "sharegpt_"@ + crate::text::decimal_digits(timestamp as nat)
                + ".json"@,
            ExportFormat::Full => "full_export_"@ + crate::text::decimal_digits(timestamp as nat)
                + ".json"@,
        },
{
    let (head, tail) = match format {
        ExportFormat::Alpaca => ("alpaca_", ".jsonl"),
        ExportFormat::ShareGpt => ("sharegpt_", ".json"),
        ExportFormat::Full => ("full_export_", ".json"),
    };
    let mut name = String::from_str(head);
    crate::text::append_decimal(&mut name, timestamp);
    name.append(tail);
    name
}

/// Figures about what the store holds.
#[derive(Clone, Copy, Debug, PartialEq, Eq, Structural)]
pub struct DataStats {
    pub total_sessions: i64,
    pub total_messages: i64,
    pub user_messages: i64,
    pub assistant_messages: i64,
    pub total_memories: i64,
    pub total_characters: i64,
    pub estimated_tokens: i64,
}

/// The figures, from the counts that the store gave: the assistant wrote
/// the messages that the user did not, and four characters make about one
/// token.
pub fn get_data_stats(
    total_sessions: i64,
    total_messages: i64,
    user_messages: i64,
    total_memories: i64,
    total_characters: i64,
) -> (stats: DataStats)
    requires
        i64::MIN <= total_messages - user_messages <= i64::MAX,
    ensures
        stats == (DataStats {
            total_sessions,
            total_messages,
            user_messages,
            assistant_messages: (total_messages - user_messages) as i64,
            total_memories,
            total_characters,
            estimated_tokens: if total_characters >= 0 {
                (total_characters / 4) as i64
            } else {
                (-((-total_characters) / 4)) as i64
            },
        }),
{
    DataStats {
        total_sessions,
        total_messages,
        user_messages,
        assistant_messages: total_messages - user_messages,
        total_memories,
        total_characters,
        estimated_tokens: total_characters / 4,
    }
}

} // verus!
