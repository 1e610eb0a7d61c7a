//! The values exchanged with the user interface.

use crate::binary32;
use crate::database::UserPersona;
use crate::text::{
    contains, find, from_chars_range, lowercase, remove_all, replaced, split_words, str_contains,
    str_equals, str_is_empty, str_remove_all, str_replace, str_trim, to_chars, to_lowercase, trim,
    views, words,
};
use vstd::string::StringSliceAdditionalSpecFns;
use std::collections::HashMap;
use vstd::prelude::*;

verus! {

/// What is known of the graphics processor.
#[derive(Debug, Clone)]
pub struct GpuInfo {
    pub available: bool,
    pub backend: String,
    pub device_name: String,
    pub vram_total_mb: u64,
    pub vram_free_mb: u64,
}

/// A stored chat message.
#[derive(Debug, Clone)]
pub struct Message {
    pub id: i64,
    pub content: String,
    pub is_user: bool,
    pub timestamp: i64,
}

/// A chat session.
#[derive(Debug, Clone)]
pub struct Session {
    pub id: i64,
    pub title: String,
    pub created_at: i64,
    pub message_count: i32,
}

/// A model file known to the application.
#[derive(Debug, Clone)]
pub struct Model {
    pub name: String,
    pub path: String,
    pub size: i64,
    pub is_loaded: bool,
}

/// A named voice sample.
#[derive(Debug, Clone)]
pub struct VoiceProfile {
    pub id: i64,
    pub name: String,
    pub audio_path: String,
    pub created_at: i64,
}

/// One earlier turn of the conversation.
#[derive(Debug, Clone)]
pub struct HistoryMessage {
    pub content: String,
    pub is_user: bool,
}

/// A voice recording made in a chat.
#[derive(Debug, Clone)]
pub struct VoiceRecording {
    pub id: i64,
    pub path: String,
    pub created_at: i64,
}


/// What is known of the interpreter that converts models.
#[derive(Debug, Clone)]
pub struct PythonStatus {
    pub python_version: Option<String>,
    pub python_ok: bool,
    pub dependencies: HashMap<String, Option<String>>,
    pub all_installed: bool,
    pub cuda_available: bool,
    pub cuda_device: Option<String>,
}

/// What the user has chosen.
#[derive(Debug, Clone)]
pub struct Settings {
    /// The sampling temperature, as the bit pattern of a single-precision
    /// number.
    pub temperature: u32,
    pub max_tokens: i32,
    pub context_length: i32,
    pub theme: String,
    pub accent_color: String,
    pub auto_speak: bool,
    pub stt_enabled: bool,
    pub tts_enabled: bool,
    pub model_paths: Vec<String>,
    pub system_prompt: String,
    pub llm_backend: String,
}

/// The temperature of a fresh installation: 0.7.
pub const DEFAULT_TEMPERATURE: u32 = 0x3f33_3333;

/// The backend of a fresh installation.
pub fn default_llm_backend() -> (s: String)
    ensures
        s@ == "native"@,
{
    String::from_str("native")
}

/// The system prompt of a fresh installation.
pub open spec fn default_prompt() -> Seq<char> {
    "Ты — Wishmaster, умный диалоговый AI-ассистент с долговременной памятью. Отвечай кратко и по делу на русском языке. Отвечай только содержательным текстом, без процентов, формул сходства и служебных меток."@
}

/// The system prompt of a fresh installation.
pub fn default_system_prompt() -> (s: String)
    ensures
        s@ == default_prompt(),
{
    String::from_str(
        "Ты — Wishmaster, умный диалоговый AI-ассистент с долговременной памятью. Отвечай кратко и по делу на русском языке. Отвечай только содержательным текстом, без процентов, формул сходства и служебных меток.",
    )
}

impl Default for Settings {
    fn default() -> (settings: Settings)
        ensures
            settings.temperature == DEFAULT_TEMPERATURE,
            settings.max_tokens == 512,
            settings.context_length == 2048,
            settings.theme@ == "dark"@,
            settings.accent_color@ == "cyan"@,
            !settings.auto_speak,
            settings.stt_enabled,
            settings.tts_enabled,
            settings.model_paths@.len() == 0,
            settings.system_prompt@ == default_prompt(),
            settings.llm_backend@ == "native"@,
    {
        Settings {
            temperature: DEFAULT_TEMPERATURE,
            max_tokens: 512,
            context_length: 2048,
            theme: String::from_str("dark"),
            accent_color: String::from_str("cyan"),
            auto_speak: false,
            stt_enabled: true,
            tts_enabled: true,
            model_paths: Vec::new(),
            system_prompt: default_system_prompt(),
            llm_backend: default_llm_backend(),
        }
    }
}

/// The text asks to compare messages and to answer with a similarity: a
/// task that makes the model answer every prompt with a percentage. `t` is
/// the text without whitespace around it, `lower` the same in lowercase.
pub open spec fn is_comparison_task(t: Seq<char>, lower: Seq<char>) -> bool {
    (contains(t, "сходство"@) && (contains(t, "сравни"@) || contains(t, "процент"@) || contains(
        t,
        "%"@,
    ))) || contains(t, "сравни два сообщения"@) || (contains(lower, "similarity"@) && (contains(
        lower,
        "compare"@,
    ) || contains(t, "%"@)))
}

/// Whether a text, given without whitespace around it and again in
/// lowercase, asks to compare messages and to answer with a similarity.
pub fn is_comparison_task_text(t: &str, lower: &str) -> (b: bool)
    ensures
        b == is_comparison_task(t@, lower@),
{
    let percent = str_contains(t, "%");
    (str_contains(t, "сходство") && (str_contains(t, "сравни") || str_contains(t, "процент")
        || percent)) || str_contains(t, "сравни два сообщения") || (str_contains(
        lower,
        "similarity",
    ) && (str_contains(lower, "compare") || percent))
}

/// Whether a stored system prompt is the comparison task that makes the
/// model answer with percentages. An empty prompt is not.
pub fn is_similarity_comparison_prompt(s: &str) -> (b: bool)
    ensures
        b == (trim(s@).len() > 0 && is_comparison_task(trim(s@), lowercase(trim(s@)))),
{
    let t = str_trim(s);
    if str_is_empty(t.as_str()) {
        return false;
    }
    let lower = to_lowercase(t.as_str());
    is_comparison_task_text(t.as_str(), lower.as_str())
}

/// The system prompt to build on: the stored one, or the default where the
/// stored one is the comparison task.
pub fn base_system_prompt(stored: &str) -> (prompt: String)
    ensures
        prompt@ == if trim(stored@).len() > 0 && is_comparison_task(
            trim(stored@),
            lowercase(trim(stored@)),
        ) {
            default_prompt()
        } else {
            stored@
        },
{
    if is_similarity_comparison_prompt(stored) {
        default_system_prompt()
    } else {
        String::from_str(stored)
    }
}

/// Some path of the list is `path`.
pub open spec fn has_path(paths: Seq<String>, path: Seq<char>) -> bool {
    exists|i: int| 0 <= i < paths.len() && (#[trigger] paths[i])@ == path
}

/// Adds a model path to the list and tells whether the list changed. The
/// path is taken without whitespace around it; an empty path and one that is
/// in the list already are not added.
pub fn add_model_path(paths: &mut Vec<String>, path: &str) -> (added: bool)
    ensures
        added == (trim(path@).len() > 0 && !has_path(old(paths)@, trim(path@))),
        !added ==> *final(paths) == *old(paths),
        added ==> final(paths)@.len() == old(paths)@.len() + 1 && final(paths)@.drop_last() == old(paths)@ && final(paths)@.last()@ == trim(path@),
{
    let trimmed = str_trim(path);
    if str_is_empty(trimmed.as_str()) {
        return false;
    }
    let mut i: usize = 0;
    while i < paths.len()
        invariant
            i <= paths.len(),
            *paths == *old(paths),
            trimmed@ == trim(path@),
            forall|j: int| 0 <= j < i ==> (#[trigger] paths@[j])@ != trimmed@,
        decreases paths.len() - i,
    {
        if paths[i] == trimmed {
            return false;
        }
        i = i + 1;
    }
    paths.push(trimmed);
    assert(paths@.drop_last() =~= old(paths)@);
    true
}

/// The paths other than `path`, in order.
pub open spec fn paths_without(paths: Seq<String>, path: Seq<char>) -> Seq<String>
    decreases paths.len(),
{
    if paths.len() == 0 {
        Seq::empty()
    } else {
        let before = paths_without(paths.drop_last(), path);
        if paths.last()@ == path {
            before
        } else {
            before.push(paths.last())
        }
    }
}

/// Removes a model path from the list, wherever it stands in it.
pub fn remove_model_path(paths: &mut Vec<String>, path: &str)
    ensures
        final(paths)@ == paths_without(old(paths)@, path@),
{
    let wanted = String::from_str(path);
    let ghost initial = paths@;
    let ghost mut seen: int = 0;
    let mut i: usize = 0;
    assert(initial.take(0) =~= Seq::<String>::empty());
    assert(initial.skip(0) =~= initial);
    while i < paths.len()
        invariant
            0 <= seen <= initial.len(),
            i <= paths.len(),
            wanted@ == path@,
            i == paths_without(initial.take(seen), path@).len(),
            paths@ == paths_without(initial.take(seen), path@) + initial.skip(seen),
        decreases initial.len() - seen,
    {
        let ghost kept = paths_without(initial.take(seen), path@);
        proof {
            assert(paths@[i as int] == initial.skip(seen)[0]);
            assert(initial.take(seen + 1).drop_last() =~= initial.take(seen));
            assert(initial.take(seen + 1).last() == initial[seen]);
            assert(initial.skip(seen).skip(1) =~= initial.skip(seen + 1));
        }
        if paths[i] == wanted {
            let gone = paths.remove(i);
            assert(paths@ =~= kept + initial.skip(seen + 1));
        } else {
            assert(paths@ =~= kept.push(initial[seen]) + initial.skip(seen + 1));
            i = i + 1;
        }
        proof {
            seen = seen + 1;
        }
    }
    proof {
        assert(initial.skip(seen).len() == 0);
        assert(initial.take(seen) =~= initial);
        assert(paths@ =~= paths_without(initial, path@));
    }
}

/// What follows the last `c` of `s`; all of `s` where it has no `c`.
pub open spec fn after_last(s: Seq<char>, c: char) -> Seq<char>
    decreases s.len(),
{
    if s.len() == 0 || s.last() == c {
        Seq::empty()
    } else {
        after_last(s.drop_last(), c).push(s.last())
    }
}

/// The name under which a model is shown: the last part of its path,
/// without `.gguf`.
pub open spec fn model_name_of(path: Seq<char>) -> Seq<char> {
    remove_all(after_last(path, '/'), ".gguf"@)
}

/// The name under which a model is shown.
pub fn model_name(path: &str) -> (name: String)
    ensures
        name@ == model_name_of(path@),
{
    let chars = to_chars(path);
    let mut start: usize = chars.len();
    assert(chars@.subrange(start as int, chars.len() as int) =~= Seq::<char>::empty());
    assert(chars@.take(chars.len() as int) =~= chars@);
    while start > 0 && chars[start - 1] != '/'
        invariant
            start <= chars.len(),
            after_last(chars@, '/') == after_last(chars@.take(start as int), '/') + chars@.subrange(
                start as int,
                chars.len() as int,
            ),
        decreases start,
    {
        proof {
            let head = chars@.take(start as int);
            assert(head.last() == chars@[start - 1]);
            assert(head.drop_last() =~= chars@.take(start - 1));
            assert(after_last(head.drop_last(), '/').push(head.last()) + chars@.subrange(
                start as int,
                chars.len() as int,
            ) =~= after_last(head.drop_last(), '/') + chars@.subrange(
                start - 1,
                chars.len() as int,
            ));
        }
        start = start - 1;
    }
    proof {
        let head = chars@.take(start as int);
        if start > 0 {
            assert(head.last() == chars@[start - 1]);
        }
        assert(after_last(head, '/') =~= Seq::<char>::empty());
        assert(after_last(chars@, '/') =~= chars@.subrange(start as int, chars.len() as int));
    }
    let last = from_chars_range(&chars, start, chars.len());
    str_remove_all(last.as_str(), ".gguf")
}

/// A repository in lowercase names a model in the AWQ format that is not
/// also offered as GGUF.
pub open spec fn names_awq(lower: Seq<char>) -> bool {
    contains(lower, "awq"@) && !contains(lower, "gguf"@)
}

/// Whether a repository name in lowercase names an AWQ model.
pub fn is_awq_name(lower: &str) -> (b: bool)
    ensures
        b == names_awq(lower@),
{
    str_contains(lower, "awq") && !str_contains(lower, "gguf")
}

/// Whether a repository holds a model in the AWQ format and not GGUF,
/// whatever the case of the letters of its name.
pub fn is_awq_model(repo_id: &str) -> (b: bool)
    ensures
        b == names_awq(lowercase(repo_id@)),
{
    let lower = to_lowercase(repo_id);
    is_awq_name(lower.as_str())
}

/// The number of `c` in `s`.
pub open spec fn count_of(s: Seq<char>, c: char) -> nat
    decreases s.len(),
{
    if s.len() == 0 {
        0
    } else {
        count_of(s.drop_last(), c) + if s.last() == c {
            1nat
        } else {
            0nat
        }
    }
}

/// The first of the candidates that differs from `name` and holds `GGUF`.
pub open spec fn first_alternative(name: Seq<char>, candidates: Seq<Seq<char>>, k: int) -> Option<
    Seq<char>,
>
    decreases candidates.len() - k,
{
    if k < 0 || k >= candidates.len() {
        None
    } else if candidates[k] != name && contains(candidates[k], "GGUF"@) {
        Some(candidates[k])
    } else {
        first_alternative(name, candidates, k + 1)
    }
}

/// The names under which a GGUF version of an AWQ model may be found.
pub open spec fn alternatives(name: Seq<char>) -> Seq<Seq<char>> {
    seq![
        replaced(name, "-AWQ"@, "-GGUF"@),
        replaced(name, "-awq"@, "-GGUF"@),
        remove_all(remove_all(name, "-AWQ"@), "-awq"@) + "-GGUF"@,
    ]
}

/// The GGUF model to look for in place of an AWQ model. A repository is
/// named by owner and model with one slash between them; for any other name
/// there is no suggestion.
pub open spec fn gguf_alternative(repo_id: Seq<char>) -> Option<Seq<char>> {
    if count_of(repo_id, '/') != 1 {
        None
    } else {
        first_alternative(after_last(repo_id, '/'), alternatives(after_last(repo_id, '/')), 0)
    }
}

/// The GGUF model to look for in place of an AWQ model.
pub fn suggest_gguf_alternative(repo_id: &str) -> (suggestion: Option<String>)
    ensures
        suggestion is Some <==> gguf_alternative(repo_id@) is Some,
        suggestion is Some ==> suggestion->Some_0@ == gguf_alternative(repo_id@)->Some_0,
{
    let chars = to_chars(repo_id);
    let mut slashes: usize = 0;
    let mut i: usize = 0;
    let mut start: usize = 0;
    assert(chars@.take(0) =~= Seq::<char>::empty());
    while i < chars.len()
        invariant
            i <= chars.len(),
            start <= i,
            slashes <= i,
            slashes == count_of(chars@.take(i as int), '/'),
            after_last(chars@.take(i as int), '/') == chars@.subrange(start as int, i as int),
        decreases chars.len() - i,
    {
        proof {
            let head = chars@.take(i + 1);
            assert(head.drop_last() =~= chars@.take(i as int));
            assert(head.last() == chars@[i as int]);
        }
        if chars[i] == '/' {
            slashes = slashes + 1;
            start = i + 1;
            assert(chars@.subrange(start as int, i + 1) =~= Seq::<char>::empty());
        } else {
            assert(chars@.subrange(start as int, i as int).push(chars@[i as int]) =~= chars@.subrange(
                start as int,
                i + 1,
            ));
        }
        i = i + 1;
    }
    assert(chars@.take(i as int) =~= chars@);
    if slashes != 1 {
        return None;
    }
    let name = from_chars_range(&chars, start, chars.len());
    let ghost options = alternatives(name@);
    let first = str_replace(name.as_str(), "-AWQ", "-GGUF");
    if !str_equals(first.as_str(), name.as_str()) && str_contains(first.as_str(), "GGUF") {
        return Some(first);
    }
    let second = str_replace(name.as_str(), "-awq", "-GGUF");
    if !str_equals(second.as_str(), name.as_str()) && str_contains(second.as_str(), "GGUF") {
        assert(first_alternative(name@, options, 0) == first_alternative(name@, options, 1));
        return Some(second);
    }
    let stripped = str_remove_all(name.as_str(), "-AWQ");
    let mut third = str_remove_all(stripped.as_str(), "-awq");
    third.append("-GGUF");
    proof {
        assert(first_alternative(name@, options, 0) == first_alternative(name@, options, 1));
        assert(first_alternative(name@, options, 1) == first_alternative(name@, options, 2));
        assert(first_alternative(name@, options, 3) is None);
    }
    if !str_equals(third.as_str(), name.as_str()) && str_contains(third.as_str(), "GGUF") {
        return Some(third);
    }
    None
}

/// The character is a letter of the Russian alphabet.
pub open spec fn is_cyrillic(c: char) -> bool {
    ('а' <= c && c <= 'я') || ('А' <= c && c <= 'Я') || c == 'ё' || c == 'Ё'
}

/// The character is a pictograph: it lies in one of the blocks of emoticons,
/// symbols, transport signs and dingbats.
pub open spec fn is_emoji(c: char) -> bool {
    let cp = c as u32;
    (0x1F600 <= cp <= 0x1F64F) || (0x1F300 <= cp <= 0x1F5FF) || (0x1F680 <= cp <= 0x1F6FF) || (
    0x1F900 <= cp <= 0x1F9FF) || (0x2600 <= cp <= 0x26FF) || (0x2700 <= cp <= 0x27BF) || (0x1FA00
        <= cp <= 0x1FA6F)
}

/// The number of pictographs in a text.
pub open spec fn emoji_in(s: Seq<char>) -> nat
    decreases s.len(),
{
    if s.len() == 0 {
        0
    } else {
        emoji_in(s.drop_last()) + if is_emoji(s.last()) {
            1nat
        } else {
            0nat
        }
    }
}

/// The number of pictographs in all the messages.
pub open spec fn emoji_total(messages: Seq<String>) -> nat
    decreases messages.len(),
{
    if messages.len() == 0 {
        0
    } else {
        emoji_total(messages.drop_last()) + emoji_in(messages.last()@)
    }
}

/// Some message holds a letter of the Russian alphabet.
pub open spec fn any_cyrillic(messages: Seq<String>) -> bool {
    exists|i: int, j: int|
        0 <= i < messages.len() && 0 <= j < messages[i]@.len() && is_cyrillic(
            #[trigger] messages[i]@[j],
        )
}

/// The language of the messages: `ru` where one holds a letter of the
/// Russian alphabet, `en` else.
pub fn detect_language(messages: &Vec<String>) -> (language: &'static str)
    ensures
        language@ == if any_cyrillic(messages@) {
            "ru"@
        } else {
            "en"@
        },
{
    let mut i: usize = 0;
    while i < messages.len()
        invariant
            i <= messages.len(),
            forall|a: int, b: int|
                0 <= a < i && 0 <= b < messages@[a]@.len() ==> !is_cyrillic(
                    #[trigger] messages@[a]@[b],
                ),
        decreases messages.len() - i,
    {
        let chars = to_chars(messages[i].as_str());
        let mut j: usize = 0;
        while j < chars.len()
            invariant
                i < messages.len(),
                j <= chars.len(),
                chars@ == messages@[i as int]@,
                forall|b: int| 0 <= b < j ==> !is_cyrillic(#[trigger] chars@[b]),
            decreases chars.len() - j,
        {
            let c = chars[j];
            if ('а' <= c && c <= 'я') || ('А' <= c && c <= 'Я') || c == 'ё' || c == 'Ё' {
                assert(is_cyrillic(messages@[i as int]@[j as int]));
                return "ru";
            }
            j = j + 1;
        }
        i = i + 1;
    }
    "en"
}

/// The number of pictographs in all the messages, as far as it can be
/// counted.
pub fn count_emoji(messages: &Vec<String>) -> (count: usize)
    ensures
        emoji_total(messages@) <= usize::MAX ==> count == emoji_total(messages@),
        emoji_total(messages@) > usize::MAX ==> count == usize::MAX,
{
    let mut count: usize = 0;
    let mut i: usize = 0;
    assert(messages@.take(0) =~= Seq::<String>::empty());
    while i < messages.len()
        invariant
            i <= messages.len(),
            emoji_total(messages@.take(i as int)) <= usize::MAX ==> count == emoji_total(
                messages@.take(i as int),
            ),
            emoji_total(messages@.take(i as int)) > usize::MAX ==> count == usize::MAX,
        decreases messages.len() - i,
    {
        proof {
            assert(messages@.take(i + 1).drop_last() =~= messages@.take(i as int));
            assert(messages@.take(i + 1).last() == messages@[i as int]);
        }
        let chars = to_chars(messages[i].as_str());
        let ghost before = emoji_total(messages@.take(i as int));
        let mut j: usize = 0;
        assert(chars@.take(0) =~= Seq::<char>::empty());
        while j < chars.len()
            invariant
                j <= chars.len(),
                before + emoji_in(chars@.take(j as int)) <= usize::MAX ==> count == before
                    + emoji_in(chars@.take(j as int)),
                before + emoji_in(chars@.take(j as int)) > usize::MAX ==> count == usize::MAX,
            decreases chars.len() - j,
        {
            proof {
                assert(chars@.take(j + 1).drop_last() =~= chars@.take(j as int));
                assert(chars@.take(j + 1).last() == chars@[j as int]);
            }
            let cp: u32 = chars[j] as u32;
            let hit = (0x1F600 <= cp && cp <= 0x1F64F) || (0x1F300 <= cp && cp <= 0x1F5FF) || (
            0x1F680 <= cp && cp <= 0x1F6FF) || (0x1F900 <= cp && cp <= 0x1F9FF) || (0x2600 <= cp
                && cp <= 0x26FF) || (0x2700 <= cp && cp <= 0x27BF) || (0x1FA00 <= cp && cp
                <= 0x1FA6F);
            if hit && count < usize::MAX {
                count = count + 1;
            }
            j = j + 1;
        }
        assert(chars@.take(j as int) =~= chars@);
        i = i + 1;
    }
    assert(messages@.take(i as int) =~= messages@);
    count
}

/// A tenth, as a single-precision bit pattern.
pub const ONE_TENTH: u32 = 0x3dcc_cccd;

/// A half, as a single-precision bit pattern.
pub const ONE_HALF: u32 = 0x3f00_0000;

/// One, as a single-precision bit pattern.
pub const ONE: u32 = 0x3f80_0000;

/// How much the user likes pictographs, from their number per message given
/// as a single-precision bit pattern: `none` below a tenth, `minimal` below
/// a half, `moderate` below one, `heavy` else.
pub fn emoji_usage(ratio: u32) -> (usage: &'static str)
    ensures
        usage@ == usage_of(ratio),
{
    if binary32::less_than(ratio, ONE_TENTH) {
        "none"
    } else if binary32::less_than(ratio, ONE_HALF) {
        "minimal"
    } else if binary32::less_than(ratio, ONE) {
        "moderate"
    } else {
        "heavy"
    }
}

/// How the user writes, from how many formal and how many casual words the
/// messages hold: `formal` or `casual` where one kind outnumbers the other
/// more than twice, `neutral` else.
pub fn writing_style(formal_count: usize, casual_count: usize) -> (style: &'static str)
    ensures
        style@ == style_of(formal_count, casual_count),
{
    if formal_count as u128 > 2 * (casual_count as u128) {
        "formal"
    } else if casual_count as u128 > 2 * (formal_count as u128) {
        "casual"
    } else {
        "neutral"
    }
}

/// The tone of the user: `friendly` where positive words outnumber half the
/// messages, `inquisitive` where messages with a question mark do, `neutral`
/// else.
pub fn tone(positive_count: usize, question_marks: usize, messages: usize) -> (tone: &'static str)
    ensures
        tone@ == tone_of(positive_count, question_marks, messages),
{
    if positive_count > messages / 2 {
        "friendly"
    } else if question_marks > messages / 2 {
        "inquisitive"
    } else {
        "neutral"
    }
}


/// The words that mark formal writing.
pub const FORMAL_WORDS: [&'static str; 6] = [
    "пожалуйста",
    "благодарю",
    "уважаемый",
    "please",
    "thank you",
    "regards",
];

/// The words that mark casual writing.
pub const CASUAL_WORDS: [&'static str; 8] = [
    "привет",
    "ок",
    "круто",
    "классно",
    "hi",
    "hey",
    "cool",
    "awesome",
];

/// The words that mark a friendly tone.
pub const POSITIVE_WORDS: [&'static str; 7] = [
    "спасибо",
    "отлично",
    "хорошо",
    "thank",
    "great",
    "good",
    "nice",
];

/// The messages in lowercase.
pub fn lowered(messages: &Vec<String>) -> (lower: Vec<String>)
    ensures
        lower@.len() == messages@.len(),
        forall|i: int| 0 <= i < messages@.len() ==> (#[trigger] lower@[i])@ == lowercase(messages@[i]@),
{
    let mut lower: Vec<String> = Vec::new();
    let mut i: usize = 0;
    while i < messages.len()
        invariant
            i <= messages.len(),
            lower@.len() == i,
            forall|j: int| 0 <= j < i ==> (#[trigger] lower@[j])@ == lowercase(messages@[j]@),
        decreases messages.len() - i,
    {
        lower.push(to_lowercase(messages[i].as_str()));
        i = i + 1;
    }
    lower
}

/// How many of the first `k` words occur in a text.
pub open spec fn words_in(text: Seq<char>, words: Seq<Seq<char>>, k: int) -> nat
    decreases k,
{
    if k <= 0 {
        0
    } else {
        words_in(text, words, k - 1) + if contains(text, words[k - 1]) {
            1nat
        } else {
            0nat
        }
    }
}

/// How often words of a list occur in texts: for every text, the number of
/// words that occur in it, all added up.
pub open spec fn word_hits(texts: Seq<Seq<char>>, words: Seq<Seq<char>>) -> nat
    decreases texts.len(),
{
    if texts.len() == 0 {
        0
    } else {
        word_hits(texts.drop_last(), words) + words_in(texts.last(), words, words.len() as int)
    }
}

/// A count as far as it can be counted.
pub open spec fn capped(n: nat) -> usize {
    if n <= usize::MAX {
        n as usize
    } else {
        usize::MAX
    }
}

/// How often words of a list occur in texts, as far as it can be counted.
/// The texts are expected in lowercase.
pub fn count_word_hits(texts: &Vec<String>, words: &Vec<String>) -> (count: usize)
    ensures
        count == capped(word_hits(views(texts@), views(words@))),
{
    let ghost ws = views(words@);
    let ghost ts = views(texts@);
    let mut count: usize = 0;
    let mut i: usize = 0;
    assert(ts.take(0) =~= Seq::<Seq<char>>::empty());
    while i < texts.len()
        invariant
            i <= texts.len(),
            ws == views(words@),
            ts == views(texts@),
            count == capped(word_hits(ts.take(i as int), ws)),
        decreases texts.len() - i,
    {
        proof {
            assert(ts.take(i + 1).drop_last() =~= ts.take(i as int));
            assert(ts.take(i + 1).last() == texts@[i as int]@);
        }
        let text = to_chars(texts[i].as_str());
        let ghost before = word_hits(ts.take(i as int), ws);
        let mut k: usize = 0;
        while k < words.len()
            invariant
                i < texts.len(),
                k <= words.len(),
                ws == views(words@),
                text@ == texts@[i as int]@,
                count == capped(before + words_in(text@, ws, k as int)),
            decreases words.len() - k,
        {
            let word = to_chars(words[k].as_str());
            assert(ws[k as int] == words@[k as int]@);
            if find(&text, &word) && count < usize::MAX {
                count = count + 1;
            }
            k = k + 1;
        }
        i = i + 1;
    }
    assert(ts.take(i as int) =~= ts);
    count
}

/// The words of a list as strings.
pub fn word_list(words: &[&'static str]) -> (list: Vec<String>)
    ensures
        list@.len() == words@.len(),
        forall|i: int| 0 <= i < words@.len() ==> (#[trigger] list@[i])@ == words@[i]@,
{
    let mut list: Vec<String> = Vec::new();
    let mut i: usize = 0;
    while i < words.len()
        invariant
            i <= words.len(),
            list@.len() == i,
            forall|j: int| 0 <= j < i ==> (#[trigger] list@[j])@ == words@[j]@,
        decreases words.len() - i,
    {
        list.push(String::from_str(words[i]));
        i = i + 1;
    }
    list
}

/// The number of texts that hold `pattern`.
pub open spec fn texts_with(texts: Seq<String>, pattern: Seq<char>) -> nat
    decreases texts.len(),
{
    if texts.len() == 0 {
        0
    } else {
        texts_with(texts.drop_last(), pattern) + if contains(texts.last()@, pattern) {
            1nat
        } else {
            0nat
        }
    }
}

/// The number of messages that ask something: those with a question mark.
pub fn count_questions(messages: &Vec<String>) -> (count: usize)
    ensures
        count == texts_with(messages@, "?"@),
{
    let mark = to_chars("?");
    let mut count: usize = 0;
    let mut i: usize = 0;
    assert(messages@.take(0) =~= Seq::<String>::empty());
    while i < messages.len()
        invariant
            i <= messages.len(),
            mark@ == "?"@,
            count <= i,
            count == texts_with(messages@.take(i as int), "?"@),
        decreases messages.len() - i,
    {
        proof {
            assert(messages@.take(i + 1).drop_last() =~= messages@.take(i as int));
            assert(messages@.take(i + 1).last() == messages@[i as int]);
        }
        let text = to_chars(messages[i].as_str());
        if find(&text, &mark) {
            count = count + 1;
        }
        i = i + 1;
    }
    assert(messages@.take(i as int) =~= messages@);
    count
}

/// The bytes of all the messages together.
pub open spec fn total_bytes(messages: Seq<String>) -> nat
    decreases messages.len(),
{
    if messages.len() == 0 {
        0
    } else {
        total_bytes(messages.drop_last()) + vstd::utf8::encode_utf8(messages.last()@).len()
    }
}

/// The length of all the messages together, in bytes, as far as it can be
/// counted.
pub fn total_length(messages: &Vec<String>) -> (total: usize)
    ensures
        total_bytes(messages@) <= usize::MAX ==> total == total_bytes(messages@),
        total_bytes(messages@) > usize::MAX ==> total == usize::MAX,
{
    let mut total: usize = 0;
    let mut i: usize = 0;
    assert(messages@.take(0) =~= Seq::<String>::empty());
    while i < messages.len()
        invariant
            i <= messages.len(),
            total_bytes(messages@.take(i as int)) <= usize::MAX ==> total == total_bytes(
                messages@.take(i as int),
            ),
            total_bytes(messages@.take(i as int)) > usize::MAX ==> total == usize::MAX,
        decreases messages.len() - i,
    {
        proof {
            assert(messages@.take(i + 1).drop_last() =~= messages@.take(i as int));
            assert(messages@.take(i + 1).last() == messages@[i as int]);
        }
        let n = messages[i].as_str().as_bytes().len();
        total = if n > usize::MAX - total {
            usize::MAX
        } else {
            total + n
        };
        i = i + 1;
    }
    assert(messages@.take(i as int) =~= messages@);
    total
}


/// The phrase that two words in a row make: the words with a space between
/// them, in lowercase.
pub open spec fn phrase_of(first: Seq<char>, second: Seq<char>) -> Seq<char> {
    lowercase(first + " "@ + second)
}

/// The phrase is long enough to count: more than five bytes.
pub open spec fn is_long_phrase(phrase: Seq<char>) -> bool {
    vstd::utf8::encode_utf8(phrase).len() > 5
}

/// The phrases of the words of one message that count, in order.
pub open spec fn phrases_of(ws: Seq<Seq<char>>) -> Seq<Seq<char>>
    decreases ws.len(),
{
    if ws.len() < 2 {
        Seq::empty()
    } else {
        let before = phrases_of(ws.drop_last());
        let phrase = phrase_of(ws[ws.len() - 2], ws[ws.len() - 1]);
        if is_long_phrase(phrase) {
            before.push(phrase)
        } else {
            before
        }
    }
}

/// The phrases of all messages that count, in order.
pub open spec fn all_phrases(messages: Seq<String>) -> Seq<Seq<char>>
    decreases messages.len(),
{
    if messages.len() == 0 {
        Seq::empty()
    } else {
        all_phrases(messages.drop_last()) + phrases_of(words(messages.last()@))
    }
}

/// A phrase and how often it was seen.
#[derive(Debug, Clone)]
pub struct PhraseCount {
    pub phrase: String,
    pub count: usize,
}

/// Where a phrase stands in a tally; nowhere if it was not seen.
pub open spec fn place_of(tally: Seq<(Seq<char>, nat)>, phrase: Seq<char>) -> Option<int>
    decreases tally.len(),
{
    if tally.len() == 0 {
        None
    } else {
        match place_of(tally.drop_last(), phrase) {
            Some(i) => Some(i),
            None => if tally.last().0 == phrase {
                Some(tally.len() - 1)
            } else {
                None
            },
        }
    }
}

/// A tally with one more sighting of a phrase: its count goes up, or it
/// joins the end with a count of one.
pub open spec fn seen(tally: Seq<(Seq<char>, nat)>, phrase: Seq<char>) -> Seq<(Seq<char>, nat)> {
    match place_of(tally, phrase) {
        Some(i) => tally.update(i, (phrase, tally[i].1 + 1)),
        None => tally.push((phrase, 1)),
    }
}

/// How often every phrase was seen, the phrases in the order in which they
/// were first seen.
pub open spec fn tally_of(phrases: Seq<Seq<char>>) -> Seq<(Seq<char>, nat)>
    decreases phrases.len(),
{
    if phrases.len() == 0 {
        Seq::empty()
    } else {
        seen(tally_of(phrases.drop_last()), phrases.last())
    }
}

/// The entries that were seen more than twice, in order.
pub open spec fn frequent(tally: Seq<(Seq<char>, nat)>) -> Seq<(Seq<char>, nat)>
    decreases tally.len(),
{
    if tally.len() == 0 {
        Seq::empty()
    } else {
        let before = frequent(tally.drop_last());
        if tally.last().1 > 2 {
            before.push(tally.last())
        } else {
            before
        }
    }
}

/// A ranking with one more entry: it goes behind every entry that was seen
/// at least as often, and before the others.
pub open spec fn ranked_with(ranking: Seq<(Seq<char>, nat)>, entry: (Seq<char>, nat)) -> Seq<
    (Seq<char>, nat),
>
    decreases ranking.len(),
{
    if ranking.len() == 0 {
        seq![entry]
    } else if ranking.last().1 >= entry.1 {
        ranking.push(entry)
    } else {
        ranked_with(ranking.drop_last(), entry).push(ranking.last())
    }
}

/// The entries from the most to the least often seen; entries seen equally
/// often stay in their order.
pub open spec fn by_count(tally: Seq<(Seq<char>, nat)>) -> Seq<(Seq<char>, nat)>
    decreases tally.len(),
{
    if tally.len() == 0 {
        Seq::empty()
    } else {
        ranked_with(by_count(tally.drop_last()), tally.last())
    }
}

/// The phrases of the first ten entries.
pub open spec fn top_phrases(ranking: Seq<(Seq<char>, nat)>) -> Seq<Seq<char>> {
    Seq::new(
        if ranking.len() < 10 {
            ranking.len()
        } else {
            10
        },
        |i: int| ranking[i].0,
    )
}

/// The phrases that the user likes: of the two-word phrases that were seen
/// more than twice, the ten seen most often, the most often seen first;
/// among phrases seen equally often, the one first seen goes first.
pub open spec fn common_phrases_of(messages: Seq<String>) -> Seq<Seq<char>> {
    top_phrases(by_count(frequent(tally_of(all_phrases(messages)))))
}

/// A tally as the contracts see it.
pub open spec fn tally_view(tally: Seq<PhraseCount>) -> Seq<(Seq<char>, nat)> {
    Seq::new(tally.len(), |i: int| (tally[i].phrase@, tally[i].count as nat))
}

fn collect_phrases(messages: &Vec<String>) -> (phrases: Vec<String>)
    ensures
        views(phrases@) == all_phrases(messages@),
{
    let mut phrases: Vec<String> = Vec::new();
    let mut i: usize = 0;
    assert(messages@.take(0) =~= Seq::<String>::empty());
    assert(views(phrases@) =~= Seq::<Seq<char>>::empty());
    while i < messages.len()
        invariant
            i <= messages.len(),
            views(phrases@) == all_phrases(messages@.take(i as int)),
        decreases messages.len() - i,
    {
        proof {
            assert(messages@.take(i + 1).drop_last() =~= messages@.take(i as int));
            assert(messages@.take(i + 1).last() == messages@[i as int]);
        }
        let ws = split_words(messages[i].as_str());
        let ghost start = views(phrases@);
        let ghost all = views(ws@);
        let mut k: usize = 1;
        proof {
            if all.len() >= 1 {
                assert(phrases_of(all.take(1)) =~= Seq::<Seq<char>>::empty());
            }
            assert(start + Seq::<Seq<char>>::empty() =~= start);
        }
        while k < ws.len()
            invariant
                1 <= k,
                k <= ws.len() || ws.len() == 0,
                all == views(ws@),
                ws@.len() > 0 ==> views(phrases@) == start + phrases_of(all.take(k as int)),
                ws@.len() == 0 ==> views(phrases@) == start,
            decreases ws.len() - k,
        {
            let mut joined = ws[k - 1].clone();
            joined.append(" ");
            joined.append(ws[k].as_str());
            let phrase = to_lowercase(joined.as_str());
            proof {
                let upto = all.take(k + 1);
                assert(upto.drop_last() =~= all.take(k as int));
                assert(upto[upto.len() - 2] == ws@[k - 1]@);
                assert(upto[upto.len() - 1] == ws@[k as int]@);
                assert(phrase@ == phrase_of(upto[upto.len() - 2], upto[upto.len() - 1]));
            }
            if phrase.as_str().as_bytes().len() > 5 {
                proof {
                    assert(views(phrases@.push(phrase)) =~= views(phrases@).push(phrase@));
                    assert(start + phrases_of(all.take(k as int)).push(phrase@) =~= (start
                        + phrases_of(all.take(k as int))).push(phrase@));
                }
                phrases.push(phrase);
            }
            k = k + 1;
        }
        proof {
            if ws@.len() > 0 {
                assert(all.take(k as int) =~= all);
            } else {
                assert(start + phrases_of(all) =~= start);
            }
        }
        i = i + 1;
    }
    assert(messages@.take(i as int) =~= messages@);
    phrases
}

proof fn lemma_place_found(tally: Seq<(Seq<char>, nat)>, phrase: Seq<char>, i: int)
    requires
        0 <= i < tally.len(),
        tally[i].0 == phrase,
        forall|j: int| 0 <= j < i ==> (#[trigger] tally[j]).0 != phrase,
    ensures
        place_of(tally, phrase) == Some(i),
    decreases tally.len(),
{
    let front = tally.drop_last();
    if i < tally.len() - 1 {
        assert(front[i] == tally[i]);
        assert forall|j: int| 0 <= j < i implies (#[trigger] front[j]).0 != phrase by {
            assert(front[j] == tally[j]);
        }
        lemma_place_found(front, phrase, i);
    } else {
        assert forall|j: int| 0 <= j < front.len() implies (#[trigger] front[j]).0 != phrase by {
            assert(front[j] == tally[j]);
        }
        lemma_place_missing(front, phrase);
    }
}

proof fn lemma_place_missing(tally: Seq<(Seq<char>, nat)>, phrase: Seq<char>)
    requires
        forall|j: int| 0 <= j < tally.len() ==> (#[trigger] tally[j]).0 != phrase,
    ensures
        place_of(tally, phrase) is None,
    decreases tally.len(),
{
    if tally.len() > 0 {
        let front = tally.drop_last();
        assert forall|j: int| 0 <= j < front.len() implies (#[trigger] front[j]).0 != phrase by {
            assert(front[j] == tally[j]);
        }
        lemma_place_missing(front, phrase);
        assert(tally[tally.len() - 1].0 != phrase);
    }
}

fn count_phrases(phrases: &Vec<String>) -> (tally: Vec<PhraseCount>)
    ensures
        tally_view(tally@) == tally_of(views(phrases@)),
{
    let mut tally: Vec<PhraseCount> = Vec::new();
    let mut i: usize = 0;
    assert(views(phrases@).take(0) =~= Seq::<Seq<char>>::empty());
    assert(tally_view(tally@) =~= Seq::<(Seq<char>, nat)>::empty());
    while i < phrases.len()
        invariant
            i <= phrases.len(),
            tally_view(tally@) == tally_of(views(phrases@).take(i as int)),
            forall|j: int| 0 <= j < tally@.len() ==> (#[trigger] tally@[j]).count <= i,
        decreases phrases.len() - i,
    {
        proof {
            assert(views(phrases@).take(i + 1).drop_last() =~= views(phrases@).take(i as int));
            assert(views(phrases@).take(i + 1).last() == phrases@[i as int]@);
        }
        let ghost before = tally_view(tally@);
        let ghost phrase = phrases@[i as int]@;
        let mut k: usize = 0;
        while k < tally.len() && !(tally[k].phrase == phrases[i])
            invariant
                i < phrases.len(),
                k <= tally.len(),
                before == tally_view(tally@),
                phrase == phrases@[i as int]@,
                forall|j: int| 0 <= j < k ==> (#[trigger] before[j]).0 != phrase,
            decreases tally.len() - k,
        {
            assert(before[k as int].0 == tally@[k as int].phrase@);
            k = k + 1;
        }
        if k < tally.len() {
            proof {
                assert(before[k as int].0 == tally@[k as int].phrase@);
                lemma_place_found(before, phrase, k as int);
            }
            let bumped = PhraseCount { phrase: phrases[i].clone(), count: tally[k].count + 1 };
            let ghost earlier = tally@;
            tally.set(k, bumped);
            assert(tally_view(tally@) =~= before.update(
                k as int,
                (phrase, before[k as int].1 + 1),
            ));
        } else {
            proof {
                lemma_place_missing(before, phrase);
            }
            let fresh = PhraseCount { phrase: phrases[i].clone(), count: 1 };
            tally.push(fresh);
            assert(tally_view(tally@) =~= before.push((phrase, 1)));
        }
        i = i + 1;
    }
    assert(views(phrases@).take(i as int) =~= views(phrases@));
    tally
}

proof fn lemma_ranked_with_at(ranking: Seq<(Seq<char>, nat)>, entry: (Seq<char>, nat), pos: int)
    requires
        0 <= pos <= ranking.len(),
        forall|k: int| pos <= k < ranking.len() ==> (#[trigger] ranking[k]).1 < entry.1,
        pos > 0 ==> ranking[pos - 1].1 >= entry.1,
    ensures
        ranked_with(ranking, entry) == ranking.insert(pos, entry),
    decreases ranking.len(),
{
    if ranking.len() == 0 {
        assert(ranking.insert(pos, entry) =~= seq![entry]);
    } else if pos == ranking.len() {
        assert(ranking.insert(pos, entry) =~= ranking.push(entry));
    } else {
        let front = ranking.drop_last();
        assert(ranking[ranking.len() - 1].1 < entry.1);
        assert forall|k: int| pos <= k < front.len() implies (#[trigger] front[k]).1 < entry.1 by {
            assert(front[k] == ranking[k]);
        }
        if pos > 0 {
            assert(front[pos - 1] == ranking[pos - 1]);
        }
        lemma_ranked_with_at(front, entry, pos);
        assert(front.insert(pos, entry).push(ranking.last()) =~= ranking.insert(pos, entry));
    }
}

/// The phrases that the user likes, from everything the user wrote.
pub fn common_phrases(messages: &Vec<String>) -> (common: Vec<String>)
    ensures
        views(common@) == common_phrases_of(messages@),
{
    let phrases = collect_phrases(messages);
    let tally = count_phrases(&phrases);
    let ghost counted = tally_view(tally@);
    let mut ranking: Vec<PhraseCount> = Vec::new();
    let mut i: usize = 0;
    assert(counted.take(0) =~= Seq::<(Seq<char>, nat)>::empty());
    assert(tally_view(ranking@) =~= Seq::<(Seq<char>, nat)>::empty());
    while i < tally.len()
        invariant
            i <= tally.len(),
            counted == tally_view(tally@),
            tally_view(ranking@) == by_count(frequent(counted.take(i as int))),
        decreases tally.len() - i,
    {
        proof {
            assert(counted.take(i + 1).drop_last() =~= counted.take(i as int));
            assert(counted.take(i + 1).last() == counted[i as int]);
        }
        if tally[i].count > 2 {
            let ghost chosen = frequent(counted.take(i as int));
            let ghost entry = counted[i as int];
            let ghost before = tally_view(ranking@);
            let count = tally[i].count;
            let mut pos: usize = ranking.len();
            while pos > 0 && ranking[pos - 1].count < count
                invariant
                    pos <= ranking.len(),
                    before == tally_view(ranking@),
                    count == entry.1,
                    forall|k: int| pos <= k < before.len() ==> (#[trigger] before[k]).1 < entry.1,
                decreases pos,
            {
                assert(before[pos - 1].1 == ranking@[pos - 1].count);
                pos = pos - 1;
            }
            proof {
                if pos > 0 {
                    assert(before[pos - 1].1 == ranking@[pos - 1].count);
                }
                lemma_ranked_with_at(before, entry, pos as int);
                assert(chosen.push(entry).drop_last() =~= chosen);
                assert(chosen.push(entry).last() == entry);
            }
            let copy = PhraseCount { phrase: tally[i].phrase.clone(), count };
            ranking.insert(pos, copy);
            assert(tally_view(ranking@) =~= before.insert(pos as int, entry));
        }
        i = i + 1;
    }
    assert(counted.take(i as int) =~= counted);
    let ghost ranked = tally_view(ranking@);
    let mut common: Vec<String> = Vec::new();
    let mut k: usize = 0;
    while k < ranking.len() && k < 10
        invariant
            k <= ranking.len(),
            k <= 10,
            ranked == tally_view(ranking@),
            common@.len() == k,
            forall|j: int| 0 <= j < k ==> (#[trigger] common@[j])@ == ranked[j].0,
        decreases ranking.len() - k,
    {
        common.push(ranking[k].phrase.clone());
        k = k + 1;
    }
    assert(views(common@) =~= top_phrases(ranked));
    common
}

/// The messages in lowercase, as the contracts see them.
pub open spec fn lowered_views(messages: Seq<String>) -> Seq<Seq<char>> {
    Seq::new(messages.len(), |i: int| lowercase(messages[i]@))
}

/// The words of a table, as the contracts see them.
pub open spec fn table(words: Seq<&'static str>) -> Seq<Seq<char>> {
    Seq::new(words.len(), |i: int| words[i]@)
}

/// How the user writes, in a word.
pub open spec fn style_of(formal: usize, casual: usize) -> Seq<char> {
    if formal > 2 * casual {
        "formal"@
    } else if casual > 2 * formal {
        "casual"@
    } else {
        "neutral"@
    }
}

/// The tone of the user, in a word.
pub open spec fn tone_of(positive: usize, questions: usize, messages: usize) -> Seq<char> {
    if positive > messages / 2 {
        "friendly"@
    } else if questions > messages / 2 {
        "inquisitive"@
    } else {
        "neutral"@
    }
}

/// How much the user likes pictographs, in a word.
pub open spec fn usage_of(ratio: u32) -> Seq<char> {
    if binary32::lt(ratio, ONE_TENTH) {
        "none"@
    } else if binary32::lt(ratio, ONE_HALF) {
        "minimal"@
    } else if binary32::lt(ratio, ONE) {
        "moderate"@
    } else {
        "heavy"@
    }
}

/// The profile of a user from the messages the user wrote. The mean length
/// of a message and the number of pictographs per message come as
/// single-precision bit patterns.
///
/// Without a message there is nothing to look at, and the answer is an
/// error. Else the style comes from the formal and the casual words in the
/// messages, the tone from the positive words and the questions, the
/// language from the letters, and the common phrases are stored as a JSON
/// array.
pub fn analyze_persona(messages: &Vec<String>, avg_message_length: u32, emoji_ratio: u32) -> (r:
    Result<UserPersona, String>)
    ensures
        messages@.len() == 0 ==> r is Err && r->Err_0@ == "Нет сообщений для анализа"@,
        messages@.len() > 0 ==> r is Ok && ({
            let p = r->Ok_0;
            let lower = lowered_views(messages@);
            &&& p.id == 0
            &&& p.writing_style@ == style_of(
                capped(word_hits(lower, table(FORMAL_WORDS@))),
                capped(word_hits(lower, table(CASUAL_WORDS@))),
            )
            &&& p.avg_message_length == avg_message_length
            &&& p.common_phrases@ == crate::database::json_array(common_phrases_of(messages@))
            &&& p.topics_of_interest@ == "[]"@
            &&& p.language@ == if any_cyrillic(messages@) {
                "ru"@
            } else {
                "en"@
            }
            &&& p.emoji_usage@ == usage_of(emoji_ratio)
            &&& p.tone@ == tone_of(
                capped(word_hits(lower, table(POSITIVE_WORDS@))),
                texts_with(messages@, "?"@) as usize,
                messages@.len() as usize,
            )
            &&& p.messages_analyzed == messages@.len() as i64
            &&& p.last_updated == 0
        }),
{
    if messages.len() == 0 {
        return Err(String::from_str("Нет сообщений для анализа"));
    }
    let lower = lowered(messages);
    let formal_words = word_list(&FORMAL_WORDS);
    let casual_words = word_list(&CASUAL_WORDS);
    let positive_words = word_list(&POSITIVE_WORDS);
    proof {
        assert(views(lower@) =~= lowered_views(messages@));
        assert(views(formal_words@) =~= table(FORMAL_WORDS@));
        assert(views(casual_words@) =~= table(CASUAL_WORDS@));
        assert(views(positive_words@) =~= table(POSITIVE_WORDS@));
    }
    let formal = count_word_hits(&lower, &formal_words);
    let casual = count_word_hits(&lower, &casual_words);
    let positive = count_word_hits(&lower, &positive_words);
    let questions = count_questions(messages);
    let phrases = common_phrases(messages);
    Ok(
        UserPersona {
            id: 0,
            writing_style: String::from_str(writing_style(formal, casual)),
            avg_message_length,
            common_phrases: crate::database::strings_value(&phrases),
            topics_of_interest: String::from_str("[]"),
            language: String::from_str(detect_language(messages)),
            emoji_usage: String::from_str(emoji_usage(emoji_ratio)),
            tone: String::from_str(tone(positive, questions, messages.len())),
            messages_analyzed: #[verifier::truncate]
            (messages.len() as i64),
            last_updated: 0,
        },
    )
}

} // verus!
