//! Model files on the hub: what is known of them and of a download under
//! way.

use crate::text::{append_decimal, contains, decimal_digits, find, lowercase, to_chars, to_lowercase};
use std::sync::atomic::{AtomicBool, AtomicU64, Ordering};
use std::sync::Arc;
use vstd::prelude::*;

verus! {

/// A model file in a repository.
#[derive(Debug, Clone)]
pub struct HfModelFile {
    /// such as "model-q4_k_m.gguf"
    pub filename: String,
    /// in bytes
    pub size: u64,
    /// such as "4.5 GB"
    pub size_formatted: String,
    /// The quantization named in the file name, such as "Q4_K_M".
    pub quant_type: Option<String>,
}

/// A repository worth recommending.
#[derive(Debug, Clone)]
pub struct PopularModel {
    pub repo_id: String,
    pub name: String,
    pub description: String,
    pub category: String,
    pub recommended_quant: String,
}

/// The counters of a download, shared between the one who downloads and the
/// one who watches. They are atomics of the standard library: any thread may
/// change them at any time, and no contract here speaks of what they hold.
pub struct DownloadState {
    pub downloaded: AtomicU64,
    pub total: AtomicU64,
    pub cancelled: AtomicBool,
}

impl DownloadState {
    /// Counters at zero, nothing cancelled.
    pub fn new() -> DownloadState {
        DownloadState {
            downloaded: AtomicU64::new(0),
            total: AtomicU64::new(0),
            cancelled: AtomicBool::new(false),
        }
    }
}

/// Keeps the counters of a download up to date.
pub struct ProgressTracker {
    state: Arc<DownloadState>,
}

fn widened(size: usize) -> (w: u64)
    ensures
        w == size,
{
    size as u64
}

impl ProgressTracker {
    /// A tracker that counts into `state`.
    pub fn new(state: Arc<DownloadState>) -> (tracker: ProgressTracker)
        ensures
            tracker.target() == state,
    {
        ProgressTracker { state }
    }

    /// A download of `size` bytes begins: the counters that the tracker
    /// counts into are set to nothing downloaded of `size` expected. The
    /// tracker goes on counting into the same counters.
    pub fn init(&mut self, size: usize, _filename: &str)
        ensures
            final(self).target() == old(self).target(),
    {
        self.state.total.store(widened(size), Ordering::SeqCst);
        self.state.downloaded.store(0, Ordering::SeqCst);
    }

    /// `size` more bytes arrived: they are added to what was downloaded. The
    /// tracker goes on counting into the same counters.
    pub fn update(&mut self, size: usize)
        ensures
            final(self).target() == old(self).target(),
    {
        self.state.downloaded.fetch_add(widened(size), Ordering::SeqCst);
    }

    /// The download is complete; nothing is left to count.
    pub fn finish(&mut self)
        ensures
            final(self).target() == old(self).target(),
    {
    }

    /// The counters that the tracker counts into.
    pub closed spec fn target(&self) -> Arc<DownloadState> {
        self.state
    }
}

/// The bytes downloaded so far and the bytes expected in all.
pub fn get_progress(state: &DownloadState) -> (u64, u64) {
    let downloaded = state.downloaded.load(Ordering::SeqCst);
    let total = state.total.load(Ordering::SeqCst);
    (downloaded, total)
}

/// The quantizations that a file name can tell, as they are written in file
/// names, in the order in which they are looked for.
pub const QUANT_PATTERNS: [&'static str; 26] = [
    "q2_k", "q3_k_s", "q3_k_m", "q3_k_l",
    "q4_0", "q4_1", "q4_k_s", "q4_k_m",
    "q5_0", "q5_1", "q5_k_s", "q5_k_m",
    "q6_k", "q8_0", "f16", "f32",
    "iq2_xxs", "iq2_xs", "iq2_s", "iq2_m",
    "iq3_xxs", "iq3_xs", "iq3_s", "iq3_m",
    "iq4_nl", "iq4_xs",
];

/// The quantizations as they are shown, in the same order.
pub const QUANT_NAMES: [&'static str; 26] = [
    "Q2_K", "Q3_K_S", "Q3_K_M", "Q3_K_L",
    "Q4_0", "Q4_1", "Q4_K_S", "Q4_K_M",
    "Q5_0", "Q5_1", "Q5_K_S", "Q5_K_M",
    "Q6_K", "Q8_0", "F16", "F32",
    "IQ2_XXS", "IQ2_XS", "IQ2_S", "IQ2_M",
    "IQ3_XXS", "IQ3_XS", "IQ3_S", "IQ3_M",
    "IQ4_NL", "IQ4_XS",
];

/// The place of the first quantization, from place `k` on, that occurs in a
/// file name in lowercase.
pub open spec fn quant_from(lower: Seq<char>, k: int) -> Option<int>
    decreases 26 - k,
{
    if k < 0 || k >= 26 {
        None
    } else if contains(lower, QUANT_PATTERNS[k]@) {
        Some(k)
    } else {
        quant_from(lower, k + 1)
    }
}

/// The quantization that a file name in lowercase tells: the first of the
/// known ones that occurs in it.
pub fn quant_type_of(lower: &str) -> (q: Option<String>)
    ensures
        q is Some <==> quant_from(lower@, 0) is Some,
        q is Some ==> q->Some_0@ == QUANT_NAMES[quant_from(lower@, 0)->Some_0]@,
{
    let chars = to_chars(lower);
    let mut k: usize = 0;
    while k < 26
        invariant
            k <= 26,
            chars@ == lower@,
            quant_from(lower@, 0) == quant_from(lower@, k as int),
        decreases 26 - k,
    {
        let pattern = to_chars(QUANT_PATTERNS[k]);
        if find(&chars, &pattern) {
            return Some(String::from_str(QUANT_NAMES[k]));
        }
        k = k + 1;
    }
    None
}

/// The quantization that a file name tells, whatever the case of its
/// letters.
pub fn extract_quant_type(filename: &str) -> (q: Option<String>)
    ensures
        q is Some <==> quant_from(lowercase(filename@), 0) is Some,
        q is Some ==> q->Some_0@ == QUANT_NAMES[quant_from(lowercase(filename@), 0)->Some_0]@,
{
    let lower = to_lowercase(filename);
    quant_type_of(lower.as_str())
}

/// Whether a file of a repository is a model file: its name ends in
/// `.gguf`, whatever the case of its letters.
pub fn is_gguf_file(lower_name: &str) -> (b: bool)
    ensures
        b == crate::text::has_suffix(lower_name@, ".gguf"@),
{
    crate::text::str_ends_with(lower_name, ".gguf")
}

/// The entry for a file of a repository, of which the hub tells only the
/// name.
pub fn model_file(filename: &str) -> (f: HfModelFile)
    ensures
        f.filename@ == filename@,
        f.size == 0,
        f.size_formatted@ == "—"@,
        f.quant_type is Some <==> quant_from(lowercase(filename@), 0) is Some,
        f.quant_type is Some ==> f.quant_type->Some_0@ == QUANT_NAMES[quant_from(
            lowercase(filename@),
            0,
        )->Some_0]@,
{
    HfModelFile {
        filename: String::from_str(filename),
        size: 0,
        size_formatted: String::from_str("—"),
        quant_type: extract_quant_type(filename),
    }
}

/// The bytes in a kibibyte.
pub const KB: u64 = 1024;

/// The bytes in a mebibyte.
pub const MB: u64 = 1024 * 1024;

/// The bytes in a gibibyte.
pub const GB: u64 = 1024 * 1024 * 1024;

/// The largest number below which every whole number is a double-precision
/// number.
pub const EXACT_LIMIT: u64 = 0x20_0000_0000_0000;

/// `n / d` rounded to the nearest whole number, a tie going to the even one.
pub open spec fn rounded(n: nat, d: nat) -> nat {
    let q = n / d;
    let r = n % d;
    if 2 * r > d || (2 * r == d && q % 2 == 1) {
        q + 1
    } else {
        q
    }
}

/// The power of two in steps of which numbers of the size of `bytes` are
/// double-precision numbers.
pub open spec fn spacing(bytes: nat) -> nat
    decreases bytes,
{
    if bytes < EXACT_LIMIT {
        1
    } else {
        2 * spacing(bytes / 2)
    }
}

/// The double-precision number nearest to `bytes`.
pub open spec fn nearest_double(bytes: nat) -> nat {
    rounded(bytes, spacing(bytes)) * spacing(bytes)
}

/// Two decimal digits.
pub open spec fn two_digits(n: nat) -> Seq<char> {
    seq![crate::text::decimal_digit(n / 10), crate::text::decimal_digit(n % 10)]
}

/// A size in words: in GB with two decimals from a gibibyte on, in MB with
/// one from a mebibyte on, in whole KB from a kibibyte on, in bytes below;
/// rounded to the nearest value that can be shown, a tie going to the even
/// one. From a gibibyte on, the size is taken as a double-precision number
/// first.
pub open spec fn size_text(bytes: u64) -> Seq<char> {
    if bytes >= GB {
        let h = rounded(nearest_double(bytes as nat) * 100, GB as nat);
        decimal_digits(h / 100) + "."@ + two_digits(h % 100) + " GB"@
    } else if bytes >= MB {
        let t = rounded(bytes as nat * 10, MB as nat);
        decimal_digits(t / 10) + "."@ + seq![crate::text::decimal_digit(t % 10)] + " MB"@
    } else if bytes >= KB {
        decimal_digits(rounded(bytes as nat, KB as nat)) + " KB"@
    } else {
        decimal_digits(bytes as nat) + " B"@
    }
}

fn round_div(n: u128, d: u128) -> (q: u128)
    requires
        d > 0,
        n / d < u128::MAX,
    ensures
        q == rounded(n as nat, d as nat),
{
    let q = n / d;
    let r = n % d;
    if r > d - r || (r == d - r && q % 2 == 1) {
        q + 1
    } else {
        q
    }
}

fn to_nearest_double(bytes: u64) -> (m: u128)
    ensures
        m == nearest_double(bytes as nat),
        m <= 0x2_0000_0000_0000_0000,
{
    let mut unit: u128 = 1;
    let mut scaled: u64 = bytes;
    assert(unit * scaled == bytes) by (nonlinear_arith)
        requires
            unit == 1,
            scaled == bytes,
    ;
    assert(spacing(bytes as nat) == unit * spacing(scaled as nat)) by (nonlinear_arith)
        requires
            unit == 1,
            scaled == bytes,
    ;
    while scaled >= EXACT_LIMIT
        invariant
            1 <= unit <= 0x1000,
            unit * scaled <= bytes,
            unit == 1 || scaled >= 0x10_0000_0000_0000,
            spacing(bytes as nat) == unit * spacing(scaled as nat),
        decreases scaled,
    {
        let ghost half = scaled / 2;
        assert(unit * 2 * half <= unit * scaled) by (nonlinear_arith)
            requires
                unit >= 1,
                2 * half <= scaled,
                half >= 0,
        ;
        assert(unit * 2 <= 0x1000) by (nonlinear_arith)
            requires
                unit >= 1,
                unit * scaled <= bytes,
                scaled >= 0x20_0000_0000_0000,
                bytes < 0x1_0000_0000_0000_0000,
        ;
        assert(spacing(scaled as nat) == 2 * spacing(half as nat));
        assert(unit * spacing(scaled as nat) == (unit * 2) * spacing(half as nat))
            by (nonlinear_arith)
            requires
                spacing(scaled as nat) == 2 * spacing(half as nat),
        ;
        unit = unit * 2;
        scaled = scaled / 2;
    }
    assert(spacing(scaled as nat) == 1);
    assert(spacing(bytes as nat) == unit) by (nonlinear_arith)
        requires
            spacing(bytes as nat) == unit * spacing(scaled as nat),
            spacing(scaled as nat) == 1,
    ;
    let b: u128 = bytes as u128;
    let q = round_div(b, unit);
    assert(q * unit <= b + unit) by (nonlinear_arith)
        requires
            q <= b / unit + 1,
            unit > 0,
            b >= 0,
    ;
    q * unit
}

/// A size in words, such as "4.00 GB", "5.0 MB", "2 KB" or "500 B".
pub fn format_size(bytes: u64) -> (s: String)
    ensures
        s@ == size_text(bytes),
{
    let mut s = String::new();
    if bytes >= GB {
        let m = to_nearest_double(bytes);
        let h = round_div(m * 100, GB as u128);
        append_decimal(&mut s, (h / 100) as u64);
        s.append(".");
        append_decimal(&mut s, ((h % 100) / 10) as u64);
        append_decimal(&mut s, (h % 10) as u64);
        s.append(" GB");
        assert(s@ =~= size_text(bytes));
    } else if bytes >= MB {
        let t = round_div((bytes as u128) * 10, MB as u128);
        append_decimal(&mut s, (t / 10) as u64);
        s.append(".");
        append_decimal(&mut s, (t % 10) as u64);
        s.append(" MB");
        assert(s@ =~= size_text(bytes));
    } else if bytes >= KB {
        let k = round_div(bytes as u128, KB as u128);
        append_decimal(&mut s, k as u64);
        s.append(" KB");
        assert(s@ =~= size_text(bytes));
    } else {
        append_decimal(&mut s, bytes);
        s.append(" B");
        assert(s@ =~= size_text(bytes));
    }
    s
}

/// What is recommended: repository, name, description and category of each
/// model, in the order in which they are shown.
pub const POPULAR_MODELS: [[&'static str; 4]; 15] = [
    [
        "pomelk1n/RuadaptQwen2.5-32B-instruct-4-bit-AWQ-GGUF",
        "RuadaptQwen 32B AWQ",
        "🇷🇺 Адаптирован для русского, AWQ→GGUF 4bit",
        "awq",
    ],
    [
        "straino/Qwen3-Coder-30B-A3B-Instruct-AWQ-4bit-Q4_K_M-GGUF",
        "Qwen3 Coder 30B AWQ",
        "💻 MoE кодер AWQ→GGUF, отличный для кода",
        "awq",
    ],
    [
        "NexaAI/Octopus-v2-gguf-awq",
        "Octopus v2 AWQ",
        "📱 Компактная Gemma-2B AWQ для мобильных",
        "awq",
    ],
    [
        "Qwen/Qwen2.5-7B-Instruct-GGUF",
        "Qwen 2.5 7B Instruct",
        "Лучший для русского языка, 128K контекст",
        "multilingual",
    ],
    [
        "Qwen/Qwen2.5-3B-Instruct-GGUF",
        "Qwen 2.5 3B Instruct",
        "Компактная версия для слабых GPU",
        "multilingual",
    ],
    [
        "Qwen/Qwen2.5-14B-Instruct-GGUF",
        "Qwen 2.5 14B Instruct",
        "Мощная версия, нужно 12+ GB VRAM",
        "multilingual",
    ],
    [
        "Qwen/Qwen2.5-Coder-7B-Instruct-GGUF",
        "Qwen 2.5 Coder 7B",
        "Специализированная для кода",
        "code",
    ],
    [
        "Qwen/Qwen2.5-Coder-14B-Instruct-GGUF",
        "Qwen 2.5 Coder 14B",
        "Мощный кодер, нужно 10+ GB VRAM",
        "code",
    ],
    [
        "bartowski/DeepSeek-Coder-V2-Lite-Instruct-GGUF",
        "DeepSeek Coder V2 Lite",
        "Отличная для программирования",
        "code",
    ],
    [
        "Qwen/Qwen2.5-1.5B-Instruct-GGUF",
        "Qwen 2.5 1.5B Instruct",
        "Ультра-компактная, работает везде",
        "compact",
    ],
    [
        "Qwen/Qwen2.5-Coder-1.5B-Instruct-GGUF",
        "Qwen 2.5 Coder 1.5B",
        "Мини-кодер, быстрый и лёгкий",
        "compact",
    ],
    ["microsoft/Phi-4-mini-instruct-gguf", "Phi-4 Mini", "Компактная от Microsoft", "compact"],
    [
        "bartowski/Meta-Llama-3.1-8B-Instruct-GGUF",
        "Llama 3.1 8B Instruct",
        "128K контекст от Meta",
        "general",
    ],
    [
        "bartowski/Mistral-Nemo-Instruct-2407-GGUF",
        "Mistral Nemo 12B",
        "Отличный баланс качества и скорости",
        "general",
    ],
    [
        "bartowski/Qwen_Qwen3-4B-Instruct-2507-GGUF",
        "Qwen3 4B Instruct",
        "Новейшая Qwen3, отличное качество",
        "general",
    ],
];

/// The entry is the `k`th recommendation.
pub open spec fn is_recommendation(m: PopularModel, k: int) -> bool {
    &&& m.repo_id@ == POPULAR_MODELS[k][0]@
    &&& m.name@ == POPULAR_MODELS[k][1]@
    &&& m.description@ == POPULAR_MODELS[k][2]@
    &&& m.category@ == POPULAR_MODELS[k][3]@
    &&& m.recommended_quant@ == "Q4_K_M"@
}

/// The recommended repositories, every one with the quantization Q4_K_M.
pub fn get_popular_models() -> (models: Vec<PopularModel>)
    ensures
        models@.len() == 15,
        forall|k: int| 0 <= k < 15 ==> is_recommendation(#[trigger] models@[k], k),
{
    let mut models: Vec<PopularModel> = Vec::new();
    let mut k: usize = 0;
    while k < 15
        invariant
            k <= 15,
            models@.len() == k,
            forall|j: int| 0 <= j < k ==> is_recommendation(#[trigger] models@[j], j),
        decreases 15 - k,
    {
        let row = POPULAR_MODELS[k];
        models.push(
            PopularModel {
                repo_id: String::from_str(row[0]),
                name: String::from_str(row[1]),
                description: String::from_str(row[2]),
                category: String::from_str(row[3]),
                recommended_quant: String::from_str("Q4_K_M"),
            },
        );
        k = k + 1;
    }
    models
}

} // verus!
