use wishmaster::commands::{
    add_model_path, base_system_prompt, default_llm_backend, default_system_prompt, emoji_usage,
    is_awq_model, is_awq_name, is_comparison_task_text, is_similarity_comparison_prompt,
    model_name, remove_model_path, suggest_gguf_alternative, tone, writing_style, GpuInfo, Model,
    PythonStatus, Session, VoiceProfile, VoiceRecording, DEFAULT_TEMPERATURE, ONE, ONE_HALF,
    ONE_TENTH,
};

fn reference_comparison(s: &str) -> bool {
    let t = s.trim();
    if t.is_empty() {
        return false;
    }
    let lower = t.to_lowercase();
    t.contains("сходство") && (t.contains("сравни") || t.contains("процент") || t.contains('%'))
        || t.contains("сравни два сообщения")
        || (lower.contains("similarity") && (lower.contains("compare") || t.contains('%')))
}

#[test]
fn test_comparison_prompts_are_recognised() {
    let prompts = [
        "",
        "   ",
        "Ты — помощник.",
        "Оцени сходство и сравни",
        "сходство в процентах",
        "сходство 100%",
        "сходство",
        "сравни два сообщения",
        "Сравни два сообщения",
        "Compute the SIMILARITY and Compare",
        "similarity: 50%",
        "similarity",
        "compare",
        "  Similarity, COMPARE  ",
        "100%",
    ];
    for p in prompts {
        assert_eq!(is_similarity_comparison_prompt(p), reference_comparison(p), "for {:?}", p);
    }
    assert!(is_similarity_comparison_prompt("сходство 100%"));
    assert!(!is_similarity_comparison_prompt("сходство"));
    assert!(is_comparison_task_text("x %", "similarity"));
    assert!(!is_comparison_task_text("similarity compare", "x"));
    assert_eq!(base_system_prompt("сходство 100%"), default_system_prompt());
    assert_eq!(base_system_prompt("Ты — помощник."), "Ты — помощник.");
    assert_eq!(base_system_prompt(""), "");
    assert_eq!(default_llm_backend(), "native");
    assert_eq!(DEFAULT_TEMPERATURE, 0.7f32.to_bits());
    assert_eq!(
        default_system_prompt(),
        "Ты — Wishmaster, умный диалоговый AI-ассистент с долговременной памятью. \
         Отвечай кратко и по делу на русском языке. \
         Отвечай только содержательным текстом, без процентов, формул сходства и служебных меток."
    );
}

#[test]
fn test_model_paths_are_kept_in_order() {
    let mut paths: Vec<String> = Vec::new();
    assert!(add_model_path(&mut paths, "  /a.gguf \n"));
    assert!(add_model_path(&mut paths, "/b.gguf"));
    assert!(!add_model_path(&mut paths, "/a.gguf"));
    assert!(!add_model_path(&mut paths, ""));
    assert!(add_model_path(&mut paths, "/A.gguf"));
    assert!(!add_model_path(&mut paths, "/b.gguf "));
    assert_eq!(paths, vec!["/a.gguf".to_string(), "/b.gguf".to_string(), "/A.gguf".to_string()]);
    paths.push("/a.gguf".to_string());
    remove_model_path(&mut paths, "/a.gguf");
    assert_eq!(paths, vec!["/b.gguf".to_string(), "/A.gguf".to_string()]);
    remove_model_path(&mut paths, "/missing");
    assert_eq!(paths.len(), 2);
}

fn reference_name(path: &str) -> String {
    path.split('/').last().unwrap_or(path).replace(".gguf", "")
}

#[test]
fn test_model_names() {
    for path in [
        "/home/user/models/qwen2.5-7b-instruct-q4_k_m.gguf",
        "model.gguf",
        "",
        "/",
        "dir/",
        "a/b.gguf/c.gguf.gguf",
        "no-extension",
        "x.gguf.bak",
    ] {
        assert_eq!(model_name(path), reference_name(path), "for {:?}", path);
    }
}

fn reference_alternative(repo_id: &str) -> Option<String> {
    let parts: Vec<&str> = repo_id.split('/').collect();
    if parts.len() != 2 {
        return None;
    }
    let model_name = parts[1];
    let suggestions = [
        model_name.replace("-AWQ", "-GGUF"),
        model_name.replace("-awq", "-GGUF"),
        format!("{}-GGUF", model_name.replace("-AWQ", "").replace("-awq", "")),
    ];
    for suggested in suggestions {
        if suggested != model_name && suggested.contains("GGUF") {
            return Some(suggested);
        }
    }
    None
}

#[test]
fn test_gguf_alternatives() {
    assert_eq!(suggest_gguf_alternative("TheBloke/Llama-2-7B-AWQ"), Some("Llama-2-7B-GGUF".to_string()));
    assert_eq!(suggest_gguf_alternative("org/model-awq"), Some("model-GGUF".to_string()));
    assert_eq!(suggest_gguf_alternative("org/model"), Some("model-GGUF".to_string()));
    assert_eq!(suggest_gguf_alternative("model-AWQ"), None);
    assert_eq!(suggest_gguf_alternative("a/b/c"), None);
    for repo in [
        "TheBloke/Llama-2-7B-AWQ",
        "org/model-awq",
        "org/model",
        "org/",
        "/",
        "",
        "a/b/c",
        "org/x-AWQ-awq-AWQ",
        "org/GGUF",
        "org/-GGUF",
        "o/-AWQ",
    ] {
        assert_eq!(suggest_gguf_alternative(repo), reference_alternative(repo), "for {:?}", repo);
    }
    assert!(is_awq_model("TheBloke/Llama-2-7B-AWQ"));
    assert!(is_awq_model("org/model-awq"));
    assert!(!is_awq_model("org/model-AWQ-GGUF"));
    assert!(!is_awq_model("org/model"));
    assert!(is_awq_name("awq"));
    assert!(!is_awq_name("AWQ"));
}

#[test]
fn test_persona_classes() {
    assert_eq!(ONE_TENTH, 0.1f32.to_bits());
    assert_eq!(ONE_HALF, 0.5f32.to_bits());
    assert_eq!(ONE, 1.0f32.to_bits());
    for (count, messages) in [(0usize, 3usize), (1, 10), (1, 11), (1, 9), (1, 2), (1, 3), (2, 2), (5, 2), (0, 0), (3, 7)] {
        let ratio = count as f32 / messages as f32;
        let expected = if ratio < 0.1 {
            "none"
        } else if ratio < 0.5 {
            "minimal"
        } else if ratio < 1.0 {
            "moderate"
        } else {
            "heavy"
        };
        assert_eq!(emoji_usage(ratio.to_bits()), expected, "for {}/{}", count, messages);
    }
    assert_eq!(emoji_usage(f32::NAN.to_bits()), "heavy");
    assert_eq!(writing_style(3, 1), "formal");
    assert_eq!(writing_style(2, 1), "neutral");
    assert_eq!(writing_style(1, 3), "casual");
    assert_eq!(writing_style(0, 0), "neutral");
    assert_eq!(writing_style(usize::MAX, usize::MAX), "neutral");
    assert_eq!(writing_style(usize::MAX, 1), "formal");
    assert_eq!(tone(2, 0, 3), "friendly");
    assert_eq!(tone(1, 2, 3), "inquisitive");
    assert_eq!(tone(1, 1, 3), "neutral");
    assert_eq!(tone(0, 0, 0), "neutral");
    assert_eq!(tone(1, 1, 1), "friendly");
}

#[test]
fn test_plain_records() {
    let info = GpuInfo {
        available: false,
        backend: "CPU".to_string(),
        device_name: String::new(),
        vram_total_mb: 0,
        vram_free_mb: 0,
    };
    assert!(!info.available);
    let session = Session { id: 1, title: "Новый чат".to_string(), created_at: 5, message_count: 0 };
    assert_eq!(session.clone().title, "Новый чат");
    let model = Model { name: "m".to_string(), path: "/m.gguf".to_string(), size: 1, is_loaded: false };
    assert_eq!(model.path, "/m.gguf");
    let profile = VoiceProfile { id: 1, name: "v".to_string(), audio_path: "/v.webm".to_string(), created_at: 2 };
    assert_eq!(profile.audio_path, "/v.webm");
    let recording = VoiceRecording { id: 1, path: "/r.webm".to_string(), created_at: 3 };
    assert_eq!(recording.created_at, 3);
    let status = PythonStatus {
        python_version: Some("3.11".to_string()),
        python_ok: true,
        dependencies: std::collections::HashMap::new(),
        all_installed: false,
        cuda_available: false,
        cuda_device: None,
    };
    assert!(status.python_ok && status.dependencies.is_empty());
}

#[test]
fn test_settings_are_read_key_by_key() {
    use_settings();
}

fn use_settings() {
    let mut settings = wishmaster::commands::Settings::default();
    let apply = wishmaster::database::apply_setting;
    apply(&mut settings, "temperature", "0.9", Some(0.9f32.to_bits()));
    assert_eq!(settings.temperature, 0.9f32.to_bits());
    apply(&mut settings, "temperature", "warm", None);
    assert_eq!(settings.temperature, 0.7f32.to_bits());
    apply(&mut settings, "maxTokens", "1024", None);
    assert_eq!(settings.max_tokens, 1024);
    apply(&mut settings, "maxTokens", "many", None);
    assert_eq!(settings.max_tokens, 512);
    apply(&mut settings, "contextLength", "4096", None);
    assert_eq!(settings.context_length, 4096);
    apply(&mut settings, "contextLength", "", None);
    assert_eq!(settings.context_length, 2048);
    apply(&mut settings, "theme", "light", None);
    apply(&mut settings, "accentColor", "magenta", None);
    assert_eq!((settings.theme.as_str(), settings.accent_color.as_str()), ("light", "magenta"));
    apply(&mut settings, "autoSpeak", "true", None);
    apply(&mut settings, "sttEnabled", "false", None);
    apply(&mut settings, "ttsEnabled", "TRUE", None);
    assert!(settings.auto_speak && !settings.stt_enabled && !settings.tts_enabled);
    apply(&mut settings, "modelPaths", "[\"/a.gguf\",\"/b \\\"q\\\".gguf\"]", None);
    assert_eq!(settings.model_paths, vec!["/a.gguf".to_string(), "/b \"q\".gguf".to_string()]);
    apply(&mut settings, "modelPaths", "not json", None);
    assert!(settings.model_paths.is_empty());
    apply(&mut settings, "modelPaths", "[1,2]", None);
    assert!(settings.model_paths.is_empty());
    let before = settings.clone();
    apply(&mut settings, "systemPrompt", "x", Some(1));
    apply(&mut settings, "llmBackend", "x", Some(1));
    apply(&mut settings, "", "x", Some(1));
    assert_eq!(format!("{:?}", settings), format!("{:?}", before));
}

#[test]
fn test_settings_are_written_as_pairs() {
    let mut settings = wishmaster::commands::Settings::default();
    settings.model_paths = vec!["/a.gguf".to_string(), "/b \"q\".gguf".to_string()];
    settings.max_tokens = -5;
    let pairs = wishmaster::database::save_settings(&settings, "0.7");
    let seen: Vec<(&str, &str)> = pairs.iter().map(|(k, v)| (k.as_str(), v.as_str())).collect();
    assert_eq!(
        seen,
        vec![
            ("temperature", "0.7"),
            ("maxTokens", "-5"),
            ("contextLength", "2048"),
            ("theme", "dark"),
            ("accentColor", "cyan"),
            ("autoSpeak", "false"),
            ("sttEnabled", "true"),
            ("ttsEnabled", "true"),
            ("modelPaths", "[\"/a.gguf\",\"/b \\\"q\\\".gguf\"]"),
        ]
    );
    assert_eq!(wishmaster::database::strings_value(&Vec::new()), "[]");
    assert_eq!(
        wishmaster::database::strings_of("[\"x\"]"),
        vec!["x".to_string()]
    );
    assert_eq!(wishmaster::database::array_or_empty(None), "[]");
    assert_eq!(wishmaster::database::array_or_empty(Some("[1]".to_string())), "[1]");
    assert!(wishmaster::database::paths_or_none(None).is_empty());
    assert_eq!(wishmaster::database::number_or("12", 5), 12);
    assert_eq!(wishmaster::database::number_or("x", 5), 5);
}

#[test]
fn test_integers_are_read_as_std_reads_them() {
    for text in [
        "0", "-0", "+0", "7", "+7", "-7", "007", "2147483647", "2147483648", "-2147483648",
        "-2147483649", "99999999999999999999", "-99999999999999999999", "", "+", "-", "--1", "+-1",
        "1 ", " 1", "1.0", "1e3", "0x10", "١٢", "12a", "a12", "1_000", "+2147483647", "000000000000000000000012",
    ] {
        assert_eq!(wishmaster::text::parse_i32(text), text.parse::<i32>().ok(), "for {:?}", text);
    }
}

#[test]
fn test_exports_are_named_and_counted() {
    use_exports();
}

fn use_exports() {
    let (alpaca, sharegpt, full) = (
        wishmaster::database::ExportFormat::Alpaca,
        wishmaster::database::ExportFormat::ShareGpt,
        wishmaster::database::ExportFormat::Full,
    );
    assert_eq!(wishmaster::database::export_format("alpaca"), alpaca);
    assert_eq!(wishmaster::database::export_format("sharegpt"), sharegpt);
    assert_eq!(wishmaster::database::export_format("full"), full);
    assert_eq!(wishmaster::database::export_format("Alpaca"), full);
    assert_eq!(wishmaster::database::export_format(""), full);
    assert_eq!(wishmaster::database::export_file_name(alpaca, 1700000000), "alpaca_1700000000.jsonl");
    assert_eq!(wishmaster::database::export_file_name(sharegpt, 0), "sharegpt_0.json");
    assert_eq!(wishmaster::database::export_file_name(full, 42), "full_export_42.json");
    assert_eq!(wishmaster::database::sharegpt_role(true), "human");
    assert_eq!(wishmaster::database::sharegpt_role(false), "gpt");
    assert_eq!(wishmaster::database::sharegpt_id(17), "session_17");
    assert_eq!(wishmaster::database::sharegpt_id(-3), "session_-3");
    let stats = wishmaster::database::get_data_stats(2, 10, 6, 3, 1003);
    assert_eq!(stats.assistant_messages, 4);
    assert_eq!(stats.estimated_tokens, 250);
    assert_eq!(
        (stats.total_sessions, stats.total_messages, stats.user_messages, stats.total_memories, stats.total_characters),
        (2, 10, 6, 3, 1003)
    );
    assert_eq!(wishmaster::database::get_data_stats(0, 0, 0, 0, -7).estimated_tokens, -1);
    let index_stats = wishmaster::embeddings::get_embedding_stats(
        3,
        vec![("memory".to_string(), 1), ("message".to_string(), 2)],
    );
    assert_eq!(index_stats.total_embeddings, 3);
    assert_eq!(index_stats.by_type.len(), 2);
    assert_eq!(index_stats.embedding_dimension, 384);
    assert_eq!(index_stats.model, "multilingual-e5-small");
}

#[test]
fn test_persona_counts() {
    let messages = vec![
        "Привет! How are you?".to_string(),
        "Thank You, это круто".to_string(),
        "ok".to_string(),
        "".to_string(),
    ];
    let lower = wishmaster::commands::lowered(&messages);
    let expected: Vec<String> = messages.iter().map(|m| m.to_lowercase()).collect();
    assert_eq!(lower, expected);
    let count = |words: &[&'static str]| {
        wishmaster::commands::count_word_hits(&lower, &wishmaster::commands::word_list(words))
    };
    let reference = |words: &[&str]| -> usize {
        messages.iter().map(|m| words.iter().filter(|w| m.to_lowercase().contains(*w)).count()).sum()
    };
    let formal = wishmaster::commands::FORMAL_WORDS;
    let casual = wishmaster::commands::CASUAL_WORDS;
    let positive = wishmaster::commands::POSITIVE_WORDS;
    assert_eq!(count(&formal), reference(&formal));
    assert_eq!(count(&casual), reference(&casual));
    assert_eq!(count(&positive), reference(&positive));
    assert_eq!(count(&formal), 1);
    assert_eq!(count(&casual), 2);
    assert_eq!(count(&positive), 1);
    assert_eq!(wishmaster::commands::count_questions(&messages), 1);
    assert_eq!(
        wishmaster::commands::total_length(&messages),
        messages.iter().map(|m| m.len()).sum::<usize>()
    );
    assert_eq!(wishmaster::commands::total_length(&Vec::new()), 0);
    assert_eq!(formal.len() + casual.len() + positive.len(), 21);
}

fn reference_counts(messages: &[String]) -> std::collections::HashMap<String, usize> {
    let mut phrase_counts: std::collections::HashMap<String, usize> = std::collections::HashMap::new();
    for msg in messages {
        let words: Vec<&str> = msg.split_whitespace().collect();
        for window in words.windows(2) {
            let phrase = window.join(" ").to_lowercase();
            if phrase.len() > 5 {
                *phrase_counts.entry(phrase).or_insert(0) += 1;
            }
        }
    }
    phrase_counts
}

#[test]
fn test_common_phrases_are_ranked() {
    let messages: Vec<String> = [
        "Good morning friend",
        "good morning friend",
        "GOOD MORNING again",
        "so, good   morning",
        "hello there",
        "Hello There",
        "hello there",
        "a b",
        "a b",
        "a b",
        "да нет",
        "да нет",
        "Да Нет",
    ]
    .iter()
    .map(|s| s.to_string())
    .collect();
    let common = wishmaster::commands::common_phrases(&messages);
    assert_eq!(common, vec!["good morning", "hello there", "да нет"]);

    let counts = reference_counts(&messages);
    let mut expected: Vec<(String, usize)> = counts.into_iter().filter(|(_, c)| *c > 2).collect();
    expected.sort_by(|a, b| b.1.cmp(&a.1).then(a.0.cmp(&b.0)));
    let mut got = common.clone();
    got.sort();
    let mut names: Vec<String> = expected.iter().map(|(p, _)| p.clone()).collect();
    names.sort();
    assert_eq!(got, names);
    assert!(wishmaster::commands::common_phrases(&Vec::new()).is_empty());
    assert!(wishmaster::commands::common_phrases(&vec!["one".to_string()]).is_empty());
}

#[test]
fn test_common_phrases_keep_ten_and_first_seen_order() {
    let mut messages: Vec<String> = Vec::new();
    for round in 0..3 {
        for k in 0..12 {
            messages.push(format!("phrase number{}", k));
            if round == 2 && k == 7 {
                messages.push("phrase number7".to_string());
            }
        }
    }
    messages.push("later phrase".to_string());
    messages.push("later phrase".to_string());
    messages.push("later phrase".to_string());
    messages.push("later phrase".to_string());
    messages.push("later phrase".to_string());
    let common = wishmaster::commands::common_phrases(&messages);
    assert_eq!(
        common,
        vec![
            "later phrase",
            "phrase number7",
            "phrase number0",
            "phrase number1",
            "phrase number2",
            "phrase number3",
            "phrase number4",
            "phrase number5",
            "phrase number6",
            "phrase number8",
        ]
    );
}

#[test]
fn test_persona_is_analyzed() {
    match wishmaster::commands::analyze_persona(&Vec::new(), 0, 0) {
        Err(m) => assert_eq!(m, "Нет сообщений для анализа"),
        Ok(_) => panic!("nothing to analyze"),
    }
    let messages: Vec<String> = [
        "Привет! Это круто, спасибо 🎉",
        "hey, that is cool?",
        "ок, отлично",
        "good morning to you",
        "Good Morning to all",
        "good morning again",
    ]
    .iter()
    .map(|s| s.to_string())
    .collect();
    let avg = wishmaster::commands::total_length(&messages) as f32 / messages.len() as f32;
    let ratio = wishmaster::commands::count_emoji(&messages) as f32 / messages.len() as f32;
    let persona =
        wishmaster::commands::analyze_persona(&messages, avg.to_bits(), ratio.to_bits()).unwrap();
    assert_eq!(persona.id, 0);
    assert_eq!(persona.writing_style, "casual");
    assert_eq!(f32::from_bits(persona.avg_message_length), avg);
    assert_eq!(persona.common_phrases, "[\"good morning\"]");
    assert_eq!(persona.topics_of_interest, "[]");
    assert_eq!(persona.language, "ru");
    assert_eq!(persona.emoji_usage, "minimal");
    assert_eq!(persona.tone, "friendly");
    assert_eq!(persona.messages_analyzed, 6);
    assert_eq!(persona.last_updated, 0);

    let english = vec!["Please send regards".to_string(), "thank you, please?".to_string()];
    let persona = wishmaster::commands::analyze_persona(&english, 1.0f32.to_bits(), 0).unwrap();
    assert_eq!(persona.writing_style, "formal");
    assert_eq!(persona.language, "en");
    assert_eq!(persona.emoji_usage, "none");
    assert_eq!(persona.tone, "neutral");
    assert_eq!(persona.common_phrases, "[]");
}
