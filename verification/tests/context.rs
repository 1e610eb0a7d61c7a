use wishmaster::binary32;
use wishmaster::commands::HistoryMessage;
use wishmaster::context::{
    assemble, build_enriched_system_prompt, keyword_query, render_chatml, ContextSources,
    DISPLAY_FLOOR, FACTS_LIMIT, KEYWORD_LIMIT, SEARCH_FLOOR, SEARCH_LIMIT,
};
use wishmaster::database::{ExportMessage, MemoryEntry, UserPersona};
use wishmaster::embeddings::SearchResult;

const SUFFIX: &str = "\nТы помнишь ВСЕ предыдущие разговоры и используешь эту информацию. Отвечай только текстом ответа пользователю — без процентов, сходства и метаданных.\n\n";

fn nothing() -> ContextSources {
    ContextSources { memories: None, rag_results: None, keyword_matches: None, persona: None }
}

fn memory(category: &str, content: &str) -> MemoryEntry {
    MemoryEntry {
        id: 1,
        content: content.to_string(),
        category: category.to_string(),
        source_session_id: 1,
        source_message_id: 1,
        importance: 5,
        created_at: 0,
    }
}

fn result(source_type: &str, content: &str, similarity: f32) -> SearchResult {
    SearchResult {
        source_type: source_type.to_string(),
        source_id: 1,
        content: content.to_string(),
        similarity: similarity.to_bits(),
    }
}

fn message(session_id: i64, title: &str, content: &str, is_user: bool) -> ExportMessage {
    ExportMessage {
        id: 1,
        session_id,
        session_title: title.to_string(),
        content: content.to_string(),
        is_user,
        timestamp: 0,
    }
}

fn persona(style: &str, tone: &str, language: &str) -> UserPersona {
    UserPersona {
        id: 0,
        writing_style: style.to_string(),
        avg_message_length: 12.5f32.to_bits(),
        common_phrases: "[]".to_string(),
        topics_of_interest: "[]".to_string(),
        language: language.to_string(),
        emoji_usage: "none".to_string(),
        tone: tone.to_string(),
        messages_analyzed: 3,
        last_updated: 0,
    }
}

#[test]
fn test_floors_are_the_documented_numbers() {
    assert_eq!(SEARCH_FLOOR, 0.4f32.to_bits());
    assert_eq!(DISPLAY_FLOOR, 0.5f32.to_bits());
    assert_eq!((SEARCH_LIMIT, FACTS_LIMIT, KEYWORD_LIMIT), (5, 5, 3));
    assert!(binary32::less_than(SEARCH_FLOOR, DISPLAY_FLOOR));
}

#[test]
fn test_end_to_end_prompt_is_bit_exact() {
    let rendered = render_chatml("You are helpful", &Vec::new(), "Hi");
    assert_eq!(
        rendered,
        "<|im_start|>system\nYou are helpful<|im_end|>\n<|im_start|>user\nHi<|im_end|>\n<|im_start|>assistant\n"
    );
    assert_eq!(rendered, render_chatml("You are helpful", &Vec::new(), "Hi"));
}

#[test]
fn test_assembly_with_nothing_to_add() {
    let history = vec![
        HistoryMessage { content: "Привет".to_string(), is_user: true },
        HistoryMessage { content: "Здравствуйте!".to_string(), is_user: false },
    ];
    let expected_system = format!("Ты AI{}", SUFFIX);
    let expected = format!(
        "<|im_start|>system\n{}<|im_end|>\n<|im_start|>user\nПривет<|im_end|>\n<|im_start|>assistant\nЗдравствуйте!<|im_end|>\n<|im_start|>user\nКак дела?<|im_end|>\n<|im_start|>assistant\n",
        expected_system
    );
    let empty_lists = ContextSources {
        memories: Some(Vec::new()),
        rag_results: Some(Vec::new()),
        keyword_matches: Some(Vec::new()),
        persona: None,
    };
    let below_floor = ContextSources {
        memories: None,
        rag_results: Some(vec![result("memory", "x", 0.5), result("message", "y", 0.41)]),
        keyword_matches: Some(vec![message(7, "Этот чат", "z", true)]),
        persona: None,
    };
    for sources in [nothing(), empty_lists, below_floor] {
        let system = build_enriched_system_prompt("Ты AI", 7, &sources);
        assert_eq!(system.text, expected_system);
        assert!(!system.text.contains("==="));
        assert!(!system.facts && !system.semantic && !system.keyword && !system.persona);
        let assembled = assemble("Ты AI", "Как дела?", 7, &history, &sources);
        assert_eq!(assembled.text, expected);
        assert!(!assembled.facts && !assembled.semantic && !assembled.keyword && !assembled.persona);
    }
}

#[test]
fn test_all_sections_in_order() {
    let long: String = "я".repeat(250);
    let sources = ContextSources {
        memories: Some(vec![memory("name", "Пользователя зовут Алекс"), memory("skill", "Rust")]),
        rag_results: Some(vec![
            result("memory", "работает программистом", 0.85),
            result("message", "ниже порога", 0.5),
            result("document", &long, 0.72),
            result("message", "Обсуждали Rust вчера", 0.6),
            result("message", "четвёртый", 0.9),
        ]),
        keyword_matches: Some(vec![
            message(7, "Этот чат", "не показывать", true),
            message(8, "Другой чат", "вопрос", true),
            message(9, "Ещё чат", &long, false),
        ]),
        persona: Some(persona("casual", "friendly", "ru")),
    };
    let cut: String = "я".repeat(200);
    let expected = format!(
        "base{}=== ВАЖНЫЕ ФАКТЫ ИЗ ПАМЯТИ ===\n- [name] Пользователя зовут Алекс\n- [skill] Rust\n\n\
         === РЕЛЕВАНТНЫЙ КОНТЕКСТ (для справки) ===\n[Память] работает программистом\n[document] {cut}\n[Сообщение] Обсуждали Rust вчера\n\n\
         === КОНТЕКСТ ИЗ ДРУГИХ ЧАТОВ ===\n[Другой чат] Пользователь: вопрос\n[Ещё чат] Ассистент: {cut}\n\n\
         === ПРОФИЛЬ ПОЛЬЗОВАТЕЛЯ ===\nСтиль: casual, Тон: friendly, Язык: ru\n\n",
        SUFFIX
    );
    let system = build_enriched_system_prompt("base", 7, &sources);
    assert_eq!(system.text, expected);
    assert!(system.facts && system.semantic && system.keyword && system.persona);
}

#[test]
fn test_omitted_sections_do_not_shift_the_rest() {
    let only_persona = ContextSources { persona: Some(persona("formal", "neutral", "en")), ..nothing() };
    let system = build_enriched_system_prompt("base", 1, &only_persona);
    assert_eq!(
        system.text,
        format!("base{}=== ПРОФИЛЬ ПОЛЬЗОВАТЕЛЯ ===\nСтиль: formal, Тон: neutral, Язык: en\n\n", SUFFIX)
    );
    assert!(!system.facts && !system.semantic && !system.keyword && system.persona);

    let facts_and_keyword = ContextSources {
        memories: Some(vec![memory("fact", "a")]),
        keyword_matches: Some(vec![message(2, "t", "c", false)]),
        ..nothing()
    };
    let system = build_enriched_system_prompt("base", 1, &facts_and_keyword);
    assert_eq!(
        system.text,
        format!(
            "base{}=== ВАЖНЫЕ ФАКТЫ ИЗ ПАМЯТИ ===\n- [fact] a\n\n=== КОНТЕКСТ ИЗ ДРУГИХ ЧАТОВ ===\n[t] Ассистент: c\n\n",
            SUFFIX
        )
    );
    assert!(system.facts && !system.semantic && system.keyword && !system.persona);
}

fn reference_query(prompt: &str) -> Option<String> {
    let keywords: Vec<&str> =
        prompt.split_whitespace().filter(|w| w.chars().count() > 3).take(3).collect();
    if keywords.is_empty() {
        None
    } else {
        Some(keywords.join(" OR "))
    }
}

#[test]
fn test_keyword_query_values() {
    assert_eq!(keyword_query("what is the best rust crate today"), Some("what OR best OR rust".to_string()));
    assert_eq!(keyword_query("hi me"), None);
    assert_eq!(keyword_query(""), None);
    assert_eq!(keyword_query("   \n\t "), None);
    assert_eq!(keyword_query("да нет привет"), Some("привет".to_string()));
    assert_eq!(keyword_query("как дела сегодня вечером друзья мои"), Some("дела OR сегодня OR вечером".to_string()));
    assert_eq!(keyword_query("abc abcd"), Some("abcd".to_string()));
    for prompt in [
        "what is the best rust crate today",
        "  leading and   trailing  ",
        "да нет привет",
        "a\u{a0}bcde\u{3000}fghij",
        "tab\tseparated\nwords here and more",
        "x",
        "",
        "éé é ééé",
        "🎉 🎉🎉 ok",
    ] {
        assert_eq!(keyword_query(prompt), reference_query(prompt), "for {:?}", prompt);
    }
}

#[test]
fn test_lists_are_cut_at_their_limits() {
    let facts: Vec<MemoryEntry> = (0..7).map(|k| memory("fact", &format!("f{}", k))).collect();
    let hits: Vec<SearchResult> = vec![
        result("message", "h0", 0.3),
        result("message", "h1", 0.45),
        result("message", "h2", 0.9),
        result("message", "h3", 0.2),
        result("message", "h4", 0.8),
        result("message", "h5", 0.99),
        result("message", "h6", 0.99),
    ];
    let matches: Vec<ExportMessage> = vec![
        message(1, "own", "m0", true),
        message(2, "t", "m1", false),
        message(3, "t", "m2", true),
        message(4, "t", "m3", true),
        message(5, "t", "m4", false),
    ];
    let sources = ContextSources {
        memories: Some(facts),
        rag_results: Some(hits),
        keyword_matches: Some(matches),
        persona: None,
    };
    let system = build_enriched_system_prompt("b", 1, &sources);
    assert_eq!(
        system.text,
        format!(
            "b{}=== ВАЖНЫЕ ФАКТЫ ИЗ ПАМЯТИ ===\n- [fact] f0\n- [fact] f1\n- [fact] f2\n- [fact] f3\n- [fact] f4\n\n\
             === РЕЛЕВАНТНЫЙ КОНТЕКСТ (для справки) ===\n[Сообщение] h2\n[Сообщение] h4\n[Сообщение] h5\n\n\
             === КОНТЕКСТ ИЗ ДРУГИХ ЧАТОВ ===\n[t] Ассистент: m1\n[t] Пользователь: m2\n[t] Пользователь: m3\n\n",
            SUFFIX
        )
    );
}

#[test]
fn test_matches_of_other_sessions_are_found_behind_own_ones() {
    let sources = ContextSources {
        keyword_matches: Some(vec![
            message(7, "own", "a", true),
            message(7, "own", "b", false),
            message(7, "own", "c", true),
            message(8, "Другой чат", "d", true),
        ]),
        ..nothing()
    };
    let system = build_enriched_system_prompt("b", 7, &sources);
    assert!(system.keyword);
    assert_eq!(
        system.text,
        format!("b{}=== КОНТЕКСТ ИЗ ДРУГИХ ЧАТОВ ===\n[Другой чат] Пользователь: d\n\n", SUFFIX)
    );

    let own_only = ContextSources {
        keyword_matches: Some(vec![message(7, "own", "a", true), message(7, "own", "b", false)]),
        ..nothing()
    };
    let system = build_enriched_system_prompt("b", 7, &own_only);
    assert!(!system.keyword);
    assert_eq!(system.text, format!("b{}", SUFFIX));

    let scattered = ContextSources {
        keyword_matches: Some(vec![
            message(1, "t1", "a", true),
            message(7, "own", "b", false),
            message(2, "t2", "c", false),
            message(7, "own", "d", true),
            message(3, "t3", "e", true),
            message(4, "t4", "f", true),
        ]),
        ..nothing()
    };
    let system = build_enriched_system_prompt("b", 7, &scattered);
    assert_eq!(
        system.text,
        format!(
            "b{}=== КОНТЕКСТ ИЗ ДРУГИХ ЧАТОВ ===\n[t1] Пользователь: a\n[t2] Ассистент: c\n[t3] Пользователь: e\n\n",
            SUFFIX
        )
    );
}
