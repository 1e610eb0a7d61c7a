use wishmaster::ollama::{
    chat_url, chunk_action, default_base_url, endpoint_url, tags_url, take_line, with_system,
    ChunkAction, OllamaMessage, DEFAULT_BASE_URL,
};
use wishmaster::openai_compat::{
    build_content, completions_url, event_payload, image_mime, is_done_marker, take_event,
    ContentPart, MessageContent, OpenAiMessage,
};

#[test]
fn test_ollama_messages() {
    let m = OllamaMessage::text("user", "Привет");
    assert_eq!((m.role.as_str(), m.content.as_str()), ("user", "Привет"));
    assert!(m.images.is_empty());
    let m = OllamaMessage::with_images("user", "look", vec!["aGk=".to_string()]);
    assert_eq!((m.role.as_str(), m.content.as_str()), ("user", "look"));
    assert_eq!(m.images, vec!["aGk=".to_string()]);
    assert_eq!(default_base_url(), "http://localhost:11434");
    assert_eq!(DEFAULT_BASE_URL, "http://localhost:11434");
}

#[test]
fn test_openai_messages() {
    let m = OpenAiMessage::text("assistant", "ok");
    assert_eq!((m.role.as_str(), m.content.as_str()), ("assistant", "ok"));
    assert!(m.images.is_empty());
    let m = OpenAiMessage::with_images("user", "", vec!["a".to_string(), "b".to_string()]);
    assert_eq!(m.images.len(), 2);
    assert_eq!(m.content, "");
}

#[test]
fn test_endpoint_addresses() {
    assert_eq!(chat_url("http://localhost:11434"), "http://localhost:11434/api/chat");
    assert_eq!(chat_url("http://localhost:11434///"), "http://localhost:11434/api/chat");
    assert_eq!(tags_url("http://h/"), "http://h/api/tags");
    assert_eq!(completions_url("http://127.0.0.1:8080/"), "http://127.0.0.1:8080/v1/chat/completions");
    assert_eq!(endpoint_url("", "/x"), "/x");
    assert_eq!(endpoint_url("///", "/x"), "/x");
}

#[test]
fn test_system_message_goes_first() {
    let chat = vec![OllamaMessage::text("user", "a"), OllamaMessage::text("assistant", "b")];
    let same = with_system(chat.clone(), None);
    assert_eq!(same.len(), 2);
    assert_eq!(same[0].content, "a");
    let all = with_system(chat, Some("be brief"));
    let seen: Vec<(&str, &str)> = all.iter().map(|m| (m.role.as_str(), m.content.as_str())).collect();
    assert_eq!(seen, vec![("system", "be brief"), ("user", "a"), ("assistant", "b")]);
}

#[test]
fn test_lines_are_taken_one_by_one() {
    let mut buf = b"{\"a\":1}\n\n{\"b\":2}\npartial".to_vec();
    assert_eq!(take_line(&mut buf), Some(b"{\"a\":1}".to_vec()));
    assert_eq!(take_line(&mut buf), Some(Vec::new()));
    assert_eq!(take_line(&mut buf), Some(b"{\"b\":2}".to_vec()));
    assert_eq!(take_line(&mut buf), None);
    assert_eq!(buf, b"partial".to_vec());
    buf.extend_from_slice(b" line\n");
    assert_eq!(take_line(&mut buf), Some(b"partial line".to_vec()));
    assert!(buf.is_empty());
    assert_eq!(take_line(&mut buf), None);
}

#[test]
fn test_events_are_taken_one_by_one() {
    let mut buf = b"data: 1\n\ndata: 2\nmore\n\n\n\ntail\n".to_vec();
    assert_eq!(take_event(&mut buf), Some(b"data: 1".to_vec()));
    assert_eq!(take_event(&mut buf), Some(b"data: 2\nmore".to_vec()));
    assert_eq!(take_event(&mut buf), Some(Vec::new()));
    assert_eq!(take_event(&mut buf), None);
    assert_eq!(buf, b"tail\n".to_vec());
    buf.push(b'\n');
    assert_eq!(take_event(&mut buf), Some(b"tail".to_vec()));
    assert!(buf.is_empty());
    let mut one = b"\n".to_vec();
    assert_eq!(take_event(&mut one), None);
    assert_eq!(one, b"\n".to_vec());
}

#[test]
fn test_chunk_actions() {
    match chunk_action(Some("hi".to_string()), None) {
        ChunkAction::Emit { content, then_done } => {
            assert_eq!(content, "hi");
            assert!(!then_done);
        }
        other => panic!("unexpected {:?}", other),
    }
    match chunk_action(Some("bye".to_string()), Some(true)) {
        ChunkAction::Emit { content, then_done } => {
            assert_eq!(content, "bye");
            assert!(then_done);
        }
        other => panic!("unexpected {:?}", other),
    }
    assert!(matches!(chunk_action(Some("x".to_string()), Some(false)), ChunkAction::Emit { then_done: false, .. }));
    assert!(matches!(chunk_action(Some(String::new()), Some(true)), ChunkAction::Done));
    assert!(matches!(chunk_action(None, Some(true)), ChunkAction::Done));
    assert!(matches!(chunk_action(Some(String::new()), None), ChunkAction::Skip));
    assert!(matches!(chunk_action(None, Some(false)), ChunkAction::Skip));
    assert!(matches!(chunk_action(None, None), ChunkAction::Skip));
}

fn reference_payload(block: &str) -> Option<String> {
    let line = block.trim().to_string();
    if line.starts_with("data: ") {
        Some(line.trim_start_matches("data: ").trim().to_string())
    } else {
        None
    }
}

#[test]
fn test_event_payloads() {
    assert_eq!(event_payload("data: {\"x\":1}"), Some("{\"x\":1}".to_string()));
    assert_eq!(event_payload("  data: [DONE]  \n"), Some("[DONE]".to_string()));
    assert_eq!(event_payload("event: ping"), None);
    assert_eq!(event_payload("data:"), None);
    for block in [
        "data: {\"x\":1}",
        "  data: [DONE]  \n",
        "data: data: twice",
        "data: data: data:  ",
        "data: ",
        "data:  spaced ",
        "event: ping",
        ": comment",
        "",
        "dat",
        "data",
    ] {
        assert_eq!(event_payload(block), reference_payload(block), "for {:?}", block);
    }
    assert!(is_done_marker("[DONE]"));
    assert!(!is_done_marker("[DONE] "));
    assert!(!is_done_marker(""));
}

#[test]
fn test_content_with_and_without_pictures() {
    match build_content("hello", &Vec::new()) {
        MessageContent::Plain(text) => assert_eq!(text, "hello"),
        other => panic!("unexpected {:?}", other),
    }
    let images = vec![
        "/9j/AAAA".to_string(),
        "iVBORw0KGgoAAA".to_string(),
        "R0lGODlh".to_string(),
        "UklGRabc".to_string(),
        "unknown".to_string(),
    ];
    match build_content("what is this?", &images) {
        MessageContent::Parts(parts) => {
            let seen: Vec<String> = parts
                .iter()
                .map(|p| match p {
                    ContentPart::ImageUrl { url } => url.clone(),
                    ContentPart::Text { text } => format!("text:{}", text),
                })
                .collect();
            assert_eq!(
                seen,
                vec![
                    "data:image/jpeg;base64,/9j/AAAA",
                    "data:image/png;base64,iVBORw0KGgoAAA",
                    "data:image/gif;base64,R0lGODlh",
                    "data:image/webp;base64,UklGRabc",
                    "data:image/jpeg;base64,unknown",
                    "text:what is this?",
                ]
            );
        }
        other => panic!("unexpected {:?}", other),
    }
    match build_content("", &vec!["/9j/".to_string()]) {
        MessageContent::Parts(parts) => assert_eq!(parts.len(), 1),
        other => panic!("unexpected {:?}", other),
    }
    assert_eq!(image_mime(""), "image/jpeg");
    assert_eq!(image_mime("iVBORw0KGg"), "image/jpeg");
}
