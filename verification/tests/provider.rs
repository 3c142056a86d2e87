use omniscientia::provider::{chat_endpoint, tags_url, LlmProvider};

#[test]
fn endpoint_appends_api_chat_once() {
    assert_eq!(chat_endpoint("http://localhost:11434"), "http://localhost:11434/api/chat");
    assert_eq!(chat_endpoint("http://localhost:11434//"), "http://localhost:11434/api/chat");
    assert_eq!(chat_endpoint("http://h/api/chat/"), "http://h/api/chat");
    let p = LlmProvider::new("http://h:1/", "llama3.2");
    assert_eq!(p.endpoint(), "http://h:1/api/chat");
    assert_eq!(p.model(), "llama3.2");
}

#[test]
fn tags_url_strips_known_paths() {
    assert_eq!(tags_url("http://h:1/api/generate"), "http://h:1/api/tags");
    assert_eq!(tags_url("http://h:1/api/chat/"), "http://h:1/api/tags");
    assert_eq!(tags_url("http://h:1"), "http://h:1/api/tags");
}

#[test]
fn single_turn_request() {
    let p = LlmProvider::new("http://h", "m");
    let r = p.chat_request(Some("sys"), "hello");
    assert_eq!(r.model, "m");
    assert!(!r.stream);
    let msgs: Vec<(String, String)> = r.messages.iter().map(|m| (m.role.clone(), m.content.clone())).collect();
    assert_eq!(msgs, vec![("system".to_string(), "sys".to_string()), ("user".to_string(), "hello".to_string())]);
    let r2 = p.chat_request(None, "hi");
    assert_eq!(r2.messages.len(), 1);
    assert_eq!(r2.messages[0].role, "user");
}

#[test]
fn multi_turn_request_keeps_history_order() {
    let p = LlmProvider::new("http://h", "m");
    let hist = vec![
        ("user".to_string(), "a".to_string()),
        ("assistant".to_string(), "b".to_string()),
    ];
    let r = p.context_request("sys", &hist, "c");
    let msgs: Vec<(String, String)> = r.messages.iter().map(|m| (m.role.clone(), m.content.clone())).collect();
    assert_eq!(
        msgs,
        vec![
            ("system".to_string(), "sys".to_string()),
            ("user".to_string(), "a".to_string()),
            ("assistant".to_string(), "b".to_string()),
            ("user".to_string(), "c".to_string()),
        ]
    );
}

#[test]
fn parses_openai_and_ollama_replies() {
    assert_eq!(
        LlmProvider::parse_json("{\"choices\":[{\"message\":{\"content\":\"hi\"}}]}"),
        Ok("hi".to_string())
    );
    assert_eq!(LlmProvider::parse_json("{\"message\":{\"role\":\"assistant\",\"content\":\"yo\"}}"), Ok("yo".to_string()));
}

#[test]
fn unparsable_reply_names_the_body() {
    assert_eq!(
        LlmProvider::parse_json("{ \"error\" : \"model not found\" }"),
        Err("Failed to parse response. Body: {\"error\":\"model not found\"}".to_string())
    );
    assert_eq!(
        LlmProvider::parse_json("{\"choices\":{\"0\":{\"message\":{\"content\":\"x\"}}}}"),
        Err("Failed to parse response. Body: {\"choices\":{\"0\":{\"message\":{\"content\":\"x\"}}}}".to_string())
    );
}

#[test]
fn endpoint_given_as_base_is_kept() {
    for base in ["http://h:1", "http://h:1/api/chat", "http://h:1/api/chat/api/chat//", "x/"] {
        let once = chat_endpoint(base);
        assert_eq!(chat_endpoint(&once), once);
    }
}
