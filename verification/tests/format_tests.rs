use nexus_agent::auth::base64_url_decode;

#[test]
fn test_base64_url_decode() {
    let encoded = "eyJhbGciOiJSUzI1NiIsImtpZCI6InRlc3QifQ";
    let decoded = base64_url_decode(encoded).unwrap();
    let json: serde_json::Value = serde_json::from_slice(&decoded).unwrap();
    assert_eq!(json["alg"], "RS256");
}

#[test]
fn test_extract_tool_call() {
    let response = r#"Thought: I need to search for information.
Action: web_search
Action Input: {"query": "rust cloudflare workers"}"#;

    assert!(response.contains("Action:"));
    assert!(!response.contains("Final Answer:"));
}

#[test]
fn test_extract_final_answer() {
    let response = r#"Thought: I have all the information needed.
Final Answer: The answer to your question is 42."#;

    assert!(response.contains("Final Answer:"));
}
