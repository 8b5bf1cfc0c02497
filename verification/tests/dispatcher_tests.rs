//! Tests for the protocol dispatcher: routing, validation, error
//! codes, authentication, and the notification rule.

use mcp_database::auth::ERROR_UNAUTHORIZED;
use mcp_database::auth::validate_auth_token;
use mcp_database::db_service::MemoryStore;
use mcp_database::models::Chapter;
use mcp_database::models::QA;
use mcp_database::protocol::ERROR_INTERNAL;
use mcp_database::protocol::ERROR_INVALID_PARAMS;
use mcp_database::protocol::ERROR_INVALID_REQUEST;
use mcp_database::protocol::ERROR_METHOD_NOT_FOUND;
use mcp_database::protocol::ERROR_PARSE;
use mcp_database::protocol::MCPParams;
use mcp_database::protocol::MCPRequest;
use mcp_database::protocol::MpcError;
use mcp_database::protocol::parse_error_response;
use mcp_database::server::MCPDatabaseServer;
use mcp_database::server::ServerConfig;

fn chapter(id: &str, number: u32, summary: &str) -> Chapter {
    Chapter {
        id: Some(id.to_string()),
        novel_id: "aaaaaaaaaaaaaaaaaaaaaaaa".to_string(),
        number,
        title: format!("Chapter {}", number),
        summary: summary.to_string(),
        key_points: vec![],
        content: None,
    }
}

fn qa(question: &str, answer: &str) -> QA {
    QA {
        id: None,
        novel_id: None,
        question: question.to_string(),
        answer: answer.to_string(),
        tags: vec![],
    }
}

fn sample_store() -> MemoryStore {
    MemoryStore {
        novels: vec![],
        chapters: vec![chapter("c1c1c1c1c1c1c1c1c1c1c1c1", 1, "old summary")],
        characters: vec![],
        qa_entries: vec![
            qa("What is magic?", "An art."),
            qa("Where is the sea?", "East."),
        ],
    }
}

fn request(id: Option<&str>, method: &str, params: MCPParams) -> MCPRequest {
    MCPRequest {
        jsonrpc: "2.0".to_string(),
        id: id.map(|s| s.to_string()),
        method: method.to_string(),
        params,
    }
}

fn params_with(pairs: &[(&str, &str)]) -> MCPParams {
    let mut p = MCPParams::new();
    for (k, v) in pairs {
        p.push_str(k, v);
    }
    p
}

#[test]
fn notification_produces_no_response_valid_method() {
    let mut server = MCPDatabaseServer::new(sample_store());
    let req = request(None, "query", params_with(&[("query", "find novels")]));
    assert!(server.handle_request(&req).is_none());
}

#[test]
fn notification_produces_no_response_invalid_method() {
    let mut server = MCPDatabaseServer::new(sample_store());
    let req = request(None, "no_such_method", MCPParams::new());
    assert!(server.handle_request(&req).is_none());
}

#[test]
fn notification_produces_no_response_bad_version() {
    let mut server = MCPDatabaseServer::new(sample_store());
    let mut req = request(None, "query", MCPParams::new());
    req.jsonrpc = "1.0".to_string();
    assert!(server.handle_request(&req).is_none());
}

#[test]
fn wrong_version_is_invalid_request() {
    let mut server = MCPDatabaseServer::new(sample_store());
    let mut req = request(Some("1"), "query", params_with(&[("query", "x")]));
    req.jsonrpc = "1.0".to_string();
    let resp = server.handle_request(&req).unwrap();
    assert!(resp.result.is_none());
    assert_eq!(resp.error.unwrap().code, ERROR_INVALID_REQUEST);
}

#[test]
fn unknown_method_is_method_not_found() {
    let mut server = MCPDatabaseServer::new(sample_store());
    let req = request(Some("1"), "no_such_method", MCPParams::new());
    let resp = server.handle_request(&req).unwrap();
    assert_eq!(resp.error.unwrap().code, ERROR_METHOD_NOT_FOUND);
}

#[test]
fn missing_parameter_is_invalid_params() {
    let mut server = MCPDatabaseServer::new(sample_store());
    let req = request(Some("1"), "query", MCPParams::new());
    let resp = server.handle_request(&req).unwrap();
    assert_eq!(resp.error.unwrap().code, ERROR_INVALID_PARAMS);
}

#[test]
fn ill_typed_parameter_is_invalid_params() {
    let mut server = MCPDatabaseServer::new(sample_store());
    let mut p = MCPParams::new();
    p.push_other("query");
    let req = request(Some("1"), "query", p);
    let resp = server.handle_request(&req).unwrap();
    assert_eq!(resp.error.unwrap().code, ERROR_INVALID_PARAMS);
}

#[test]
fn response_echoes_request_id_and_version() {
    let mut server = MCPDatabaseServer::new(sample_store());
    let req = request(Some("42"), "mcp.prompts", MCPParams::new());
    let resp = server.handle_request(&req).unwrap();
    assert_eq!(resp.jsonrpc, "2.0");
    assert_eq!(resp.id, Some("42".to_string()));
    assert!(resp.result.is_some() != resp.error.is_some());
}

#[test]
fn query_method_renders_qa_results() {
    let mut server = MCPDatabaseServer::new(sample_store());
    let req = request(Some("1"), "query",
        params_with(&[("query", "questions about magic")]));
    let resp = server.handle_request(&req).unwrap();
    let content = resp.result.unwrap().content;
    assert_eq!(content, "Found 1 Q&A entries:\n\nQ1: What is magic?\nA: An art.\n\n");
}

#[test]
fn query_with_no_match_names_the_collection() {
    let mut server = MCPDatabaseServer::new(sample_store());
    let req = request(Some("1"), "query",
        params_with(&[("query", "novels about submarines")]));
    let resp = server.handle_request(&req).unwrap();
    let content = resp.result.unwrap().content;
    assert_eq!(content, "No results found for your query about novels.");
}

#[test]
fn qa_regex_method_formats_matches() {
    let mut server = MCPDatabaseServer::new(sample_store());
    let req = request(Some("1"), "query_qa_regex",
        params_with(&[("regex_pattern", "magic")]));
    let resp = server.handle_request(&req).unwrap();
    let content = resp.result.unwrap().content;
    assert_eq!(content, "Found 1 Q&A entries:\n\nQ1: What is magic?\nA: An art.\n\n");
}

#[test]
fn invalid_regex_is_internal_error() {
    let mut server = MCPDatabaseServer::new(sample_store());
    let req = request(Some("1"), "query_qa_regex", params_with(&[("regex_pattern", "(")]));
    let resp = server.handle_request(&req).unwrap();
    assert_eq!(resp.error.unwrap().code, ERROR_INTERNAL);
}

#[test]
fn chapter_content_round_trip() {
    let mut server = MCPDatabaseServer::new(sample_store());
    let req = request(Some("1"), "get_chapter_content",
        params_with(&[("chapter_id", "c1c1c1c1c1c1c1c1c1c1c1c1")]));
    let resp = server.handle_request(&req).unwrap();
    assert_eq!(resp.result.unwrap().content, "Summary: old summary");
}

#[test]
fn chapter_content_unknown_id_is_invalid_params() {
    let mut server = MCPDatabaseServer::new(sample_store());
    let req = request(Some("1"), "get_chapter_content",
        params_with(&[("chapter_id", "dddddddddddddddddddddddd")]));
    let resp = server.handle_request(&req).unwrap();
    assert_eq!(resp.error.unwrap().code, ERROR_INVALID_PARAMS);
}

#[test]
fn update_disabled_looks_like_unknown_method() {
    let mut server = MCPDatabaseServer::new(sample_store());
    let req = request(Some("1"), "update_chapter_summary", params_with(&[
        ("chapter_id", "c1c1c1c1c1c1c1c1c1c1c1c1"),
        ("summary", "new"),
        ("auth_token", "trusted_llm_token"),
    ]));
    let resp = server.handle_request(&req).unwrap();
    assert_eq!(resp.error.unwrap().code, ERROR_METHOD_NOT_FOUND);
}

fn write_enabled_server() -> MCPDatabaseServer<MemoryStore> {
    MCPDatabaseServer::with_config(sample_store(), ServerConfig {
        write_enabled: true,
        trusted_tokens: vec!["trusted_llm_token".to_string()],
    })
}

#[test]
fn update_with_bad_token_is_unauthorized() {
    let mut server = write_enabled_server();
    let req = request(Some("1"), "update_chapter_summary", params_with(&[
        ("chapter_id", "c1c1c1c1c1c1c1c1c1c1c1c1"),
        ("summary", "new"),
        ("auth_token", "wrong"),
    ]));
    let resp = server.handle_request(&req).unwrap();
    let err = resp.error.unwrap();
    assert_eq!(err.code, ERROR_UNAUTHORIZED);
    assert_eq!(err.message, "Invalid or missing authentication token");
}

#[test]
fn update_nonexistent_chapter_is_never_silent_success() {
    let mut server = write_enabled_server();
    let req = request(Some("1"), "update_chapter_summary", params_with(&[
        ("chapter_id", "dddddddddddddddddddddddd"),
        ("summary", "new"),
        ("auth_token", "trusted_llm_token"),
    ]));
    let resp = server.handle_request(&req).unwrap();
    assert!(resp.result.is_none());
    assert_eq!(resp.error.unwrap().code, ERROR_INVALID_PARAMS);
}

#[test]
fn update_happy_path_changes_the_summary() {
    let mut server = write_enabled_server();
    let req = request(Some("1"), "update_chapter_summary", params_with(&[
        ("chapter_id", "c1c1c1c1c1c1c1c1c1c1c1c1"),
        ("summary", "brand new"),
        ("auth_token", "trusted_llm_token"),
    ]));
    let resp = server.handle_request(&req).unwrap();
    assert_eq!(resp.result.unwrap().content, "Chapter summary updated successfully");
    let fetch = request(Some("2"), "get_chapter_content",
        params_with(&[("chapter_id", "c1c1c1c1c1c1c1c1c1c1c1c1")]));
    let resp2 = server.handle_request(&fetch).unwrap();
    assert_eq!(resp2.result.unwrap().content, "Summary: brand new");
}

#[test]
fn failed_update_leaves_the_store_unchanged() {
    let mut server = write_enabled_server();
    let bad_token = request(Some("1"), "update_chapter_summary", params_with(&[
        ("chapter_id", "c1c1c1c1c1c1c1c1c1c1c1c1"),
        ("summary", "tampered"),
        ("auth_token", "wrong"),
    ]));
    server.handle_request(&bad_token).unwrap();
    let missing = request(Some("2"), "update_chapter_summary", params_with(&[
        ("chapter_id", "dddddddddddddddddddddddd"),
        ("summary", "tampered"),
        ("auth_token", "trusted_llm_token"),
    ]));
    server.handle_request(&missing).unwrap();
    let fetch = request(Some("3"), "get_chapter_content",
        params_with(&[("chapter_id", "c1c1c1c1c1c1c1c1c1c1c1c1")]));
    let resp = server.handle_request(&fetch).unwrap();
    assert_eq!(resp.result.unwrap().content, "Summary: old summary");
}

#[test]
fn direct_methods_report_shaped_errors() {
    let server = MCPDatabaseServer::new(sample_store());
    let regex_err = server.query_qa_regex("(".to_string()).unwrap_err();
    assert!(regex_err.starts_with("Failed to search Q&A entries: "));
    let miss = server
        .get_chapter_content("dddddddddddddddddddddddd".to_string())
        .unwrap_err();
    assert_eq!(miss, "Chapter with ID dddddddddddddddddddddddd not found");
    let malformed = server.get_chapter_content("xyz".to_string()).unwrap_err();
    assert_eq!(malformed, "Chapter with ID xyz not found");
}

#[test]
fn capabilities_listing_names_the_tools() {
    let mut server = MCPDatabaseServer::new(sample_store());
    let req = request(Some("1"), "mcp.capabilities", MCPParams::new());
    let resp = server.handle_request(&req).unwrap();
    let content = resp.result.unwrap().content;
    assert!(content.starts_with("Tools: query,"));
    assert!(!content.contains("update_chapter_summary"));
    let mut writer = write_enabled_server();
    let resp2 = writer.handle_request(&req).unwrap();
    assert!(resp2.result.unwrap().content.contains("update_chapter_summary"));
}

#[test]
fn prompts_listing_is_fixed() {
    let mut server = MCPDatabaseServer::new(sample_store());
    let req = request(Some("1"), "mcp.prompts", MCPParams::new());
    let resp = server.handle_request(&req).unwrap();
    assert_eq!(
        resp.result.unwrap().content,
        "Prompts: search_novel, character_details, chapter_summary"
    );
    let prompts = server.list_prompts();
    assert_eq!(prompts.len(), 3);
    assert_eq!(prompts[0].name, "search_novel");
}

#[test]
fn tool_listing_matches_the_route_table() {
    let server = MCPDatabaseServer::new(sample_store());
    let tools = server.list_tools();
    assert_eq!(tools.len(), 6);
    assert_eq!(tools[0].name, "query_database");
    assert_eq!(tools[0].required_params, vec!["query".to_string()]);
    let info = server.get_info();
    assert_eq!(info.name, "mcp_database");
}

#[test]
fn parse_error_response_carries_the_parse_code() {
    let resp = parse_error_response();
    assert!(resp.result.is_none());
    assert_eq!(resp.error.unwrap().code, ERROR_PARSE);
}

#[test]
fn mpc_error_packs_code_and_message() {
    let e = MpcError::new(ERROR_INTERNAL, "boom".to_string());
    assert_eq!(e.code, ERROR_INTERNAL);
    assert_eq!(e.message, "boom");
}

#[test]
fn auth_token_validation_consults_the_allowlist() {
    let trusted = vec!["trusted_llm_token".to_string()];
    let good = params_with(&[("auth_token", "trusted_llm_token")]);
    let bad = params_with(&[("auth_token", "intruder")]);
    let missing = MCPParams::new();
    assert!(validate_auth_token(&good, &trusted));
    assert!(!validate_auth_token(&bad, &trusted));
    assert!(!validate_auth_token(&missing, &trusted));
}

#[test]
fn get_prompt_rejects_unknown_names() {
    let server = MCPDatabaseServer::new(sample_store());
    let ok = match server.get_prompt("search_novel") {
        Ok(p) => p,
        Err(_) => panic!("the known prompt must resolve"),
    };
    assert_eq!(ok.messages.len(), 1);
    assert_eq!(ok.messages[0].content, "Find novels about magic and dragons");
    let err = match server.get_prompt("nope") {
        Err(e) => e,
        Ok(_) => panic!("an unknown prompt name must be rejected"),
    };
    assert_eq!(err.code, ERROR_INVALID_PARAMS);
}
