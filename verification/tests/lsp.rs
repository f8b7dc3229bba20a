use sf_formula::function_names::FunctionName;
use sf_formula::lsp::completion::{
    extract_identifier_prefix, is_function_context, suggest_function_completions, CompletionItem,
};
use sf_formula::lsp::documents::DocumentStore;
use sf_formula::lsp::framing::{
    content_length, frame_message, parse_message, FrameError, Header, MessageError,
};
use sf_formula::lsp::handlers::{
    build_syntax_diagnostics, cache_document, handle_did_change, handle_did_open, handle_request,
    notification_kind, NotificationError, NotificationKind, RequestResult,
};
use sf_formula::lsp::position::offset_for_position;
use sf_formula::lsp::structs::initialize::{InitializeParams, ServerInfo};
use sf_formula::lsp::structs::request::{
    CompletionMethod, CompletionParams, DidChangeTextDocumentParams, DidOpenTextDocumentParams,
    ErrorCodes, InitializeMethod, Position, RequestId, RequestMessage, RequestMethod,
    ResponsePayload, TextDocumentContentChangeEvent, TextDocumentIdentifier, TextDocumentItem,
    VersionedTextDocumentIdentifier,
};
use sf_formula::lsp::structs::server_capabilities::{
    PositionEncodingKind, ServerCapabilities, TextDocumentSyncKind,
};
use sf_formula::report::offset_to_position;

fn testing_payload() -> serde_json::Value {
    let mut fields = serde_json::Map::new();
    fields.insert("testing".to_string(), serde_json::Value::Bool(true));
    serde_json::Value::Object(fields)
}

fn completion_params(uri: &str, line: usize, character: usize) -> CompletionParams {
    CompletionParams {
        text_document: TextDocumentIdentifier { uri: uri.to_string() },
        position: Position { line, character },
    }
}

fn labels(items: &[CompletionItem]) -> Vec<String> {
    items.iter().map(|item| item.label.clone()).collect()
}

#[test]
fn test_serialize_header() {
    let payload = testing_payload();
    let encoded = Header::new(payload);
    let content = "Content-Length: 16\r\n\r\n{\"testing\":true}";
    let json = serde_json::to_string(&encoded.body).unwrap();
    assert_eq!(frame_message(&json), content);
}

#[test]
fn test_parse_header() {
    let mut content: &[u8] = b"Content-Length: 16\r\n\r\n{\"testing\":true}";

    let body = parse_message(&mut content).unwrap();

    let body = serde_json::from_str::<serde_json::Value>(&body).unwrap();

    assert_eq!(body, testing_payload());
}

#[test]
fn messages_are_read_one_at_a_time() {
    let first = frame_message("{\"a\":\"é\"}");
    let second = frame_message("[]");
    let stream = format!("{first}{second}");
    let mut inp: &[u8] = stream.as_bytes();
    assert_eq!(parse_message(&mut inp), Ok("{\"a\":\"é\"}".to_string()));
    assert_eq!(inp, second.as_bytes());
    assert_eq!(parse_message(&mut inp), Ok("[]".to_string()));
    assert!(inp.is_empty());
}

#[test]
fn unreadable_messages() {
    let mut inp: &[u8] = b"Content-Length: x1\r\n\r\n{}";
    assert_eq!(parse_message(&mut inp), Err(MessageError::InvalidLength));
    assert_eq!(inp, b"\r\n{}");

    let mut inp: &[u8] = b"Content-Length: 9\r\n\r\n{}";
    assert_eq!(parse_message(&mut inp), Err(MessageError::Truncated));
    assert!(inp.is_empty());

    let mut inp: &[u8] = b"Content-Length: 2\r\n\r\n\xff\xfeZ";
    assert_eq!(parse_message(&mut inp), Err(MessageError::NotUtf8));
    assert_eq!(inp, b"Z");
}

#[test]
fn test_completion_suggests_function_names_for_prefix() {
    let mut docs = DocumentStore::new();
    let uri = "file:///completion-test.sff".to_string();
    cache_document(&mut docs, uri.clone(), "RO".to_string());

    let params = completion_params(&uri, 0, 2);

    let completions = suggest_function_completions(&docs, &params);
    assert!(completions.iter().any(|item| item.label == "ROUND"));
}

#[test]
fn test_completion_does_not_suggest_after_field_separator() {
    let mut docs = DocumentStore::new();
    let uri = "file:///completion-field-test.sff".to_string();
    cache_document(&mut docs, uri.clone(), "Account.NA".to_string());

    let params = completion_params(&uri, 0, 10);

    let completions = suggest_function_completions(&docs, &params);
    assert!(completions.is_empty());
}

#[test]
fn test_completion_includes_salesforce_description() {
    let mut docs = DocumentStore::new();
    let uri = "file:///completion-description-test.sff".to_string();
    cache_document(&mut docs, uri.clone(), "RO".to_string());

    let params = completion_params(&uri, 0, 2);

    let round = suggest_function_completions(&docs, &params)
        .into_iter()
        .find(|item| item.label == "ROUND")
        .expect("ROUND completion should be present");

    assert!(
        round
            .documentation
            .as_deref()
            .is_some_and(|documentation| documentation.contains("nearest number"))
    );
}

#[test]
fn frames_count_bytes_not_characters() {
    assert_eq!(frame_message("\"é\""), "Content-Length: 4\r\n\r\n\"é\"");
    assert_eq!(frame_message(""), "Content-Length: 0\r\n\r\n");
}

#[test]
fn framed_message_reads_back() {
    let body = "{\"text\":\"naïve ∑\"}";
    let framed = frame_message(body);
    let bytes = framed.as_bytes();
    let line_len = bytes.iter().position(|b| *b == b'\n').unwrap() + 1;
    let size = content_length(&bytes[..line_len]).unwrap();
    assert_eq!(size, body.len());
    assert_eq!(&bytes[line_len..line_len + 2], b"\r\n");
    assert_eq!(&bytes[line_len + 2..], body.as_bytes());
}

#[test]
fn content_length_reads_what_usize_parsing_reads() {
    assert_eq!(content_length(b"Content-Length: 0\r\n"), Ok(0));
    assert_eq!(content_length(b"Content-Length: +7\r\n"), Ok(7));
    assert_eq!(content_length(b"Content-Length: 0042\r\n"), Ok(42));
    assert_eq!(content_length(b"Whatever-Header:123\r\n"), Ok(123));
    assert_eq!(content_length(b"Content-Length: \r\n"), Err(FrameError::InvalidLength));
    assert_eq!(content_length(b"Content-Length: +\r\n"), Err(FrameError::InvalidLength));
    assert_eq!(content_length(b"Content-Length: -1\r\n"), Err(FrameError::InvalidLength));
    assert_eq!(content_length(b"Content-Length: 1a\r\n"), Err(FrameError::InvalidLength));
    assert_eq!(
        content_length(b"Content-Length: 99999999999999999999999\r\n"),
        Err(FrameError::InvalidLength)
    );
    assert_eq!(
        content_length(format!("Content-Length: {}\r\n", usize::MAX).as_bytes()),
        Ok(usize::MAX)
    );
}

#[test]
fn offsets_of_positions() {
    assert_eq!(offset_for_position("ab\ncd", 0, 1), Some(1));
    assert_eq!(offset_for_position("ab\ncd", 1, 1), Some(4));
    assert_eq!(offset_for_position("ab\ncd", 1, 9), Some(5));
    assert_eq!(offset_for_position("ab\ncd", 0, 9), Some(2));
    assert_eq!(offset_for_position("ab\ncd", 2, 0), None);
    assert_eq!(offset_for_position("ab\n", 1, 0), Some(3));
    assert_eq!(offset_for_position("", 0, 5), Some(0));
}

#[test]
fn positions_of_offsets_round_trip() {
    let text = "ab\ncd\n\né\n";
    for offset in 0..=text.len() + 2 {
        let (line, column) = offset_to_position(text, offset);
        assert_eq!(offset_for_position(text, line, column), Some(offset.min(text.len())));
    }
}

#[test]
fn identifier_prefix_before_the_cursor() {
    assert_eq!(extract_identifier_prefix("IF(RO", 5), ("RO".to_string(), 3));
    assert_eq!(extract_identifier_prefix("a b_1", 5), ("b_1".to_string(), 2));
    assert_eq!(extract_identifier_prefix("abc", 99), ("abc".to_string(), 0));
    assert_eq!(extract_identifier_prefix("é x", 2), ("".to_string(), 2));
    assert_eq!(extract_identifier_prefix("1 + ", 4), ("".to_string(), 4));
}

#[test]
fn function_context_follows_operators() {
    assert!(is_function_context("RO", 0));
    assert!(is_function_context("IF(RO", 3));
    assert!(is_function_context("1 +\t\n RO", 6));
    assert!(is_function_context("a, b", 3));
    assert!(!is_function_context("Account.NA", 8));
    assert!(!is_function_context("x RO", 2));
    assert!(is_function_context("x", 99) == false);
}

#[test]
fn completion_items_describe_functions() {
    let item = CompletionItem::function(FunctionName::ROUND);
    assert_eq!(item.label, "ROUND");
    assert_eq!(item.kind, 3);
    assert_eq!(item.detail, None);
    assert_eq!(item.insert_text.as_deref(), Some("ROUND()"));
    assert!(item.documentation.unwrap().starts_with("Returns the nearest number"));
}

#[test]
fn completion_matches_prefix_in_any_case() {
    let mut docs = DocumentStore::new();
    let uri = "file:///a.sff".to_string();
    cache_document(&mut docs, uri.clone(), "IF(x,\n  ro".to_string());
    let names = labels(&suggest_function_completions(&docs, &completion_params(&uri, 1, 4)));
    assert_eq!(names, vec!["ROUND".to_string()]);

    cache_document(&mut docs, uri.clone(), "".to_string());
    let all = suggest_function_completions(&docs, &completion_params(&uri, 0, 0));
    assert_eq!(all.len(), FunctionName::all().len());

    let none = suggest_function_completions(&docs, &completion_params("file:///other.sff", 0, 0));
    assert!(none.is_empty());
    let beyond = suggest_function_completions(&docs, &completion_params(&uri, 3, 0));
    assert!(beyond.is_empty());
}

#[test]
fn store_keeps_the_latest_text() {
    let mut docs = DocumentStore::new();
    let a = "file:///a.sff".to_string();
    let b = "file:///b.sff".to_string();
    assert_eq!(docs.get(&a), None);
    docs.insert(a.clone(), "1".to_string());
    docs.insert(b.clone(), "2".to_string());
    docs.insert(a.clone(), "3".to_string());
    assert_eq!(docs.get(&a), Some("3".to_string()));
    assert_eq!(docs.get(&b), Some("2".to_string()));
}

#[test]
fn did_open_caches_and_publishes() {
    let mut docs = DocumentStore::new();
    let params = DidOpenTextDocumentParams {
        text_document: TextDocumentItem {
            uri: "file:///x.sff".to_string(),
            version: 3,
            text: "1 |".to_string(),
        },
    };
    let out = handle_did_open(&mut docs, params);
    assert_eq!(out.jsonrpc, "2.0");
    assert_eq!(out.method, "textDocument/publishDiagnostics");
    assert_eq!(out.params.uri, "file:///x.sff");
    assert_eq!(out.params.version, Some(3));
    assert_eq!(out.params.diagnostics.len(), 1);
    let d = &out.params.diagnostics[0];
    assert_eq!((d.range.start.line, d.range.start.character), (0, 2));
    assert_eq!((d.range.end.line, d.range.end.character), (0, 3));
    assert_eq!(d.severity, Some(1));
    assert_eq!(d.code.as_deref(), Some("E0001"));
    assert_eq!(d.source.as_deref(), Some("sf_formula_lsp"));
    assert_eq!(d.message, "unexpected \"|\"");
    assert_eq!(docs.get(&"file:///x.sff".to_string()), Some("1 |".to_string()));
}

#[test]
fn did_change_takes_the_last_change() {
    let mut docs = DocumentStore::new();
    let uri = "file:///y.sff".to_string();
    let empty = DidChangeTextDocumentParams {
        text_document: VersionedTextDocumentIdentifier { uri: uri.clone(), version: 1 },
        content_changes: Vec::new(),
    };
    assert!(matches!(handle_did_change(&mut docs, empty), Err(NotificationError::NoContentChanges)));
    assert_eq!(docs.get(&uri), None);

    let params = DidChangeTextDocumentParams {
        text_document: VersionedTextDocumentIdentifier { uri: uri.clone(), version: 2 },
        content_changes: vec![
            TextDocumentContentChangeEvent { text: "1 |".to_string() },
            TextDocumentContentChangeEvent { text: "1 + 2".to_string() },
        ],
    };
    let out = handle_did_change(&mut docs, params).unwrap();
    assert!(out.params.diagnostics.is_empty());
    assert_eq!(out.params.version, Some(2));
    assert_eq!(docs.get(&uri), Some("1 + 2".to_string()));
}

#[test]
fn syntax_diagnostics_of_documents() {
    assert!(build_syntax_diagnostics("AND(1, 2)", "file:///z.sff").is_empty());
    let ds = build_syntax_diagnostics("1 +\n  é", "file:///z.sff");
    assert_eq!(ds.len(), 1);
    assert_eq!((ds[0].range.start.line, ds[0].range.start.character), (1, 2));
    assert_eq!((ds[0].range.end.line, ds[0].range.end.character), (1, 4));
}

#[test]
fn notification_kinds() {
    assert_eq!(notification_kind("textDocument/didOpen"), NotificationKind::DidOpen);
    assert_eq!(notification_kind("textDocument/didChange"), NotificationKind::DidChange);
    assert_eq!(notification_kind("textDocument/didClose"), NotificationKind::Ignored);
    assert_eq!(notification_kind("textDocument/didOpenX"), NotificationKind::Ignored);
}

#[test]
fn requests_are_answered() {
    let docs = DocumentStore::new();
    let init = RequestMessage {
        id: RequestId::Int(1),
        method: RequestMethod::Initialize {
            method: InitializeMethod::Value,
            params: InitializeParams { process_id: None, workspace_folders: None },
        },
    };
    let response = handle_request(&docs, init);
    assert_eq!(response.jsonrpc, "2.0");
    assert_eq!(response.id, RequestId::Int(1));
    match response.payload {
        ResponsePayload::Success { result: RequestResult::Initialize(r) } => {
            assert_eq!(r.capabilities.position_encoding, PositionEncodingKind::UTF8);
            let sync = r.capabilities.text_document_sync.unwrap();
            assert_eq!(sync.open_close, Some(true));
            assert_eq!(sync.change, TextDocumentSyncKind::Full);
            let info = r.server_info.unwrap();
            assert_eq!(info.name, "sf_formula_lsp");
        }
        _ => panic!("initialize must succeed"),
    }

    let unknown = RequestMessage {
        id: RequestId::Str("abc".to_string()),
        method: RequestMethod::Unknown {
            method: "workspace/symbol".to_string(),
            params: Some(serde_json::Value::Bool(true)),
        },
    };
    let response = handle_request(&docs, unknown);
    assert_eq!(response.id, RequestId::Str("abc".to_string()));
    match response.payload {
        ResponsePayload::Failure { error } => {
            assert_eq!(error.code, ErrorCodes::MethodNotFound);
            assert_eq!(
                error.message,
                "Got unknown request method: `workspace/symbol` with params: Some(Bool(true))"
            );
            assert_eq!(error.data, Some(serde_json::Value::Bool(true)));
        }
        _ => panic!("an unknown method must fail"),
    }

    let completion = RequestMessage {
        id: RequestId::Int(2),
        method: RequestMethod::Completion {
            method: CompletionMethod::Value,
            params: completion_params("file:///nowhere.sff", 0, 0),
        },
    };
    match handle_request(&docs, completion).payload {
        ResponsePayload::Success { result: RequestResult::Completion(items) } => {
            assert!(items.is_empty())
        }
        _ => panic!("completion must succeed"),
    }
}

#[test]
fn defaults_and_codes() {
    let info = ServerInfo::default();
    assert_eq!(info.name, "sf_formula_lsp");
    assert_eq!(info.version.as_deref(), Some("0.1.0"));
    let caps = ServerCapabilities::default();
    assert_eq!(caps.position_encoding, PositionEncodingKind::UTF8);
    assert_eq!(TextDocumentSyncKind::default(), TextDocumentSyncKind::Unsynced);
    assert_eq!(ErrorCodes::ParseError.code(), -32700);
    assert_eq!(ErrorCodes::InvalidRequest.code(), -32600);
    assert_eq!(ErrorCodes::MethodNotFound.code(), -32601);
    assert_eq!(ErrorCodes::InvalidParams.code(), -32602);
    assert_eq!(ErrorCodes::InternalError.code(), -32603);
}
