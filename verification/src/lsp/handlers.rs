use crate::lsp::completion::{
    completion_names, cursor_on_char_boundary, is_item_for, suggest_function_completions,
    CompletionItem,
};
use crate::lsp::documents::DocumentStore;
use crate::lsp::structs::initialize::{server_name, server_name_string, InitializeResult, ServerInfo};
use crate::lsp::structs::request::{
    jsonrpc_version, jsonrpc_version_string, DidChangeTextDocumentParams,
    DidOpenTextDocumentParams, ErrorCodes, Position, RequestMessage, RequestMethod, ResponseError,
    ResponseMessage, ResponsePayload,
};
use crate::lsp::structs::server_capabilities::{
    PositionEncodingKind, ServerCapabilities, TextDocumentSyncKind, TextDocumentSyncOptions,
};
use crate::parse::expression::formula_spec;
use crate::report::{char_end, position_of, unexpected_message};
use crate::validation::{validate_expression_detailed_with_source, ValidationError};
use vstd::prelude::*;
use vstd::string::{StringExecFns, StringSliceAdditionalSpecFns};
use vstd::utf8::encode_utf8;

verus! {

broadcast use vstd::utf8::encode_utf8_decode_utf8;

// ----- diagnostics -----

/// A stretch of a document, from `start` up to `end`.
#[derive(Debug, Clone, Copy, PartialEq, Eq)]
pub struct Range {
    pub start: Position,
    pub end: Position,
}

/// A problem shown in the editor.
#[derive(Debug, Clone)]
pub struct Diagnostic {
    pub range: Range,
    /// 1 for an error.
    pub severity: Option<u8>,
    pub code: Option<String>,
    pub source: Option<String>,
    pub message: String,
}

/// The parameters of `textDocument/publishDiagnostics`.
#[derive(Debug, Clone)]
pub struct PublishDiagnosticsParams {
    pub uri: String,
    pub version: Option<i32>,
    pub diagnostics: Vec<Diagnostic>,
}

/// A notification from the server to the editor.
#[derive(Debug, Clone)]
pub struct NotificationOutput<T> {
    pub jsonrpc: &'static str,
    pub method: &'static str,
    pub params: T,
}

/// The code of a syntax error.
pub open spec fn syntax_error_code() -> Seq<char> {
    seq!['E', '0', '0', '0', '1']
}

/// The position that `position_of` gives for offset `o` of `s`.
pub open spec fn is_position_of(p: Position, s: Seq<u8>, o: int) -> bool {
    p.line == position_of(s, o).0 && p.character == position_of(s, o).1
}

/// The diagnostic of a syntax error at offset `pos` of the document `s`: it covers the
/// character there, and says what was found.
pub open spec fn is_syntax_diagnostic(d: Diagnostic, s: Seq<u8>, pos: int) -> bool {
    &&& is_position_of(d.range.start, s, pos)
    &&& is_position_of(d.range.end, s, char_end(s, pos))
    &&& d.severity == Some(1u8)
    &&& d.code matches Some(c) && c@ == syntax_error_code()
    &&& d.source matches Some(x) && x@ == server_name()
    &&& d.message@ == unexpected_message(s, pos)
}

/// The diagnostics of the document `text`: none when it is a formula, else the one
/// syntax error.
pub open spec fn diagnostics_are(ds: Seq<Diagnostic>, text: Seq<char>) -> bool {
    let s = encode_utf8(text);
    match formula_spec(s) {
        Ok(_) => ds.len() == 0,
        Err(e) => ds.len() == 1 && is_syntax_diagnostic(ds[0], s, e.pos),
    }
}

/// The range that a validation error covers.
pub fn parser_error_range(err: &ValidationError) -> (r: Range)
    ensures
        r.start == (Position { line: err.line, character: err.column }),
        r.end == (Position { line: err.end_line, character: err.end_column }),
{
    Range {
        start: Position { line: err.line, character: err.column },
        end: Position { line: err.end_line, character: err.end_column },
    }
}

/// Checks the document `text`, named `source_name`, and lists its syntax errors.
pub fn build_syntax_diagnostics(text: &str, source_name: &str) -> (r: Vec<Diagnostic>)
    ensures
        diagnostics_are(r@, text@),
{
    match validate_expression_detailed_with_source(text, source_name) {
        Ok(()) => Vec::new(),
        Err(err) => {
            let code = String::from_str("E0001");
            proof {
                reveal_strlit("E0001");
            }
            assert(code@ =~= syntax_error_code());
            let range = parser_error_range(&err);
            let mut v: Vec<Diagnostic> = Vec::new();
            v.push(
                Diagnostic {
                    range,
                    severity: Some(1),
                    code: Some(code),
                    source: Some(server_name_string()),
                    message: err.message,
                },
            );
            v
        },
    }
}

/// The method name of the diagnostics notification.
pub open spec fn publish_method() -> Seq<char> {
    seq![
        't', 'e', 'x', 't', 'D', 'o', 'c', 'u', 'm', 'e', 'n', 't', '/', 'p', 'u', 'b', 'l', 'i', 's',
        'h', 'D', 'i', 'a', 'g', 'n', 'o', 's', 't', 'i', 'c', 's',
    ]
}

/// The notification that publishes `diagnostics` for the document `uri` at `version`.
pub fn publish_diagnostics_message(
    uri: String,
    version: Option<i32>,
    diagnostics: Vec<Diagnostic>,
) -> (r: NotificationOutput<PublishDiagnosticsParams>)
    ensures
        r.jsonrpc@ == jsonrpc_version(),
        r.method@ == publish_method(),
        r.params.uri == uri,
        r.params.version == version,
        r.params.diagnostics == diagnostics,
{
    proof {
        reveal_strlit("2.0");
        reveal_strlit("textDocument/publishDiagnostics");
    }
    let r = NotificationOutput {
        jsonrpc: "2.0",
        method: "textDocument/publishDiagnostics",
        params: PublishDiagnosticsParams { uri, version, diagnostics },
    };
    assert(r.jsonrpc@ =~= jsonrpc_version());
    assert(r.method@ =~= publish_method());
    r
}

// ----- notifications -----

/// The notifications the server acts on.
#[derive(Debug, Clone, Copy, PartialEq, Eq)]
pub enum NotificationKind {
    /// `textDocument/didOpen`
    DidOpen,
    /// `textDocument/didChange`
    DidChange,
    /// Any other method, which is ignored.
    Ignored,
}

pub open spec fn did_open_method() -> Seq<char> {
    seq!['t', 'e', 'x', 't', 'D', 'o', 'c', 'u', 'm', 'e', 'n', 't', '/', 'd', 'i', 'd', 'O', 'p', 'e', 'n']
}

pub open spec fn did_change_method() -> Seq<char> {
    seq![
        't', 'e', 'x', 't', 'D', 'o', 'c', 'u', 'm', 'e', 'n', 't', '/', 'd', 'i', 'd', 'C', 'h', 'a',
        'n', 'g', 'e',
    ]
}

fn same_text(a: &str, b: &str) -> (r: bool)
    ensures
        r == (a@ == b@),
{
    let x = a.as_bytes();
    let y = b.as_bytes();
    if x.len() != y.len() {
        return false;
    }
    let mut i: usize = 0;
    while i < x.len()
        invariant
            x@.len() == y@.len(),
            x@ == a.spec_bytes(),
            y@ == b.spec_bytes(),
            i <= x@.len(),
            forall|j: int| 0 <= j < i ==> x@[j] == y@[j],
        decreases x@.len() - i,
    {
        if x[i] != y[i] {
            return false;
        }
        i = i + 1;
    }
    assert(x@ =~= y@);
    assert(a@ == vstd::utf8::decode_utf8(a.spec_bytes()));
    true
}

/// Which notification the method name `method` is.
pub fn notification_kind(method: &str) -> (r: NotificationKind)
    ensures
        r == NotificationKind::DidOpen <==> method@ == did_open_method(),
        r == NotificationKind::DidChange <==> method@ == did_change_method(),
{
    proof {
        reveal_strlit("textDocument/didOpen");
        reveal_strlit("textDocument/didChange");
        assert("textDocument/didOpen"@ =~= did_open_method());
        assert("textDocument/didChange"@ =~= did_change_method());
    }
    if same_text(method, "textDocument/didOpen") {
        NotificationKind::DidOpen
    } else if same_text(method, "textDocument/didChange") {
        NotificationKind::DidChange
    } else {
        NotificationKind::Ignored
    }
}

/// A change notification that carries no change.
#[derive(Debug, Clone, Copy, PartialEq, Eq)]
pub enum NotificationError {
    NoContentChanges,
}

/// Keeps the text of the document `uri`.
pub fn cache_document(docs: &mut DocumentStore, uri: String, text: String)
    ensures
        final(docs)@ == old(docs)@.insert(uri@, text@),
{
    docs.insert(uri, text);
}

/// Handles `textDocument/didOpen`: keeps the document's text and publishes its diagnostics.
pub fn handle_did_open(docs: &mut DocumentStore, params: DidOpenTextDocumentParams) -> (r:
    NotificationOutput<PublishDiagnosticsParams>)
    ensures
        final(docs)@ == old(docs)@.insert(params.text_document.uri@, params.text_document.text@),
        r.method@ == publish_method(),
        r.params.uri@ == params.text_document.uri@,
        r.params.version == Some(params.text_document.version),
        diagnostics_are(r.params.diagnostics@, params.text_document.text@),
{
    let item = params.text_document;
    cache_document(docs, item.uri.clone(), item.text.clone());
    let diagnostics = build_syntax_diagnostics(item.text.as_str(), item.uri.as_str());
    publish_diagnostics_message(item.uri, Some(item.version), diagnostics)
}

/// Handles `textDocument/didChange`: keeps the document's new text (the last change, as the
/// whole document is sent) and publishes its diagnostics; refused when there is no change.
pub fn handle_did_change(docs: &mut DocumentStore, params: DidChangeTextDocumentParams) -> (r:
    Result<NotificationOutput<PublishDiagnosticsParams>, NotificationError>)
    ensures
        params.content_changes@.len() == 0 <==> r is Err,
        params.content_changes@.len() == 0 ==> final(docs)@ == old(docs)@,
        r matches Ok(out) ==> {
            let text = params.content_changes@.last().text@;
            &&& final(docs)@ == old(docs)@.insert(params.text_document.uri@, text)
            &&& out.method@ == publish_method()
            &&& out.params.uri@ == params.text_document.uri@
            &&& out.params.version == Some(params.text_document.version)
            &&& diagnostics_are(out.params.diagnostics@, text)
        },
{
    let n = params.content_changes.len();
    if n == 0 {
        return Err(NotificationError::NoContentChanges);
    }
    let latest = &params.content_changes[n - 1];
    let diagnostics = build_syntax_diagnostics(
        latest.text.as_str(),
        params.text_document.uri.as_str(),
    );
    cache_document(docs, params.text_document.uri.clone(), latest.text.clone());
    Ok(
        publish_diagnostics_message(
            params.text_document.uri,
            Some(params.text_document.version),
            diagnostics,
        ),
    )
}

// ----- requests -----

/// What a successful response carries.
#[derive(Debug, Clone)]
pub enum RequestResult {
    Initialize(InitializeResult),
    Completion(Vec<CompletionItem>),
}

/// The answer to `initialize`: the default capabilities, and the server's name and version.
pub open spec fn is_initialize_result(r: InitializeResult) -> bool {
    &&& r.capabilities.position_encoding == PositionEncodingKind::UTF8
    &&& r.capabilities.text_document_sync == Some(
        TextDocumentSyncOptions { open_close: Some(true), change: TextDocumentSyncKind::Full },
    )
    &&& r.server_info matches Some(info) && info.name@ == server_name() && info.version is Some
}

/// The message that refuses a request of the unknown method `method`, whose parameters read
/// `params` when shown.
pub open spec fn unknown_method_text(method: Seq<char>, params: Seq<char>) -> Seq<char> {
    "Got unknown request method: `"@ + method + "` with params: "@ + params
}

/// The message that refuses a request of the unknown method `method` with parameters shown
/// as `params`.
pub fn unknown_method_message(method: &str, params: &str) -> (r: String)
    ensures
        r@ == unknown_method_text(method@, params@),
{
    let mut m = String::from_str("Got unknown request method: `");
    m.append(method);
    m.append("` with params: ");
    m.append(params);
    m
}

/// Shows `params` as std's `Debug` formatting (`{:?}`) does, through serde_json's `Debug`
/// implementation of `Value`. What the text reads is not stated.
#[verifier::external_body]
fn debug_params(params: &Option<serde_json::Value>) -> (r: String) {
    format!("{params:?}")
}

/// What `request` is answered when the open documents are `docs` and the parameters of an
/// unknown method are shown as some text.
pub open spec fn answers(
    docs: Map<Seq<char>, Seq<char>>,
    method: RequestMethod,
    payload: ResponsePayload<RequestResult>,
) -> bool {
    match method {
        RequestMethod::Initialize { .. } => payload matches ResponsePayload::Success {
            result: RequestResult::Initialize(init),
        } && is_initialize_result(init),
        RequestMethod::Completion { params, .. } => payload matches ResponsePayload::Success {
            result: RequestResult::Completion(items),
        } && items@.len() == completion_names(docs, params).len() && forall|i: int|
            0 <= i < items@.len() ==> is_item_for(
                #[trigger] items@[i],
                completion_names(docs, params)[i],
            ),
        RequestMethod::Unknown { method, params } => payload matches ResponsePayload::Failure {
            error,
        } && error.code == ErrorCodes::MethodNotFound && error.data == params && exists|
            shown: Seq<char>,
        | error.message@ == unknown_method_text(method@, shown),
    }
}

/// Whether `request` can be answered without cutting a document inside a character.
pub open spec fn request_answerable(docs: Map<Seq<char>, Seq<char>>, method: RequestMethod) -> bool {
    method matches RequestMethod::Completion { params, .. } ==> cursor_on_char_boundary(
        docs,
        params,
    )
}

/// Answers `request`: `initialize` with the server's capabilities, a completion request with
/// the function names to suggest, any other method with a "method not found" error.
pub fn handle_request(docs: &DocumentStore, request: RequestMessage) -> (r: ResponseMessage<
    RequestResult,
>)
    requires
        request_answerable(docs@, request.method),
    ensures
        r.jsonrpc@ == jsonrpc_version(),
        r.id == request.id,
        answers(docs@, request.method, r.payload),
{
    let payload = match request.method {
        RequestMethod::Initialize { .. } => ResponsePayload::success(
            RequestResult::Initialize(
                InitializeResult {
                    capabilities: ServerCapabilities::default(),
                    server_info: Some(ServerInfo::default()),
                },
            ),
        ),
        RequestMethod::Completion { params, .. } => ResponsePayload::success(
            RequestResult::Completion(suggest_function_completions(docs, &params)),
        ),
        RequestMethod::Unknown { method, params } => {
            let shown = debug_params(&params);
            let message = unknown_method_message(method.as_str(), shown.as_str());
            ResponsePayload::failure(
                ResponseError { code: ErrorCodes::MethodNotFound, message, data: params },
            )
        },
    };
    ResponseMessage { jsonrpc: jsonrpc_version_string(), id: request.id, payload }
}

} // verus!
