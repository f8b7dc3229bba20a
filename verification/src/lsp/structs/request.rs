use crate::lsp::structs::initialize::InitializeParams;
use vstd::prelude::*;
use vstd::string::StringExecFns;

verus! {

/// A JSON value that the server passes through without looking inside.
#[verifier::external_type_specification]
#[verifier::external_body]
pub struct ExJsonValue(serde_json::Value);

/// The id of a request, a number or a string.
#[derive(Debug, Clone, PartialEq, Eq)]
pub enum RequestId {
    Int(i64),
    Str(String),
}

impl RequestId {
    /// A copy of this id.
    pub fn duplicate(&self) -> (r: RequestId)
        ensures
            r == *self,
    {
        match self {
            RequestId::Int(n) => RequestId::Int(*n),
            RequestId::Str(s) => RequestId::Str(s.clone()),
        }
    }
}

/// A request from the editor, which expects a response.
#[derive(Debug, Clone)]
pub struct RequestMessage {
    /// The request id.
    pub id: RequestId,
    pub method: RequestMethod,
}

impl RequestMessage {
    /// The response to this request that carries `response`.
    pub fn reply_with<T>(&self, response: ResponsePayload<T>) -> (r: ResponseMessage<T>)
        ensures
            r.jsonrpc@ == jsonrpc_version(),
            r.id == self.id,
            r.payload == response,
    {
        ResponseMessage { jsonrpc: jsonrpc_version_string(), id: self.id.duplicate(), payload: response }
    }
}

/// The protocol version every message names.
pub open spec fn jsonrpc_version() -> Seq<char> {
    seq!['2', '.', '0']
}

pub fn jsonrpc_version_string() -> (r: String)
    ensures
        r@ == jsonrpc_version(),
{
    let r = String::from_str("2.0");
    proof {
        reveal_strlit("2.0");
    }
    assert(r@ =~= jsonrpc_version());
    r
}

/// The method of a request, with its parameters.
#[derive(Debug, Clone)]
pub enum RequestMethod {
    /// `initialize`
    Initialize { method: InitializeMethod, params: InitializeParams },
    /// `textDocument/completion`
    Completion { method: CompletionMethod, params: CompletionParams },
    /// Any other method.
    Unknown { method: String, params: Option<serde_json::Value> },
}

/// The method name `initialize`.
#[derive(Debug, Clone, Copy, PartialEq, Eq)]
pub enum InitializeMethod {
    Value,
}

/// The method name `textDocument/completion`.
#[derive(Debug, Clone, Copy, PartialEq, Eq)]
pub enum CompletionMethod {
    Value,
}

/// The parameters of `textDocument/didOpen`.
#[derive(Debug, Clone)]
pub struct DidOpenTextDocumentParams {
    pub text_document: TextDocumentItem,
}

/// A document as the editor opened it.
#[derive(Debug, Clone)]
pub struct TextDocumentItem {
    pub uri: String,
    pub version: i32,
    pub text: String,
}

/// The parameters of `textDocument/didChange`.
#[derive(Debug, Clone)]
pub struct DidChangeTextDocumentParams {
    pub text_document: VersionedTextDocumentIdentifier,
    pub content_changes: Vec<TextDocumentContentChangeEvent>,
}

/// A document and the version it has after a change.
#[derive(Debug, Clone)]
pub struct VersionedTextDocumentIdentifier {
    pub uri: String,
    pub version: i32,
}

/// A change to a document: with full sync, its whole new text.
#[derive(Debug, Clone)]
pub struct TextDocumentContentChangeEvent {
    pub text: String,
}

/// The parameters of `textDocument/completion`.
#[derive(Debug, Clone)]
pub struct CompletionParams {
    pub text_document: TextDocumentIdentifier,
    pub position: Position,
}

/// A document, by its URI.
#[derive(Debug, Clone)]
pub struct TextDocumentIdentifier {
    pub uri: String,
}

/// A place in a document: a zero-based line and a byte offset within it.
#[derive(Debug, Clone, Copy, PartialEq, Eq)]
pub struct Position {
    pub line: usize,
    pub character: usize,
}

/// The id of a response: a number, a string, or none.
#[derive(Debug, Clone, PartialEq, Eq)]
pub enum ResponseId {
    Int(i64),
    Str(String),
    /// An id of `null`.
    Null,
}

/// The `error` object of a response.
#[derive(Debug, Clone)]
pub struct ResponseError {
    pub code: ErrorCodes,
    pub message: String,
    pub data: Option<serde_json::Value>,
}

/// The error codes of the protocol.
#[derive(Debug, Clone, Copy, PartialEq, Eq)]
pub enum ErrorCodes {
    ParseError,
    InvalidRequest,
    MethodNotFound,
    InvalidParams,
    InternalError,
}

impl ErrorCodes {
    /// The number of the code.
    pub fn code(&self) -> (r: i64)
        ensures
            r == match *self {
                ErrorCodes::ParseError => -32700,
                ErrorCodes::InvalidRequest => -32600,
                ErrorCodes::MethodNotFound => -32601,
                ErrorCodes::InvalidParams => -32602,
                ErrorCodes::InternalError => -32603,
            },
    {
        match self {
            ErrorCodes::ParseError => -32700,
            ErrorCodes::InvalidRequest => -32600,
            ErrorCodes::MethodNotFound => -32601,
            ErrorCodes::InvalidParams => -32602,
            ErrorCodes::InternalError => -32603,
        }
    }
}

/// What a response carries: a result or an error, never both.
#[derive(Debug, Clone)]
pub enum ResponsePayload<T> {
    Success { result: T },
    Failure { error: ResponseError },
}

impl<T> ResponsePayload<T> {
    pub fn success(result: T) -> (r: Self)
        ensures
            r == (ResponsePayload::<T>::Success { result }),
    {
        ResponsePayload::Success { result }
    }

    pub fn failure(error: ResponseError) -> (r: Self)
        ensures
            r == (ResponsePayload::<T>::Failure { error }),
    {
        ResponsePayload::Failure { error }
    }
}

/// A response to a request.
#[derive(Debug, Clone)]
pub struct ResponseMessage<T> {
    pub jsonrpc: String,
    pub id: RequestId,
    pub payload: ResponsePayload<T>,
}

} // verus!
