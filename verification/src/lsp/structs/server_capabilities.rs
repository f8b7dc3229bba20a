use vstd::prelude::*;

verus! {

/// What the server offers to the editor.
#[derive(Debug, Clone)]
pub struct ServerCapabilities {
    pub position_encoding: PositionEncodingKind,
    pub text_document_sync: Option<TextDocumentSyncOptions>,
}

impl Default for ServerCapabilities {
    /// Positions counted in UTF-8 bytes; documents synced in full, with open and close
    /// notifications.
    fn default() -> (r: Self)
        ensures
            r.position_encoding == PositionEncodingKind::UTF8,
            r.text_document_sync == Some(
                TextDocumentSyncOptions { open_close: Some(true), change: TextDocumentSyncKind::Full },
            ),
    {
        ServerCapabilities {
            position_encoding: PositionEncodingKind::UTF8,
            text_document_sync: Some(
                TextDocumentSyncOptions { open_close: Some(true), change: TextDocumentSyncKind::Full },
            ),
        }
    }
}

/// How the characters of a line are counted in positions.
#[derive(Debug, Clone, Copy, PartialEq, Eq)]
pub enum PositionEncodingKind {
    UTF8,
    UTF16,
    UTF32,
}

/// How documents are synced from the editor.
#[derive(Debug, Clone, Copy, PartialEq, Eq)]
pub struct TextDocumentSyncOptions {
    /// Whether open and close notifications are sent.
    pub open_close: Option<bool>,
    pub change: TextDocumentSyncKind,
}

/// What a change notification carries.
#[derive(Debug, Clone, Copy, PartialEq, Eq)]
pub enum TextDocumentSyncKind {
    /// Documents are not synced.
    Unsynced,
    /// The full text of the document.
    Full,
    /// The full text on open, then only the changed ranges.
    Incremental,
}

impl Default for TextDocumentSyncKind {
    fn default() -> (r: Self)
        ensures
            r == TextDocumentSyncKind::Unsynced,
    {
        TextDocumentSyncKind::Unsynced
    }
}

} // verus!
