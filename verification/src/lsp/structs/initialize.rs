use crate::lsp::structs::server_capabilities::ServerCapabilities;
use vstd::prelude::*;
use vstd::string::StringExecFns;

verus! {

/// The name the server reports of itself and puts on its diagnostics.
pub open spec fn server_name() -> Seq<char> {
    seq!['s', 'f', '_', 'f', 'o', 'r', 'm', 'u', 'l', 'a', '_', 'l', 's', 'p']
}

/// The version the server reports of itself.
pub open spec fn server_version() -> Seq<char> {
    seq!['0', '.', '1', '.', '0']
}

/// The name of the server, as a string.
pub fn server_name_string() -> (r: String)
    ensures
        r@ == server_name(),
{
    let r = String::from_str("sf_formula_lsp");
    proof {
        reveal_strlit("sf_formula_lsp");
    }
    assert(r@ =~= server_name());
    r
}

/// What the editor tells the server when it starts it.
#[derive(Debug, Clone)]
pub struct InitializeParams {
    /// The process id of the editor, if it started the server.
    pub process_id: Option<i32>,
    /// The workspace folders open in the editor, if it supports them.
    pub workspace_folders: Option<Vec<WorkspaceFolder>>,
}

/// The server's answer to `initialize`.
#[derive(Debug, Clone)]
pub struct InitializeResult {
    pub capabilities: ServerCapabilities,
    pub server_info: Option<ServerInfo>,
}

/// The server's name and version.
#[derive(Debug, Clone)]
pub struct ServerInfo {
    pub name: String,
    pub version: Option<String>,
}

impl Default for ServerInfo {
    fn default() -> (r: Self)
        ensures
            r.name@ == server_name(),
            r.version matches Some(v) && v@ == server_version(),
    {
        let version = String::from_str("0.1.0");
        proof {
            reveal_strlit("0.1.0");
        }
        assert(version@ =~= server_version());
        ServerInfo { name: server_name_string(), version: Some(version) }
    }
}

/// A folder open in the editor.
#[derive(Debug, Clone)]
pub struct WorkspaceFolder {
    pub uri: String,
    pub name: String,
}

} // verus!
