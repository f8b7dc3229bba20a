use crate::function_names::{
    all_function_names, function_description, function_name_text, FunctionName, FUNCTION_COUNT,
};
use crate::lsp::documents::DocumentStore;
use crate::parse::expression::op_at;
use crate::lsp::position::{lemma_offset_at_bounds, offset_at, offset_for_position};
use crate::lsp::structs::request::CompletionParams;
use crate::parse::text::{char_start, text, text_of};
use crate::parse::utils::is_alnum;
use crate::strings::push_char;
use vstd::prelude::*;
use vstd::string::{StrSliceExecFns, StringExecFns, StringSliceAdditionalSpecFns};
use vstd::utf8::encode_utf8;

verus! {

// ----- the word before the cursor -----

/// Bytes that may occur in the name being typed.
pub open spec fn is_ident_byte(b: u8) -> bool {
    is_alnum(b) || b == 0x5fu8
}

/// Where the run of name bytes that ends at `e` starts.
pub open spec fn ident_start(s: Seq<u8>, e: int) -> int
    decreases e,
{
    if e <= 0 || e > s.len() {
        e
    } else if is_ident_byte(s[e - 1]) {
        ident_start(s, e - 1)
    } else {
        e
    }
}

proof fn lemma_ident_start(s: Seq<u8>, e: int)
    requires
        0 <= e <= s.len(),
    ensures
        0 <= ident_start(s, e) <= e,
        forall|i: int| ident_start(s, e) <= i < e ==> is_ident_byte(#[trigger] s[i]),
    decreases e,
{
    if e > 0 && is_ident_byte(s[e - 1]) {
        lemma_ident_start(s, e - 1);
    }
}

pub open spec fn clamp(o: int, n: int) -> int {
    if o < n {
        o
    } else {
        n
    }
}

/// The name being typed before `cursor_offset` (clamped to the end of `text`), and the offset
/// where it starts.
pub fn extract_identifier_prefix(text: &str, cursor_offset: usize) -> (r: (String, usize))
    requires
        char_start(text.spec_bytes(), clamp(cursor_offset as int, text.spec_bytes().len() as int)),
    ensures
        ({
            let s = text.spec_bytes();
            let e = clamp(cursor_offset as int, s.len() as int);
            &&& r.1 == ident_start(s, e)
            &&& r.0@ == crate::parse::text::text(s, r.1 as int, e)
        }),
{
    let bytes = text.as_bytes();
    let end = if cursor_offset < bytes.len() {
        cursor_offset
    } else {
        bytes.len()
    };
    let mut start = end;
    while start > 0 && (is_alnum_exec(bytes[start - 1]) || bytes[start - 1] == 0x5fu8)
        invariant
            start <= end <= bytes@.len(),
            ident_start(bytes@, end as int) == ident_start(bytes@, start as int),
        decreases start,
    {
        start = start - 1;
    }
    proof {
        lemma_ident_start(bytes@, end as int);
        if start < end {
            assert(is_ident_byte(bytes@[start as int]));
        }
    }
    (text_of(text, bytes, start, end), start)
}

fn is_alnum_exec(b: u8) -> (r: bool)
    ensures
        r == is_alnum(b),
{
    (0x41u8 <= b && b <= 0x5au8) || (0x61u8 <= b && b <= 0x7au8) || (0x30u8 <= b && b <= 0x39u8)
}

// ----- where a function may be named -----

/// ASCII whitespace as std's `u8::is_ascii_whitespace` has it.
pub open spec fn is_ascii_ws(b: u8) -> bool {
    b == 0x20u8 || b == 0x09u8 || b == 0x0au8 || b == 0x0cu8 || b == 0x0du8
}

/// The offset before the whitespace that ends at `i`.
pub open spec fn skip_ws_back(s: Seq<u8>, i: int) -> int
    decreases i,
{
    if i <= 0 || i > s.len() {
        i
    } else if is_ascii_ws(s[i - 1]) {
        skip_ws_back(s, i - 1)
    } else {
        i
    }
}

/// Bytes after which an expression, and so a function call, may start.
pub open spec fn opens_operand(b: u8) -> bool {
    b == 0x28u8 || b == 0x2cu8 || b == 0x3du8 || b == 0x2bu8 || b == 0x2du8 || b == 0x2au8
        || b == 0x2fu8 || b == 0x26u8 || b == 0x7cu8 || b == 0x21u8 || b == 0x3cu8 || b
        == 0x3eu8 || b == 0x5eu8
}

/// Whether a name starting at `ident_start` stands where a function call may: at the start
/// of the text or after an opening bracket, a comma or an operator, with only whitespace
/// between.
pub open spec fn function_context(s: Seq<u8>, ident_start: int) -> bool {
    let i = skip_ws_back(s, clamp(ident_start, s.len() as int));
    i <= 0 || opens_operand(s[i - 1])
}

/// Whether an operator, as the grammar reads it, starts at `k` and ends with the byte at `j`.
pub open spec fn op_ends_at(s: Seq<u8>, k: int, j: int) -> bool {
    match op_at(s, k) {
        Some((_, _, len)) => k + len - 1 == j,
        None => false,
    }
}

/// A function may be named wherever an operand may start: at the start of the text, or after
/// an operator (as the grammar reads it), an opening bracket, a comma or a unary `!`, with only
/// whitespace (space, tab, line feed, form feed, carriage return) between.
pub proof fn lemma_function_may_follow(s: Seq<u8>, i: int, j: int)
    requires
        0 <= j < i <= s.len(),
        forall|k: int|
            j < k < i ==> (#[trigger] s[k] == 0x20u8 || s[k] == 0x09u8 || s[k] == 0x0au8 || s[k]
                == 0x0cu8 || s[k] == 0x0du8),
        s[j] == 0x28u8 || s[j] == 0x2cu8 || s[j] == 0x21u8 || exists|k: int|
            0 <= k <= j && #[trigger] op_ends_at(s, k, j),
    ensures
        function_context(s, i),
{
    lemma_skip_ws_back(s, i, j);
    if !(s[j] == 0x28u8 || s[j] == 0x2cu8 || s[j] == 0x21u8) {
        let k = choose|k: int|
            0 <= k <= j && #[trigger] op_ends_at(s, k, j);
        assert(opens_operand(s[j]));
    }
}

/// Only whitespace before the text: a function may be named.
pub proof fn lemma_function_may_start(s: Seq<u8>, i: int)
    requires
        0 <= i <= s.len(),
        forall|k: int|
            0 <= k < i ==> (#[trigger] s[k] == 0x20u8 || s[k] == 0x09u8 || s[k] == 0x0au8 || s[k]
                == 0x0cu8 || s[k] == 0x0du8),
    ensures
        function_context(s, i),
    decreases i,
{
    if i > 0 {
        lemma_function_may_start(s, i - 1);
    }
}

proof fn lemma_skip_ws_back(s: Seq<u8>, i: int, j: int)
    requires
        0 <= j < i <= s.len(),
        forall|k: int|
            j < k < i ==> (#[trigger] s[k] == 0x20u8 || s[k] == 0x09u8 || s[k] == 0x0au8 || s[k]
                == 0x0cu8 || s[k] == 0x0du8),
        !(s[j] == 0x20u8 || s[j] == 0x09u8 || s[j] == 0x0au8 || s[j] == 0x0cu8 || s[j] == 0x0du8),
    ensures
        skip_ws_back(s, i) == j + 1,
    decreases i,
{
    if i > j + 1 {
        lemma_skip_ws_back(s, i - 1, j);
    }
}

/// Whether a name starting at `ident_start` in `text` stands where a function call may.
pub fn is_function_context(text: &str, ident_start: usize) -> (r: bool)
    ensures
        r == function_context(text.spec_bytes(), ident_start as int),
{
    let bytes = text.as_bytes();
    let mut idx = if ident_start < bytes.len() {
        ident_start
    } else {
        bytes.len()
    };
    while idx > 0 && is_ascii_ws_exec(bytes[idx - 1])
        invariant
            idx <= bytes@.len(),
            skip_ws_back(bytes@, idx as int) == skip_ws_back(
                bytes@,
                clamp(ident_start as int, bytes@.len() as int),
            ),
        decreases idx,
    {
        idx = idx - 1;
    }
    if idx == 0 {
        return true;
    }
    let b = bytes[idx - 1];
    b == 0x28u8 || b == 0x2cu8 || b == 0x3du8 || b == 0x2bu8 || b == 0x2du8 || b == 0x2au8 || b
        == 0x2fu8 || b == 0x26u8 || b == 0x7cu8 || b == 0x21u8 || b == 0x3cu8 || b == 0x3eu8 || b
        == 0x5eu8
}

fn is_ascii_ws_exec(b: u8) -> (r: bool)
    ensures
        r == is_ascii_ws(b),
{
    b == 0x20u8 || b == 0x09u8 || b == 0x0au8 || b == 0x0cu8 || b == 0x0du8
}

// ----- matching names -----

/// `c` in upper case, when it is an ASCII letter.
pub open spec fn char_upper(c: char) -> char {
    if 'a' <= c <= 'z' {
        ((c as int) - 32) as char
    } else {
        c
    }
}

pub open spec fn upper_chars(p: Seq<char>) -> Seq<char> {
    Seq::new(p.len(), |i: int| char_upper(p[i]))
}

pub open spec fn starts_with(t: Seq<char>, p: Seq<char>) -> bool {
    p.len() <= t.len() && t.subrange(0, p.len() as int) == p
}

/// The functions among `names`, in their order, whose names start with `p`.
pub open spec fn matching_names(names: Seq<FunctionName>, p: Seq<char>) -> Seq<FunctionName>
    decreases names.len(),
{
    if names.len() == 0 {
        seq![]
    } else if starts_with(function_name_text(names.last()), p) {
        matching_names(names.drop_last(), p).push(names.last())
    } else {
        matching_names(names.drop_last(), p)
    }
}

/// The names offered are exactly those of `names` that start with `p`.
pub proof fn lemma_matching_names(names: Seq<FunctionName>, p: Seq<char>, f: FunctionName)
    ensures
        matching_names(names, p).contains(f) <==> names.contains(f) && starts_with(
            function_name_text(f),
            p,
        ),
    decreases names.len(),
{
    if names.len() > 0 {
        let rest = names.drop_last();
        lemma_matching_names(rest, p, f);
        let m = matching_names(rest, p);
        assert(names =~= rest.push(names.last()));
        if names.contains(f) && f != names.last() {
            let i = choose|i: int| 0 <= i < names.len() && names[i] == f;
            assert(rest[i] == f);
        }
        if starts_with(function_name_text(names.last()), p) {
            assert(m.push(names.last())[m.len() as int] == names.last());
            if m.contains(f) {
                let i = choose|i: int| 0 <= i < m.len() && m[i] == f;
                assert(m.push(names.last())[i] == f);
            }
            if m.push(names.last()).contains(f) && f != names.last() {
                let i = choose|i: int| 0 <= i < m.len() + 1 && m.push(names.last())[i] == f;
                assert(m[i] == f);
            }
        }
    }
}

/// Every name offered starts with `p`.
pub proof fn lemma_matching_names_start_with(names: Seq<FunctionName>, p: Seq<char>)
    ensures
        forall|i: int|
            0 <= i < matching_names(names, p).len() ==> starts_with(
                function_name_text(#[trigger] matching_names(names, p)[i]),
                p,
            ),
    decreases names.len(),
{
    if names.len() > 0 {
        let rest = names.drop_last();
        lemma_matching_names_start_with(rest, p);
        let m = matching_names(rest, p);
        assert forall|i: int| 0 <= i < matching_names(names, p).len() implies starts_with(
            function_name_text(#[trigger] matching_names(names, p)[i]),
            p,
        ) by {
            if i < m.len() {
                assert(matching_names(names, p)[i] == m[i]);
            }
        }
    }
}

fn upper_exec(p: &str) -> (r: String)
    ensures
        r@ == upper_chars(p@),
{
    let n = p.unicode_len();
    let mut out = String::new();
    let mut i: usize = 0;
    while i < n
        invariant
            n == p@.len(),
            i <= n,
            out@ == upper_chars(p@.subrange(0, i as int)),
        decreases n - i,
    {
        let c = p.get_char(i);
        let u = if 'a' <= c && c <= 'z' {
            ((c as u8) - 32) as char
        } else {
            c
        };
        push_char(&mut out, u);
        assert(upper_chars(p@.subrange(0, i + 1)) =~= upper_chars(p@.subrange(0, i as int)).push(
            char_upper(p@[i as int]),
        ));
        i = i + 1;
    }
    assert(p@.subrange(0, n as int) =~= p@);
    out
}

fn starts_with_exec(t: &str, p: &str) -> (r: bool)
    ensures
        r == starts_with(t@, p@),
{
    let n = p.unicode_len();
    let m = t.unicode_len();
    if n > m {
        return false;
    }
    let mut i: usize = 0;
    while i < n
        invariant
            n == p@.len(),
            m == t@.len(),
            n <= m,
            i <= n,
            forall|j: int| 0 <= j < i ==> t@[j] == p@[j],
        decreases n - i,
    {
        if t.get_char(i) != p.get_char(i) {
            assert(t@.subrange(0, n as int)[i as int] != p@[i as int]);
            return false;
        }
        i = i + 1;
    }
    assert(t@.subrange(0, n as int) =~= p@);
    true
}

// ----- completion items -----

/// A suggestion offered to the editor.
#[derive(Debug, Clone)]
pub struct CompletionItem {
    pub label: String,
    /// The kind of the suggestion; functions are kind 3.
    pub kind: u8,
    pub detail: Option<String>,
    pub documentation: Option<String>,
    pub insert_text: Option<String>,
}

/// The suggestion of the function `f`: its name, described, inserted with empty brackets.
pub open spec fn is_item_for(item: CompletionItem, f: FunctionName) -> bool {
    &&& item.label@ == function_name_text(f)
    &&& item.kind == 3
    &&& item.detail is None
    &&& item.documentation matches Some(d) && d@ == function_description(f)
    &&& item.insert_text matches Some(t) && t@ == function_name_text(f) + seq!['(', ')']
}

impl CompletionItem {
    /// The suggestion of the function `function_name`.
    pub fn function(function_name: FunctionName) -> (r: CompletionItem)
        ensures
            is_item_for(r, function_name),
    {
        let name = function_name.as_str();
        let documentation = match function_name.description() {
            Some(d) => Some(String::from_str(d)),
            None => None,
        };
        let mut insert = String::from_str(name);
        insert.append("()");
        proof {
            reveal_strlit("()");
        }
        assert(insert@ =~= function_name_text(function_name) + seq!['(', ')']);
        CompletionItem {
            label: String::from_str(name),
            kind: 3,
            detail: None,
            documentation,
            insert_text: Some(insert),
        }
    }
}

// ----- suggesting -----

/// The functions suggested for `params` when the open documents are `docs`: none unless the
/// document is open, the position is in it and a function may be named there; else those
/// whose names start with the name being typed, in upper case.
pub open spec fn completion_names(
    docs: Map<Seq<char>, Seq<char>>,
    params: CompletionParams,
) -> Seq<FunctionName> {
    let uri = params.text_document.uri@;
    if !docs.contains_key(uri) {
        seq![]
    } else {
        let s = encode_utf8(docs[uri]);
        match offset_at(s, params.position.line as nat, params.position.character as nat) {
            None => seq![],
            Some(o) => {
                let st = ident_start(s, o);
                if function_context(s, st) {
                    matching_names(all_function_names(), upper_chars(text(s, st, o)))
                } else {
                    seq![]
                }
            },
        }
    }
}

/// Whether the position of `params` falls on a character boundary of its document (the name
/// before it is cut out of the document there).
pub open spec fn cursor_on_char_boundary(
    docs: Map<Seq<char>, Seq<char>>,
    params: CompletionParams,
) -> bool {
    let uri = params.text_document.uri@;
    docs.contains_key(uri) ==> {
        let s = encode_utf8(docs[uri]);
        offset_at(s, params.position.line as nat, params.position.character as nat) matches Some(
            o,
        ) ==> char_start(s, o)
    }
}

/// The function names to suggest at the position of `params` in the open documents `docs`.
pub fn suggest_function_completions(docs: &DocumentStore, params: &CompletionParams) -> (r: Vec<
    CompletionItem,
>)
    requires
        cursor_on_char_boundary(docs@, *params),
    ensures
        r@.len() == completion_names(docs@, *params).len(),
        forall|i: int| 0 <= i < r@.len() ==> is_item_for(#[trigger] r@[i], completion_names(docs@, *params)[i]),
{
    let doc = match docs.get(&params.text_document.uri) {
        Some(d) => d,
        None => return Vec::new(),
    };
    let text = doc.as_str();
    let offset = match offset_for_position(text, params.position.line, params.position.character) {
        Some(o) => o,
        None => return Vec::new(),
    };
    proof {
        lemma_offset_at_bounds(text.spec_bytes(), params.position.line as nat, params.position.character as nat);
    }
    let (prefix, start) = extract_identifier_prefix(text, offset);
    if !is_function_context(text, start) {
        return Vec::new();
    }
    let upper = upper_exec(prefix.as_str());
    let names = FunctionName::all();
    let ghost target = completion_names(docs@, *params);
    assert(target == matching_names(all_function_names(), upper@));
    let mut out: Vec<CompletionItem> = Vec::new();
    let mut i: usize = 0;
    while i < names.len()
        invariant
            names@ == all_function_names(),
            i <= names@.len(),
            out@.len() == matching_names(names@.subrange(0, i as int), upper@).len(),
            forall|j: int|
                0 <= j < out@.len() ==> is_item_for(
                    #[trigger] out@[j],
                    matching_names(names@.subrange(0, i as int), upper@)[j],
                ),
        decreases names@.len() - i,
    {
        let f = names[i];
        let ghost before = matching_names(names@.subrange(0, i as int), upper@);
        assert(names@.subrange(0, i + 1).drop_last() =~= names@.subrange(0, i as int));
        if starts_with_exec(f.as_str(), upper.as_str()) {
            out.push(CompletionItem::function(f));
        }
        i = i + 1;
    }
    assert(names@.subrange(0, names@.len() as int) =~= names@);
    out
}

} // verus!
