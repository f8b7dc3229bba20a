use crate::diagnostics::{best_suggestion, derive_best_suggestion, opt_view, HintContext, SuggestionV};
use crate::parse::error::{expected_text, label_text, Context, Expected, Label, ParseError};
use crate::parse::text::char_start;
use crate::strings::{hex, push_char, push_hex};
use crate::text_scan::{code_at, code_at_exec, utf8_width, utf8_width_exec};
use crate::token::Span;
use annotate_snippets::{AnnotationKind, Level, Patch, Renderer, Snippet};
use vstd::prelude::*;
use vstd::string::{StringExecFns, StringSliceAdditionalSpecFns};
use vstd::utf8::{
    is_char_boundary_iff_not_is_continuation_byte, is_continuation_byte, length_of_first_scalar,
    pop_first_scalar, valid_first_scalar, valid_utf8, valid_utf8_split,
};

verus! {

broadcast use vstd::utf8::encode_utf8_valid_utf8;

// ----- positions -----

/// The number of line feeds before byte offset `k`.
pub open spec fn newlines_before(s: Seq<u8>, k: int) -> nat
    decreases k,
{
    if k <= 0 || k > s.len() {
        0
    } else if s[k - 1] == 0x0au8 {
        newlines_before(s, k - 1) + 1
    } else {
        newlines_before(s, k - 1)
    }
}

/// The byte offset where the line holding offset `k` starts.
pub open spec fn line_start(s: Seq<u8>, k: int) -> int
    decreases k,
{
    if k <= 0 || k > s.len() {
        0
    } else if s[k - 1] == 0x0au8 {
        k
    } else {
        line_start(s, k - 1)
    }
}

/// The zero-based line and byte column of offset `o` (clamped to the end of the input).
pub open spec fn position_of(s: Seq<u8>, o: int) -> (int, int) {
    let c = if o < s.len() { o } else { s.len() as int };
    (newlines_before(s, c) as int, c - line_start(s, c))
}

pub proof fn lemma_line_start(s: Seq<u8>, k: int)
    requires
        0 <= k <= s.len(),
    ensures
        0 <= line_start(s, k) <= k,
        newlines_before(s, k) <= k,
    decreases k,
{
    if k > 0 {
        lemma_line_start(s, k - 1);
    }
}

/// The zero-based line and byte column of byte offset `offset`, which is clamped to the end
/// of `input`.
pub fn offset_to_position(input: &str, offset: usize) -> (r: (usize, usize))
    ensures
        r.0 == position_of(input.spec_bytes(), offset as int).0,
        r.1 == position_of(input.spec_bytes(), offset as int).1,
{
    let s = input.as_bytes();
    let clamped = if offset < s.len() { offset } else { s.len() };
    let mut line: usize = 0;
    let mut start: usize = 0;
    let mut i: usize = 0;
    while i < clamped
        invariant
            clamped <= s.len(),
            i <= clamped,
            line == newlines_before(s@, i as int),
            start == line_start(s@, i as int),
            line <= i,
            start <= i,
        decreases clamped - i,
    {
        if s[i] == 0x0au8 {
            line = line + 1;
            start = i + 1;
        }
        i = i + 1;
    }
    (line, clamped - start)
}

// ----- messages -----

/// The offset just past the character at `o`, or `o` itself when no character starts there.
pub open spec fn char_end(s: Seq<u8>, o: int) -> int {
    if 0 <= o < s.len() && char_start(s, o) {
        o + utf8_width(s[o])
    } else {
        o
    }
}

/// In well-formed UTF-8 the character at a character start fits in the input, and the next
/// character starts after it.
pub proof fn lemma_char_end(s: Seq<u8>, o: int)
    requires
        valid_utf8(s),
        char_start(s, o),
    ensures
        o <= char_end(s, o) <= s.len(),
        char_start(s, char_end(s, o)),
{
    if o < s.len() {
        is_char_boundary_iff_not_is_continuation_byte(s, o);
        valid_utf8_split(s, o);
        let b = s.subrange(o, s.len() as int);
        assert(valid_utf8(b));
        assert(valid_first_scalar(b));
        assert(b[0] == s[o]);
        assert(length_of_first_scalar(b) == utf8_width(s[o]));
        let rest = pop_first_scalar(b);
        assert(rest =~= s.subrange(char_end(s, o), s.len() as int));
        assert(valid_utf8(rest));
        if rest.len() > 0 {
            assert(valid_first_scalar(rest));
            assert(rest[0] == s[char_end(s, o)]);
        }
    }
}

/// `char::escape_default` of the scalar value `c`.
pub open spec fn escape_code(c: u32) -> Seq<char> {
    if c == 0x09 {
        "\\t"@
    } else if c == 0x0d {
        "\\r"@
    } else if c == 0x0a {
        "\\n"@
    } else if c == 0x5c {
        "\\\\"@
    } else if c == 0x27 {
        "\\'"@
    } else if c == 0x22 {
        "\\\""@
    } else if 0x20 <= c <= 0x7e {
        seq![c as char]
    } else {
        "\\u{"@ + hex(c as nat) + "}"@
    }
}

/// What the error message says of the text at offset `o`.
pub open spec fn unexpected_message(s: Seq<u8>, o: int) -> Seq<char> {
    if 0 <= o < s.len() && char_start(s, o) {
        "unexpected \""@ + escape_code(code_at(s, o)) + "\""@
    } else {
        "unexpected end of input"@
    }
}

fn push_escaped(out: &mut String, c: u32)
    ensures
        final(out)@ == old(out)@ + escape_code(c),
{
    if c == 0x09 {
        out.append("\\t");
    } else if c == 0x0d {
        out.append("\\r");
    } else if c == 0x0a {
        out.append("\\n");
    } else if c == 0x5c {
        out.append("\\\\");
    } else if c == 0x27 {
        out.append("\\'");
    } else if c == 0x22 {
        out.append("\\\"");
    } else if 0x20 <= c && c <= 0x7e {
        push_char(out, (c as u8) as char);
        proof {
            assert(final(out)@ =~= old(out)@ + seq![c as char]);
        }
    } else {
        out.append("\\u{");
        push_hex(out, c);
        out.append("}");
        proof {
            assert(final(out)@ =~= old(out)@ + ("\\u{"@ + hex(c as nat) + "}"@));
        }
    }
}

/// The message for a parse error at `offset`: the character found there, escaped, or the end
/// of the input.
pub fn unexpected_token_message(input: &str, offset: usize) -> (r: String)
    ensures
        r@ == unexpected_message(input.spec_bytes(), offset as int),
{
    let s = input.as_bytes();
    if offset < s.len() && !(0x80u8 <= s[offset] && s[offset] <= 0xbfu8) {
        let c = code_at_exec(s, offset);
        let mut out = String::from_str("unexpected \"");
        push_escaped(&mut out, c);
        out.append("\"");
        proof {
            assert(out@ =~= "unexpected \""@ + escape_code(code_at(s@, offset as int)) + "\""@);
        }
        out
    } else {
        String::from_str("unexpected end of input")
    }
}

// ----- the rendered report -----

/// The text annotate-snippets renders for an error report: a title, the source with a primary
/// annotation, notes, patch suggestions shown on the source, and help messages, in that order.
pub uninterp spec fn rendered_report(
    title: Seq<char>,
    source: Seq<char>,
    path: Seq<char>,
    span: Span,
    label: Seq<char>,
    notes: Seq<Seq<char>>,
    patches: Seq<(Span, Seq<char>)>,
    helps: Seq<Seq<char>>,
) -> Seq<char>;

/// Whether `t` holds only printable ASCII characters (space to `~`), which the renderer writes
/// unchanged and in one style.
pub open spec fn printable_ascii(t: Seq<char>) -> bool {
    forall|i: int| 0 <= i < t.len() ==> ' ' <= #[trigger] t[i] <= '~'
}

/// Whether `t` occurs in `s` as a contiguous stretch.
pub open spec fn contains_text(s: Seq<char>, t: Seq<char>) -> bool {
    exists|i: int| 0 <= i && i + t.len() <= s.len() && #[trigger] s.subrange(i, i + t.len()) == t
}

/// Whether `sp` lies within `s` and starts and ends at character starts.
pub open spec fn span_in(s: Seq<u8>, sp: Span) -> bool {
    sp.start <= sp.end <= s.len() && char_start(s, sp.start as int) && char_start(s, sp.end as int)
}

pub open spec fn strings_view(v: Seq<String>) -> Seq<Seq<char>> {
    v.map_values(|x: String| x@)
}

pub open spec fn patches_view(v: Seq<(Span, String)>) -> Seq<(Span, Seq<char>)> {
    v.map_values(|x: (Span, String)| (x.0, x.1@))
}

/// Renders an error report with annotate-snippets (`Renderer::styled().render`). The rendered
/// text is named `rendered_report` of the arguments; of what it holds, only this is stated: a
/// title of printable ASCII is written whole, on the report's first line after the level, in a
/// single style (so no escape code interrupts it).
#[verifier::external_body]
pub(crate) fn render_report(
    title: &str,
    source: &str,
    path: &str,
    span: Span,
    label: &str,
    notes: &Vec<String>,
    patches: &Vec<(Span, String)>,
    helps: &Vec<String>,
) -> (out: String)
    requires
        span_in(source.spec_bytes(), span),
        forall|i: int| 0 <= i < patches@.len() ==> span_in(source.spec_bytes(), #[trigger] patches@[i].0),
    ensures
        out@ == rendered_report(title@, source@, path@, span, label@, strings_view(notes@), patches_view(patches@), strings_view(helps@)),
        printable_ascii(title@) ==> contains_text(out@, title@),
{
    let group = Level::ERROR.primary_title(title)
        .element(Snippet::source(source).path(path).annotation(AnnotationKind::Primary.span(span.start..span.end).label(label)))
        .elements(notes.iter().map(|n| Level::NOTE.message(n)))
        .elements(patches.iter().map(|(sp, rep)| Snippet::source(source).path(path).patch(Patch::new(sp.start..sp.end, rep))))
        .elements(helps.iter().map(|h| Level::HELP.message(h)));
    Renderer::styled().render(&[group])
}

} // verus!
