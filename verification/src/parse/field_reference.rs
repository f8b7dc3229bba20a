use crate::parse::text::{char_start, lemma_after_ascii_char_start, text, text_of};
use crate::parse::utils::{is_alnum, is_alpha, is_alpha_byte, is_digit_byte, skip_trivia, trivia_end, lemma_trivia_end};
use crate::token::{span, FieldReference, Span};
use vstd::prelude::*;
use vstd::string::StringSliceAdditionalSpecFns;

verus! {

broadcast use vstd::utf8::encode_utf8_valid_utf8;

pub open spec fn is_name_tail(b: u8) -> bool {
    is_alnum(b) || b == 0x5fu8
}

/// The end of the run of letters, digits and underscores that starts at `p`.
pub open spec fn name_tail_end(s: Seq<u8>, p: int) -> int
    decreases s.len() - p,
{
    if 0 <= p < s.len() && is_name_tail(s[p]) {
        name_tail_end(s, p + 1)
    } else {
        p
    }
}

/// The end of the field name that starts at `p`: a letter followed by letters, digits and
/// underscores.
pub open spec fn field_name_end(s: Seq<u8>, p: int) -> Option<int> {
    if 0 <= p < s.len() && is_alpha(s[p]) {
        Some(name_tail_end(s, p + 1))
    } else {
        None
    }
}

pub proof fn lemma_name_tail_end(s: Seq<u8>, p: int)
    requires
        0 <= p <= s.len(),
    ensures
        p <= name_tail_end(s, p) <= s.len(),
        forall|i: int| p <= i < name_tail_end(s, p) ==> is_name_tail(#[trigger] s[i]),
    decreases s.len() - p,
{
    if p < s.len() && is_name_tail(s[p]) {
        lemma_name_tail_end(s, p + 1);
    }
}

/// The names that follow `e` as `.name` segments, and where the last one ends.
pub open spec fn field_chain(s: Seq<u8>, e: int) -> (Seq<Seq<char>>, int)
    decreases s.len() - e,
{
    if 0 <= e && e + 1 < s.len() && s[e] == 0x2eu8 && is_alpha(s[e + 1]) {
        let e2 = name_tail_end(s, e + 2);
        proof {
            lemma_name_tail_end(s, e + 2);
        }
        let (rest, end) = field_chain(s, e2);
        (seq![text(s, e + 1, e2)] + rest, end)
    } else {
        (Seq::empty(), e)
    }
}

/// A dotted field reference with the whitespace and comments around it: all of its names,
/// its span, and where parsing continues.
pub open spec fn field_ref_spec(s: Seq<u8>, p: int) -> Option<(Seq<Seq<char>>, Span, int)> {
    let t = trivia_end(s, p);
    match field_name_end(s, t) {
        Some(e) => {
            let (rest, end) = field_chain(s, e);
            Some((seq![text(s, t, e)] + rest, span(t, end), trivia_end(s, end)))
        },
        None => None,
    }
}

/// What a field reference keeps of its names: a reference holds at most the first two.
pub open spec fn kept_names(names: Seq<Seq<char>>) -> Seq<Seq<char>> {
    names.take(if names.len() < 2 { names.len() as int } else { 2 })
}

pub proof fn lemma_field_chain(s: Seq<u8>, e: int)
    requires
        0 < e <= s.len(),
        s[e - 1] < 0x80u8,
    ensures
        e <= field_chain(s, e).1 <= s.len(),
        s[field_chain(s, e).1 - 1] < 0x80u8,
    decreases s.len() - e,
{
    if e + 1 < s.len() && s[e] == 0x2eu8 && is_alpha(s[e + 1]) {
        lemma_name_tail_end(s, e + 2);
        let e2 = name_tail_end(s, e + 2);
        if e2 > e + 2 {
            assert(is_name_tail(s[e2 - 1]));
        }
        lemma_field_chain(s, e2);
    }
}

/// Where a field reference ends: past where it started, after an ASCII byte.
pub proof fn lemma_field_ref(s: Seq<u8>, p: int)
    requires
        0 <= p <= s.len() <= usize::MAX,
    ensures
        field_ref_spec(s, p) matches Some((names, sp, q)) ==> p < q <= s.len() && s[q - 1]
            < 0x80u8 && p <= sp.start < sp.end <= q,
{
    lemma_trivia_end(s, p);
    let t = trivia_end(s, p);
    if let Some(e) = field_name_end(s, t) {
        lemma_name_tail_end(s, t + 1);
        if e > t + 1 {
            assert(is_name_tail(s[e - 1]));
        } else {
            assert(is_alpha(s[e - 1]));
        }
        lemma_field_chain(s, e);
        let end = field_chain(s, e).1;
        lemma_trivia_end(s, end);
    }
}

impl FieldReference {
    /// A reference to the single field `field`.
    pub fn new(field: &str) -> (r: Self)
        ensures
            r.field@ == field@,
            r.next is None,
            r@ == seq![field@],
    {
        let r = FieldReference { field: field.to_owned(), next: None };
        proof {
            assert(r@ =~= seq![field@]);
        }
        r
    }

    /// Follows this field through `next`, unless it already leads somewhere.
    pub fn with_next(self, next: FieldReference) -> (r: Self)
        ensures
            self.next is None ==> r.field == self.field && r.next == Some(Box::new(next)),
            self.next is Some ==> r == self,
            self.next is None ==> r@ == seq![self.field@] + next@,
    {
        let mut this = self;
        if this.next.is_none() {
            this.next = Some(Box::new(next));
        }
        this
    }

    /// Chains the names in order. As each name is attached with `with_next`, a reference keeps
    /// only the first two names; `None` when there are no names.
    pub fn from_iter(names: &[&str]) -> (r: Option<Self>)
        ensures
            names@.len() == 0 <==> r is None,
            r matches Some(f) ==> f@ == kept_names(names@.map_values(|n: &str| n@)),
    {
        let ghost views = names@.map_values(|n: &str| n@);
        let mut acc: Option<FieldReference> = None;
        let mut i: usize = 0;
        while i < names.len()
            invariant
                i <= names.len(),
                views == names@.map_values(|n: &str| n@),
                i == 0 <==> acc is None,
                acc matches Some(f) ==> f@ == kept_names(views.take(i as int)),
                acc matches Some(f) ==> (f.next is None <==> i == 1),
            decreases names.len() - i,
        {
            let piece = FieldReference::new(names[i]);
            acc = match acc {
                Some(f) => {
                    let had_next = f.next.is_some();
                    let g = f.with_next(piece);
                    proof {
                        if !had_next {
                            assert(kept_names(views.take(i + 1)) =~= views.take(2));
                            assert(views.take(1) =~= seq![views[0]]);
                            assert(kept_names(views.take(i as int)) =~= views.take(1));
                        } else {
                            assert(kept_names(views.take(i + 1)) =~= kept_names(views.take(i as int)));
                        }
                    }
                    Some(g)
                },
                None => {
                    proof {
                        assert(kept_names(views.take(1)) =~= seq![views[0]]);
                    }
                    Some(piece)
                },
            };
            i = i + 1;
        }
        proof {
            assert(views.take(names.len() as int) =~= views);
        }
        acc
    }
}

fn name_tail_end_exec(b: &[u8], p: usize) -> (r: usize)
    requires
        p <= b.len(),
    ensures
        r == name_tail_end(b@, p as int),
{
    let mut i = p;
    while i < b.len() && (is_alpha_byte(b[i]) || is_digit_byte(b[i]) || b[i] == 0x5fu8)
        invariant
            p <= i <= b.len(),
            name_tail_end(b@, p as int) == name_tail_end(b@, i as int),
        decreases b.len() - i,
    {
        i = i + 1;
    }
    i
}

/// Recognises a field name at `p` (no surrounding whitespace), returning its text and end.
pub fn parse_field_name(input: &str, pos: usize) -> (r: Option<(String, usize)>)
    ensures
        r matches Some((name, e)) ==> field_name_end(input.spec_bytes(), pos as int) == Some(
            e as int,
        ) && name@ == text(input.spec_bytes(), pos as int, e as int),
        r is None ==> field_name_end(input.spec_bytes(), pos as int) is None,
{
    let b = input.as_bytes();
    if pos < b.len() && is_alpha_byte(b[pos]) {
        let e = name_tail_end_exec(b, pos + 1);
        proof {
            lemma_name_tail_end(b@, pos + 1);
            lemma_after_ascii_char_start(b@, e as int);
            if e > pos + 1 {
                assert(crate::parse::field_reference::is_name_tail(b@[e - 1]));
            }
        }
        Some((text_of(input, b, pos, e), e))
    } else {
        None
    }
}

/// Builds the field reference for `names`, as `from_iter` does.
fn chain_names(names: Vec<String>) -> (r: FieldReference)
    requires
        names@.len() >= 1,
    ensures
        r@ == kept_names(names@.map_values(|n: String| n@)),
{
    let ghost views = names@.map_values(|n: String| n@);
    let mut f = FieldReference { field: names[0].clone(), next: None };
    proof {
        assert(f@ =~= seq![names@[0]@]);
    }
    if names.len() >= 2 {
        let second = FieldReference { field: names[1].clone(), next: None };
        proof {
            assert(second@ =~= seq![names@[1]@]);
        }
        f = f.with_next(second);
        proof {
            assert(kept_names(views) =~= seq![views[0], views[1]]);
        }
    } else {
        proof {
            assert(kept_names(views) =~= seq![views[0]]);
        }
    }
    f
}

/// Recognises a dotted field reference at `p` with the whitespace and comments around it.
pub(crate) fn field_ref_exec(src: &str, b: &[u8], p: usize) -> (r: Option<(FieldReference, Span, usize)>)
    requires
        b@ == src.spec_bytes(),
        p <= b.len(),
    ensures
        r matches Some((f, sp, q)) ==> field_ref_spec(b@, p as int) matches Some((names, sp2, q2))
            && f@ == kept_names(names) && sp == sp2 && q == q2,
        r is None ==> field_ref_spec(b@, p as int) is None,
{
    let ghost s = b@;
    let t = skip_trivia(b, p);
    proof {
        lemma_trivia_end(s, p as int);
    }
    if !(t < b.len() && is_alpha_byte(b[t])) {
        return None;
    }
    let e = name_tail_end_exec(b, t + 1);
    proof {
        lemma_name_tail_end(s, t + 1);
        if e > t + 1 {
            assert(is_name_tail(s[e - 1]));
        }
        lemma_after_ascii_char_start(s, e as int);
    }
    let mut names: Vec<String> = Vec::new();
    names.push(text_of(src, b, t, e));
    let mut end = e;
    proof {
        lemma_field_chain(s, e as int);
    }
    while b.len() - end > 1 && b[end] == 0x2eu8 && is_alpha_byte(b[end + 1])
        invariant
            b@ == src.spec_bytes(),
            s == b@,
            e <= end <= b.len(),
            0 < end,
            s[end - 1] < 0x80u8,
            names@.len() >= 1,
            ({
                let (rest, fin) = field_chain(s, e as int);
                let (rest2, fin2) = field_chain(s, end as int);
                names@.map_values(|n: String| n@) + rest2 == seq![text(s, t as int, e as int)] + rest
                    && fin == fin2
            }),
        decreases b.len() - end,
    {
        proof {
            lemma_after_ascii_char_start(s, end + 1);
        }
        let e2 = name_tail_end_exec(b, end + 2);
        proof {
            lemma_name_tail_end(s, end + 2);
            if e2 > end + 2 {
                assert(is_name_tail(s[e2 - 1]));
            }
            lemma_after_ascii_char_start(s, e2 as int);
        }
        let ghost old_names = names@.map_values(|n: String| n@);
        let nm = text_of(src, b, end + 1, e2);
        names.push(nm);
        proof {
            let (rest2, fin2) = field_chain(s, end as int);
            let (rest3, fin3) = field_chain(s, e2 as int);
            assert(rest2 == seq![text(s, end + 1, e2 as int)] + rest3);
            assert(names@.map_values(|n: String| n@) =~= old_names.push(text(s, end + 1, e2 as int)));
            assert(names@.map_values(|n: String| n@) + rest3 =~= old_names + rest2);
        }
        end = e2;
    }
    proof {
        let (rest2, fin2) = field_chain(s, end as int);
        assert(rest2 =~= Seq::<Seq<char>>::empty());
        assert(names@.map_values(|n: String| n@) =~= names@.map_values(|n: String| n@) + rest2);
    }
    let q = skip_trivia(b, end);
    let f = chain_names(names);
    Some((f, Span::new(t, end), q))
}

/// Parses a dotted field reference at `pos`, with the whitespace and comments around it. The
/// reference keeps at most its first two names (see `FieldReference::from_iter`).
pub fn parse_field_reference(input: &str, pos: usize) -> (r: Option<((FieldReference, Span), usize)>)
    requires
        pos <= input.spec_bytes().len(),
    ensures
        r matches Some(((f, sp), q)) ==> field_ref_spec(input.spec_bytes(), pos as int) matches Some(
            (names, sp2, q2),
        ) && f@ == kept_names(names) && sp == sp2 && q == q2,
        r is None ==> field_ref_spec(input.spec_bytes(), pos as int) is None,
{
    let b = input.as_bytes();
    match field_ref_exec(input, b, pos) {
        Some((f, sp, q)) => Some(((f, sp), q)),
        None => None,
    }
}

} // verus!
