use vstd::prelude::*;
use vstd::string::*;

use crate::error::{error_option_view, result_view, ErrorView, RenderError};

verus! {

/// A line split at its placeholders: the literal runs of text, and between
/// each two of them the body of one placeholder. `error` holds the first brace
/// error of the line; then `bodies` holds the placeholders closed before it.
pub struct ScannedLine {
    pub texts: Vec<String>,
    pub bodies: Vec<String>,
    pub error: Option<RenderError>,
}

/// The mathematical value of a [`ScannedLine`].
pub struct ScanView {
    pub texts: Seq<Seq<char>>,
    pub bodies: Seq<Seq<char>>,
    pub error: Option<ErrorView>,
}

pub open spec fn string_views(v: Seq<String>) -> Seq<Seq<char>> {
    v.map_values(|s: String| s@)
}

impl View for ScannedLine {
    type V = ScanView;

    open spec fn view(&self) -> ScanView {
        ScanView {
            texts: string_views(self.texts@),
            bodies: string_views(self.bodies@),
            error: error_option_view(self.error),
        }
    }
}

impl ScannedLine {
    /// One more run of text than there are placeholders.
    pub open spec fn wf(&self) -> bool {
        self.texts.len() == self.bodies.len() + 1
    }
}

/// The state of the scanner between two characters of a line.
pub struct ScanState {
    /// Runs of text closed by a placeholder.
    pub texts: Seq<Seq<char>>,
    /// Bodies of the placeholders closed so far.
    pub bodies: Seq<Seq<char>>,
    /// The run of text since the last placeholder.
    pub text: Seq<char>,
    /// The body of the open placeholder.
    pub body: Seq<char>,
    pub inside: bool,
    pub escape: bool,
    pub error: Option<ErrorView>,
}

pub open spec fn initial_state() -> ScanState {
    ScanState {
        texts: Seq::empty(),
        bodies: Seq::empty(),
        text: Seq::empty(),
        body: Seq::empty(),
        inside: false,
        escape: false,
        error: None,
    }
}

/// One character of the line. A backslash escapes only inside braces; once an
/// error is found the rest of the line is ignored.
pub open spec fn step(st: ScanState, c: char) -> ScanState {
    if st.error is Some {
        st
    } else if st.escape {
        if c == '{' || c == '}' || c == '\\' {
            ScanState { body: st.body.push(c), escape: false, ..st }
        } else {
            ScanState { body: st.body.push('\\').push(c), escape: false, ..st }
        }
    } else if c == '\\' {
        if st.inside {
            ScanState { escape: true, ..st }
        } else {
            ScanState { text: st.text.push(c), ..st }
        }
    } else if c == '{' {
        if st.inside {
            ScanState { error: Some(ErrorView::UnexpectedBrace), ..st }
        } else {
            ScanState { inside: true, body: Seq::empty(), ..st }
        }
    } else if c == '}' {
        if !st.inside {
            ScanState { error: Some(ErrorView::UnexpectedBrace), ..st }
        } else {
            ScanState {
                texts: st.texts.push(st.text),
                bodies: st.bodies.push(st.body),
                text: Seq::empty(),
                body: Seq::empty(),
                inside: false,
                ..st
            }
        }
    } else if st.inside {
        ScanState { body: st.body.push(c), ..st }
    } else {
        ScanState { text: st.text.push(c), ..st }
    }
}

pub open spec fn scan_from(st: ScanState, s: Seq<char>) -> ScanState
    decreases s.len(),
{
    if s.len() == 0 {
        st
    } else {
        scan_from(step(st, s[0]), s.drop_first())
    }
}

/// The end of the line: an open placeholder there is an error.
pub open spec fn finish(st: ScanState) -> ScanView {
    ScanView {
        texts: st.texts.push(st.text),
        bodies: st.bodies,
        error: if st.error is Some {
            st.error
        } else if st.inside {
            Some(ErrorView::UnclosedBrace)
        } else {
            None
        },
    }
}

/// What scanning the whole line gives.
pub open spec fn scan_line(s: Seq<char>) -> ScanView {
    finish(scan_from(initial_state(), s))
}

/// The texts with the values between them: `texts[0] + values[0] + texts[1] + ...`.
pub open spec fn interleave(texts: Seq<Seq<char>>, values: Seq<Seq<char>>) -> Seq<char>
    decreases values.len(),
{
    if values.len() == 0 {
        texts[0]
    } else {
        interleave(texts.drop_last(), values.drop_last()) + values.last() + texts.last()
    }
}

/// The rendered line, given what its placeholders resolved to: the first
/// placeholder error wins, then a brace error, and otherwise the line with
/// each placeholder replaced by its value and one newline appended.
pub open spec fn assembled(
    scan: ScanView,
    values: Result<Seq<Seq<char>>, ErrorView>,
) -> Result<Seq<char>, ErrorView> {
    match values {
        Err(e) => Err(e),
        Ok(vs) => match scan.error {
            Some(e) => Err(e),
            None => Ok(interleave(scan.texts, vs).push('\n')),
        },
    }
}

pub open spec fn values_view(values: Result<Vec<String>, RenderError>) -> Result<
    Seq<Seq<char>>,
    ErrorView,
> {
    match values {
        Ok(vs) => Ok(string_views(vs@)),
        Err(e) => Err(e@),
    }
}

pub proof fn lemma_scan_from_append(st: ScanState, a: Seq<char>, b: Seq<char>)
    ensures
        scan_from(st, a + b) == scan_from(scan_from(st, a), b),
    decreases a.len(),
{
    if a.len() == 0 {
        assert(a + b =~= b);
    } else {
        assert((a + b).drop_first() =~= a.drop_first() + b);
        lemma_scan_from_append(step(st, a[0]), a.drop_first(), b);
    }
}

proof fn lemma_scan_one_more(s: Seq<char>, i: int)
    requires
        0 <= i < s.len(),
    ensures
        scan_from(initial_state(), s.take(i + 1)) == step(
            scan_from(initial_state(), s.take(i)),
            s[i],
        ),
{
    assert(s.take(i + 1) =~= s.take(i) + seq![s[i]]);
    lemma_scan_from_append(initial_state(), s.take(i), seq![s[i]]);
    let mid = scan_from(initial_state(), s.take(i));
    assert(seq![s[i]].drop_first() =~= Seq::<char>::empty());
    assert(scan_from(mid, seq![s[i]]) == scan_from(step(mid, s[i]), Seq::<char>::empty()));
}

/// The line made of `texts` with `{bodies[k]}` between `texts[k]` and `texts[k + 1]`.
pub open spec fn compose(texts: Seq<Seq<char>>, bodies: Seq<Seq<char>>) -> Seq<char>
    decreases bodies.len(),
{
    if bodies.len() == 0 {
        texts[0]
    } else {
        compose(texts.drop_last(), bodies.drop_last()) + seq!['{'] + bodies.last() + seq!['}']
            + texts.last()
    }
}

/// Text without braces.
pub open spec fn brace_free(t: Seq<char>) -> bool {
    forall|i: int| 0 <= i < t.len() ==> t[i] != '{' && t[i] != '}'
}

/// A placeholder body without braces or escapes.
pub open spec fn plain_body(b: Seq<char>) -> bool {
    brace_free(b) && forall|i: int| 0 <= i < b.len() ==> b[i] != '\\'
}

proof fn lemma_scan_cons(st: ScanState, c: char, x: Seq<char>)
    ensures
        scan_from(st, seq![c] + x) == scan_from(step(st, c), x),
{
    assert((seq![c] + x).drop_first() =~= x);
    assert((seq![c] + x)[0] == c);
}

proof fn lemma_text_run(st: ScanState, t: Seq<char>)
    requires
        st.error is None,
        !st.inside,
        !st.escape,
        brace_free(t),
    ensures
        scan_from(st, t) == (ScanState { text: st.text + t, ..st }),
    decreases t.len(),
{
    if t.len() == 0 {
        assert(st.text + t =~= st.text);
    } else {
        let next = ScanState { text: st.text.push(t[0]), ..st };
        assert(step(st, t[0]) == next);
        assert(brace_free(t.drop_first())) by {
            assert forall|i: int| 0 <= i < t.drop_first().len() implies t.drop_first()[i] != '{'
                && t.drop_first()[i] != '}' by {
                assert(t.drop_first()[i] == t[i + 1]);
            }
        }
        lemma_text_run(next, t.drop_first());
        assert(st.text.push(t[0]) + t.drop_first() =~= st.text + t);
    }
}

proof fn lemma_body_run(st: ScanState, b: Seq<char>)
    requires
        st.error is None,
        st.inside,
        !st.escape,
        plain_body(b),
    ensures
        scan_from(st, b) == (ScanState { body: st.body + b, ..st }),
    decreases b.len(),
{
    if b.len() == 0 {
        assert(st.body + b =~= st.body);
    } else {
        let next = ScanState { body: st.body.push(b[0]), ..st };
        assert(step(st, b[0]) == next);
        assert(plain_body(b.drop_first())) by {
            assert forall|i: int| 0 <= i < b.drop_first().len() implies b.drop_first()[i] != '{'
                && b.drop_first()[i] != '}' && b.drop_first()[i] != '\\' by {
                assert(b.drop_first()[i] == b[i + 1]);
            }
        }
        lemma_body_run(next, b.drop_first());
        assert(st.body.push(b[0]) + b.drop_first() =~= st.body + b);
    }
}

proof fn lemma_compose(texts: Seq<Seq<char>>, bodies: Seq<Seq<char>>)
    requires
        texts.len() == bodies.len() + 1,
        forall|k: int| 0 <= k < texts.len() ==> brace_free(#[trigger] texts[k]),
        forall|k: int| 0 <= k < bodies.len() ==> plain_body(#[trigger] bodies[k]),
    ensures
        scan_from(initial_state(), compose(texts, bodies)) == (ScanState {
            texts: texts.drop_last(),
            bodies: bodies,
            text: texts.last(),
            body: Seq::empty(),
            inside: false,
            escape: false,
            error: None,
        }),
    decreases bodies.len(),
{
    if bodies.len() == 0 {
        lemma_text_run(initial_state(), texts[0]);
        assert(Seq::<char>::empty() + texts[0] =~= texts[0]);
        assert(texts.drop_last() =~= Seq::<Seq<char>>::empty());
        assert(bodies =~= Seq::<Seq<char>>::empty());
    } else {
        let t1 = texts.drop_last();
        let b1 = bodies.drop_last();
        assert(forall|k: int| 0 <= k < t1.len() ==> t1[k] == texts[k]);
        assert(forall|k: int| 0 <= k < b1.len() ==> b1[k] == bodies[k]);
        lemma_compose(t1, b1);
        let p = compose(t1, b1);
        let b = bodies.last();
        let t = texts.last();
        let st1 = scan_from(initial_state(), p);
        let rest = seq!['}'] + t;
        assert(compose(texts, bodies) =~= p + (seq!['{'] + (b + rest)));
        lemma_scan_from_append(initial_state(), p, seq!['{'] + (b + rest));
        lemma_scan_cons(st1, '{', b + rest);
        let st2 = step(st1, '{');
        lemma_scan_from_append(st2, b, rest);
        lemma_body_run(st2, b);
        let st3 = scan_from(st2, b);
        assert(st3.body =~= b);
        lemma_scan_cons(st3, '}', t);
        let st4 = step(st3, '}');
        lemma_text_run(st4, t);
        assert(Seq::<char>::empty() + t =~= t);
        assert(t1.drop_last().push(t1.last()) =~= texts.drop_last());
        assert(b1.push(b) =~= bodies);
    }
}

/// A line made of runs of text without braces and of placeholders without
/// braces or backslashes inside them scans without error into exactly those
/// runs and bodies, and renders as the same line with each placeholder
/// replaced by its value and one newline appended.
pub proof fn well_formed_line_renders(
    texts: Seq<Seq<char>>,
    bodies: Seq<Seq<char>>,
    values: Seq<Seq<char>>,
)
    requires
        texts.len() == bodies.len() + 1,
        values.len() == bodies.len(),
        forall|k: int| 0 <= k < texts.len() ==> brace_free(#[trigger] texts[k]),
        forall|k: int| 0 <= k < bodies.len() ==> plain_body(#[trigger] bodies[k]),
    ensures
        scan_line(compose(texts, bodies)) == (ScanView { texts, bodies, error: None }),
        assembled(scan_line(compose(texts, bodies)), Ok(values)) == Ok::<Seq<char>, ErrorView>(
            interleave(texts, values).push('\n'),
        ),
{
    lemma_compose(texts, bodies);
    assert(texts.drop_last().push(texts.last()) =~= texts);
}

/// A line without braces renders as itself with one newline appended.
pub proof fn plain_line_renders_verbatim(line: Seq<char>)
    requires
        brace_free(line),
    ensures
        scan_line(line).bodies.len() == 0,
        scan_line(line).error is None,
        assembled(scan_line(line), Ok(Seq::empty())) == Ok::<Seq<char>, ErrorView>(
            line.push('\n'),
        ),
{
    let texts = seq![line];
    let bodies = Seq::<Seq<char>>::empty();
    assert(compose(texts, bodies) == line);
    well_formed_line_renders(texts, bodies, Seq::empty());
    assert(interleave(texts, Seq::empty()) == line);
}

/// Relies on String::push: appends one character.
#[verifier::external_body]
pub(crate) fn push_char(s: &mut String, c: char)
    ensures
        final(s)@ == old(s)@.push(c),
{
    s.push(c);
}

/// Splits a line at its placeholders and matches its braces.
pub fn parse_line(line: &str) -> (r: ScannedLine)
    ensures
        r@ == scan_line(line@),
        r.wf(),
{
    let n = line.unicode_len();
    let mut texts: Vec<String> = Vec::new();
    let mut bodies: Vec<String> = Vec::new();
    let mut text = String::new();
    let mut body = String::new();
    let mut inside = false;
    let mut escape = false;
    let mut error: Option<RenderError> = None;
    let mut i: usize = 0;
    while i < n
        invariant
            n == line@.len(),
            i <= n,
            texts.len() == bodies.len(),
            ({
                let st = scan_from(initial_state(), line@.take(i as int));
                &&& st.texts == string_views(texts@)
                &&& st.bodies == string_views(bodies@)
                &&& st.text == text@
                &&& st.body == body@
                &&& st.inside == inside
                &&& st.escape == escape
                &&& st.error == error_option_view(error)
            }),
        decreases n - i,
    {
        let c = line.get_char(i);
        proof {
            lemma_scan_one_more(line@, i as int);
        }
        if error.is_none() {
            if escape {
                if c == '{' || c == '}' || c == '\\' {
                    push_char(&mut body, c);
                } else {
                    push_char(&mut body, '\\');
                    push_char(&mut body, c);
                }
                escape = false;
            } else if c == '\\' {
                if inside {
                    escape = true;
                } else {
                    push_char(&mut text, c);
                }
            } else if c == '{' {
                if inside {
                    error = Some(RenderError::UnexpectedBrace);
                } else {
                    inside = true;
                    body = String::new();
                }
            } else if c == '}' {
                if !inside {
                    error = Some(RenderError::UnexpectedBrace);
                } else {
                    let ghost old_texts = texts@;
                    let ghost old_bodies = bodies@;
                    texts.push(text);
                    bodies.push(body);
                    text = String::new();
                    body = String::new();
                    inside = false;
                    assert(string_views(texts@) =~= string_views(old_texts).push(
                        texts@.last()@,
                    ));
                    assert(string_views(bodies@) =~= string_views(old_bodies).push(
                        bodies@.last()@,
                    ));
                }
            } else if inside {
                push_char(&mut body, c);
            } else {
                push_char(&mut text, c);
            }
        }
        i += 1;
    }
    if error.is_none() && inside {
        error = Some(RenderError::UnclosedBrace);
    }
    let ghost old_texts = texts@;
    texts.push(text);
    assert(line@.take(n as int) =~= line@);
    assert(string_views(texts@) =~= string_views(old_texts).push(texts@.last()@));
    ScannedLine { texts, bodies, error }
}

/// Puts a scanned line back together from what its placeholders resolved
/// to. `values` holds the value of each placeholder in order, or the error of
/// the first one that failed.
pub fn assemble_line(scan: &ScannedLine, values: Result<Vec<String>, RenderError>) -> (r: Result<
    String,
    RenderError,
>)
    requires
        scan.wf(),
        values is Ok ==> values->Ok_0.len() == scan.bodies.len(),
    ensures
        result_view(r) == assembled(scan@, values_view(values)),
{
    match values {
        Err(e) => Err(e),
        Ok(vs) => {
            match &scan.error {
                Some(e) => Err(e.duplicate()),
                None => {
                    let ghost tv = string_views(scan.texts@);
                    let ghost vv = string_views(vs@);
                    let mut out = scan.texts[0].clone();
                    let mut j: usize = 0;
                    assert(tv.take(1).drop_last() =~= tv.take(0));
                    assert(vv.take(0) =~= Seq::<Seq<char>>::empty());
                    while j < vs.len()
                        invariant
                            j <= vs.len(),
                            vs.len() == scan.bodies.len(),
                            scan.wf(),
                            tv == string_views(scan.texts@),
                            vv == string_views(vs@),
                            out@ == interleave(tv.take(j + 1), vv.take(j as int)),
                        decreases vs.len() - j,
                    {
                        out.append(vs[j].as_str());
                        out.append(scan.texts[j + 1].as_str());
                        assert(tv.take(j + 2).drop_last() =~= tv.take(j + 1));
                        assert(vv.take(j + 1).drop_last() =~= vv.take(j as int));
                        j += 1;
                    }
                    assert(tv.take(j + 1) =~= tv);
                    assert(vv.take(j as int) =~= vv);
                    push_char(&mut out, '\n');
                    Ok(out)
                }
            }
        }
    }
}

} // verus!
