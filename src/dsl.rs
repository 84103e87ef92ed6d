//! The question definition language: parsers from the tokens of a question
//! definition to its fragments.
use vstd::prelude::*;
use crate::attr::{Marker, MarkerValue, Span, text_is};
use crate::programming::{join_lines, start_trimmed};
use crate::questions::{DocString, InlineQuestionList, McAnswer, McQuestion, OpenQuestion, QuestionFragment, trimmed_lines};

verus! {

broadcast use vstd::std_specs::vec::group_vec_axioms;

/// One token of a question definition, as the source lexer delivers it.
pub enum Token {
    Ident { name: String, span: Span },
    Str { value: String, span: Span },
    /// An integer literal, with its value.
    Int { value: usize, span: Span },
    Punct { ch: char, span: Span },
    /// An outer attribute; a documentation comment arrives as `doc = "..."`.
    Attribute { marker: Marker, span: Span },
    /// A nested invocation `name! { tokens }`.
    Macro { name: String, tokens: Vec<Token>, span: Span },
}

/// Why a question definition could not be parsed.
#[derive(Clone, Debug, PartialEq, Eq)]
pub enum ParseError {
    UnexpectedEnd,
    ExpectedIdent(Span),
    ExpectedStr(Span),
    ExpectedInt(Span),
    ExpectedPunct(char, Span),
    /// Something other than `correct` after an option's text.
    ExpectedCorrect(Span),
    /// Something other than `answers` after `expect N`.
    ExpectedAnswers(Span),
    UnexpectedField(String, Span),
    /// An attribute other than a documentation line where text was expected.
    ExpectedDoc(Span),
    /// A documentation line whose value is not a string.
    ExpectedDocString(Span),
    /// A nested invocation that is not a question.
    UnknownQuestion(String, Span),
}

pub open spec fn token_span(t: Token) -> Span {
    match t {
        Token::Ident { span, .. } => span,
        Token::Str { span, .. } => span,
        Token::Int { span, .. } => span,
        Token::Punct { span, .. } => span,
        Token::Attribute { span, .. } => span,
        Token::Macro { span, .. } => span,
    }
}

pub open spec fn expect_ident(toks: Seq<Token>, p: int) -> Result<(Seq<char>, Span), ParseError> {
    if p < 0 || p >= toks.len() {
        Err(ParseError::UnexpectedEnd)
    } else {
        match toks[p] {
            Token::Ident { name, span } => Ok((name@, span)),
            t => Err(ParseError::ExpectedIdent(token_span(t))),
        }
    }
}

pub open spec fn expect_str(toks: Seq<Token>, p: int) -> Result<Seq<char>, ParseError> {
    if p < 0 || p >= toks.len() {
        Err(ParseError::UnexpectedEnd)
    } else {
        match toks[p] {
            Token::Str { value, .. } => Ok(value@),
            t => Err(ParseError::ExpectedStr(token_span(t))),
        }
    }
}

pub open spec fn expect_int(toks: Seq<Token>, p: int) -> Result<usize, ParseError> {
    if p < 0 || p >= toks.len() {
        Err(ParseError::UnexpectedEnd)
    } else {
        match toks[p] {
            Token::Int { value, .. } => Ok(value),
            t => Err(ParseError::ExpectedInt(token_span(t))),
        }
    }
}

pub open spec fn expect_punct(toks: Seq<Token>, p: int, ch: char) -> Result<(), ParseError> {
    if p < 0 || p >= toks.len() {
        Err(ParseError::UnexpectedEnd)
    } else {
        match toks[p] {
            Token::Punct { ch: c, .. } => if c == ch {
                Ok(())
            } else {
                Err(ParseError::ExpectedPunct(ch, token_span(toks[p])))
            },
            t => Err(ParseError::ExpectedPunct(ch, token_span(t))),
        }
    }
}

pub open spec fn punct_at(toks: Seq<Token>, p: int, ch: char) -> bool {
    0 <= p < toks.len() && (toks[p] matches Token::Punct { ch: c, .. } && c == ch)
}

/// Past an optional comma at `q`.
pub open spec fn skip_comma(toks: Seq<Token>, q: int) -> int {
    if punct_at(toks, q, ',') {
        q + 1
    } else {
        q
    }
}

/// The documentation lines from `p` on, added to `lines`, and where they end.
pub open spec fn doc_lines_at(toks: Seq<Token>, p: int, lines: Seq<Seq<char>>) -> Result<
    (Seq<Seq<char>>, int),
    ParseError,
>
    decreases toks.len() - p,
{
    if p < 0 || p >= toks.len() {
        Ok((lines, p))
    } else {
        match toks[p] {
            Token::Attribute { marker, span } => match marker {
                Marker::Named { name, value, span: _, value_span } => if name@ == "doc"@ {
                    match value {
                        MarkerValue::Str(s) => doc_lines_at(toks, p + 1, lines.push(s@)),
                        MarkerValue::NotStr => Err(ParseError::ExpectedDocString(value_span)),
                    }
                } else {
                    Err(ParseError::ExpectedDoc(span))
                },
                _ => Err(ParseError::ExpectedDoc(span)),
            },
            _ => Ok((lines, p)),
        }
    }
}

/// The text of the documentation lines at `p`: each without its leading
/// whitespace, joined with newlines; and where they end.
pub open spec fn doc_at(toks: Seq<Token>, p: int) -> Result<(Seq<char>, int), ParseError> {
    match doc_lines_at(toks, p, Seq::empty()) {
        Ok((lines, q)) => Ok((join_lines(lines.map_values(|l: Seq<char>| start_trimmed(l))), q)),
        Err(e) => Err(e),
    }
}

fn parse_ident(toks: &Vec<Token>, p: usize) -> (r: Result<(&String, Span), ParseError>)
    ensures
        match expect_ident(toks@, p as int) {
            Ok((n, s)) => r matches Ok((x, sp)) && x@ == n && sp == s && *x == toks@[p as int]->Ident_name,
            Err(e) => r == Err::<(&String, Span), ParseError>(e),
        },
{
    if p >= toks.len() {
        return Err(ParseError::UnexpectedEnd);
    }
    match &toks[p] {
        Token::Ident { name, span } => Ok((name, *span)),
        Token::Str { span, .. } => Err(ParseError::ExpectedIdent(*span)),
        Token::Int { span, .. } => Err(ParseError::ExpectedIdent(*span)),
        Token::Punct { span, .. } => Err(ParseError::ExpectedIdent(*span)),
        Token::Attribute { span, .. } => Err(ParseError::ExpectedIdent(*span)),
        Token::Macro { span, .. } => Err(ParseError::ExpectedIdent(*span)),
    }
}

fn parse_str(toks: &Vec<Token>, p: usize) -> (r: Result<String, ParseError>)
    ensures
        match expect_str(toks@, p as int) {
            Ok(s) => r matches Ok(x) && x@ == s,
            Err(e) => r == Err::<String, ParseError>(e),
        },
{
    if p >= toks.len() {
        return Err(ParseError::UnexpectedEnd);
    }
    match &toks[p] {
        Token::Str { value, .. } => Ok(value.clone()),
        Token::Ident { span, .. } => Err(ParseError::ExpectedStr(*span)),
        Token::Int { span, .. } => Err(ParseError::ExpectedStr(*span)),
        Token::Punct { span, .. } => Err(ParseError::ExpectedStr(*span)),
        Token::Attribute { span, .. } => Err(ParseError::ExpectedStr(*span)),
        Token::Macro { span, .. } => Err(ParseError::ExpectedStr(*span)),
    }
}

fn parse_int(toks: &Vec<Token>, p: usize) -> (r: Result<usize, ParseError>)
    ensures
        r == expect_int(toks@, p as int),
{
    if p >= toks.len() {
        return Err(ParseError::UnexpectedEnd);
    }
    match &toks[p] {
        Token::Int { value, .. } => Ok(*value),
        Token::Ident { span, .. } => Err(ParseError::ExpectedInt(*span)),
        Token::Str { span, .. } => Err(ParseError::ExpectedInt(*span)),
        Token::Punct { span, .. } => Err(ParseError::ExpectedInt(*span)),
        Token::Attribute { span, .. } => Err(ParseError::ExpectedInt(*span)),
        Token::Macro { span, .. } => Err(ParseError::ExpectedInt(*span)),
    }
}

fn parse_punct(toks: &Vec<Token>, p: usize, ch: char) -> (r: Result<(), ParseError>)
    ensures
        r == expect_punct(toks@, p as int, ch),
{
    if p >= toks.len() {
        return Err(ParseError::UnexpectedEnd);
    }
    match &toks[p] {
        Token::Punct { ch: c, span } => if *c == ch {
            Ok(())
        } else {
            Err(ParseError::ExpectedPunct(ch, *span))
        },
        Token::Ident { span, .. } => Err(ParseError::ExpectedPunct(ch, *span)),
        Token::Str { span, .. } => Err(ParseError::ExpectedPunct(ch, *span)),
        Token::Int { span, .. } => Err(ParseError::ExpectedPunct(ch, *span)),
        Token::Attribute { span, .. } => Err(ParseError::ExpectedPunct(ch, *span)),
        Token::Macro { span, .. } => Err(ParseError::ExpectedPunct(ch, *span)),
    }
}

fn is_punct(toks: &Vec<Token>, p: usize, ch: char) -> (r: bool)
    ensures
        r == punct_at(toks@, p as int, ch),
{
    if p >= toks.len() {
        return false;
    }
    match &toks[p] {
        Token::Punct { ch: c, .. } => *c == ch,
        _ => false,
    }
}

fn after_comma(toks: &Vec<Token>, q: usize) -> (r: usize)
    requires
        q <= toks@.len(),
    ensures
        r == skip_comma(toks@, q as int),
        r <= toks@.len(),
{
    let n = toks.len();
    if q < n && is_punct(toks, q, ',') {
        q + 1
    } else {
        q
    }
}

impl DocString {
    /// Parses the documentation lines at `p` into text, and returns where they end.
    pub fn parse(toks: &Vec<Token>, p: usize) -> (r: Result<(DocString, usize), ParseError>)
        requires
            p <= toks@.len(),
        ensures
            match doc_at(toks@, p as int) {
                Ok((t, q)) => r matches Ok((d, e)) && d.text@ == t && e == q && p <= e
                    <= toks@.len(),
                Err(e) => r == Err::<(DocString, usize), ParseError>(e),
            },
    {
        let mut raw: Vec<String> = Vec::new();
        let mut q: usize = p;
        assert(raw@.map_values(|l: String| l@) =~= Seq::<Seq<char>>::empty());
        while q < toks.len()
            invariant
                p <= q <= toks@.len(),
                doc_lines_at(toks@, p as int, Seq::empty()) == doc_lines_at(
                    toks@,
                    q as int,
                    raw@.map_values(|l: String| l@),
                ),
            ensures
                q >= toks@.len() || !(toks@[q as int] is Attribute),
            decreases toks@.len() - q,
        {
            match &toks[q] {
                Token::Attribute { marker, span } => match marker {
                    Marker::Named { name, value, span: _, value_span } => {
                        if !text_is(name, "doc") {
                            return Err(ParseError::ExpectedDoc(*span));
                        }
                        match value {
                            MarkerValue::Str(s) => {
                                let ghost before = raw@.map_values(|l: String| l@);
                                raw.push(s.clone());
                                assert(raw@.map_values(|l: String| l@) =~= before.push(s@));
                            },
                            MarkerValue::NotStr => {
                                return Err(ParseError::ExpectedDocString(*value_span));
                            },
                        }
                    },
                    _ => {
                        return Err(ParseError::ExpectedDoc(*span));
                    },
                },
                _ => {
                    break;
                },
            }
            q = q + 1;
        }
        let d = DocString::from_lines(&raw);
        assert(trimmed_lines(raw@) =~= raw@.map_values(|l: String| l@).map_values(
            |l: Seq<char>| start_trimmed(l),
        ));
        Ok((d, q))
    }
}

/// A multiple-choice definition as values.
pub struct McView {
    pub title: Seq<char>,
    pub question: Seq<char>,
    pub options: Seq<(Seq<char>, bool)>,
    pub expected: usize,
    pub randomize: bool,
    pub explanation: Seq<char>,
}

pub open spec fn mc_view(q: McQuestion) -> McView {
    McView {
        title: q.title@,
        question: q.question_text.text@,
        options: q.options@.map_values(|a: McAnswer| (a.text@, a.correct)),
        expected: q.num_answers_expected,
        randomize: q.randomize,
        explanation: q.explanation.text@,
    }
}

/// What a definition holds before any field: one answer expected.
pub open spec fn mc_start() -> McView {
    McView {
        title: Seq::empty(),
        question: Seq::empty(),
        options: Seq::empty(),
        expected: 1,
        randomize: false,
        explanation: Seq::empty(),
    }
}

/// The field of a multiple-choice definition that starts at `pos`: the
/// definition with it, and where it ends.
pub open spec fn mc_field(toks: Seq<Token>, pos: int, acc: McView) -> Result<(McView, int), ParseError> {
    match expect_ident(toks, pos) {
        Err(e) => Err(e),
        Ok((name, fspan)) => {
            let p = pos + 1;
            if name == "option"@ {
                match expect_str(toks, p) {
                    Err(e) => Err(e),
                    Ok(text) => {
                        let marked = match expect_ident(toks, p + 1) {
                            Ok((c, cspan)) => if c == "correct"@ {
                                Ok((true, p + 2))
                            } else {
                                Err(ParseError::ExpectedCorrect(cspan))
                            },
                            Err(_) => Ok((false, p + 1)),
                        };
                        match marked {
                            Err(e) => Err(e),
                            Ok((correct, q)) => match expect_punct(toks, q, ',') {
                                Err(e) => Err(e),
                                Ok(()) => Ok(
                                    (McView { options: acc.options.push((text, correct)), ..acc }, q + 1),
                                ),
                            },
                        }
                    },
                }
            } else if name == "explanation"@ {
                match expect_punct(toks, p, ':') {
                    Err(e) => Err(e),
                    Ok(()) => match doc_at(toks, p + 1) {
                        Err(e) => Err(e),
                        Ok((t, q)) => Ok((McView { explanation: t, ..acc }, q)),
                    },
                }
            } else if name == "randomize"@ {
                Ok((McView { randomize: true, ..acc }, p))
            } else if name == "multiple"@ {
                Ok((McView { expected: 0, ..acc }, p))
            } else if name == "title"@ {
                match expect_punct(toks, p, ':') {
                    Err(e) => Err(e),
                    Ok(()) => match expect_str(toks, p + 1) {
                        Err(e) => Err(e),
                        Ok(t) => Ok((McView { title: t, ..acc }, p + 2)),
                    },
                }
            } else if name == "expect"@ {
                match expect_int(toks, p) {
                    Err(e) => Err(e),
                    Ok(n) => match expect_ident(toks, p + 1) {
                        Err(e) => Err(e),
                        Ok((w, _)) => if w == "answers"@ {
                            Ok((McView { expected: n, ..acc }, p + 2))
                        } else {
                            Err(ParseError::ExpectedAnswers(fspan))
                        },
                    },
                }
            } else if name == "question"@ {
                match expect_punct(toks, p, ':') {
                    Err(e) => Err(e),
                    Ok(()) => match doc_at(toks, p + 1) {
                        Err(e) => Err(e),
                        Ok((t, q)) => Ok((McView { question: t, ..acc }, q)),
                    },
                }
            } else {
                Err(ParseError::UnexpectedField(toks[pos]->Ident_name, fspan))
            }
        },
    }
}

/// The fields from `pos` on, each followed by an optional comma.
pub open spec fn mc_fields(toks: Seq<Token>, pos: int, acc: McView) -> Result<McView, ParseError>
    decreases toks.len() - pos,
{
    if pos < 0 || pos >= toks.len() {
        Ok(acc)
    } else {
        match mc_field(toks, pos, acc) {
            Err(e) => Err(e),
            Ok((a, q)) => {
                let next = skip_comma(toks, q);
                if pos < next <= toks.len() {
                    mc_fields(toks, next, a)
                } else {
                    Ok(a)
                }
            },
        }
    }
}

fn mc_field_exec(toks: &Vec<Token>, pos: usize, acc: &mut McQuestion) -> (r: Result<usize, ParseError>)
    requires
        pos < toks@.len(),
    ensures
        match mc_field(toks@, pos as int, mc_view(*old(acc))) {
            Ok((a, q)) => r == Ok::<usize, ParseError>(q as usize) && mc_view(*final(acc)) == a
                && pos < q <= toks@.len(),
            Err(e) => r == Err::<usize, ParseError>(e),
        },
{
    let n = toks.len();
    let (name, fspan) = match parse_ident(toks, pos) {
        Ok(x) => x,
        Err(e) => {
            return Err(e);
        },
    };
    let p = pos + 1;
    if text_is(name, "option") {
        let text = match parse_str(toks, p) {
            Ok(t) => t,
            Err(e) => {
                return Err(e);
            },
        };
        let (correct, q) = match parse_ident(toks, p + 1) {
            Ok((c, cspan)) => if text_is(c, "correct") {
                (true, p + 2)
            } else {
                return Err(ParseError::ExpectedCorrect(cspan));
            },
            Err(_) => (false, p + 1),
        };
        match parse_punct(toks, q, ',') {
            Ok(()) => {},
            Err(e) => {
                return Err(e);
            },
        }
        let ghost before = acc.options@.map_values(|a: McAnswer| (a.text@, a.correct));
        let ghost text_view = text@;
        acc.options.push(McAnswer { text, correct });
        assert(acc.options@.map_values(|a: McAnswer| (a.text@, a.correct)) =~= before.push(
            (text_view, correct),
        ));
        Ok(q + 1)
    } else if text_is(name, "explanation") {
        match parse_punct(toks, p, ':') {
            Ok(()) => {},
            Err(e) => {
                return Err(e);
            },
        }
        match DocString::parse(toks, p + 1) {
            Ok((d, q)) => {
                acc.explanation = d;
                Ok(q)
            },
            Err(e) => Err(e),
        }
    } else if text_is(name, "randomize") {
        acc.randomize = true;
        Ok(p)
    } else if text_is(name, "multiple") {
        acc.num_answers_expected = 0;
        Ok(p)
    } else if text_is(name, "title") {
        match parse_punct(toks, p, ':') {
            Ok(()) => {},
            Err(e) => {
                return Err(e);
            },
        }
        match parse_str(toks, p + 1) {
            Ok(t) => {
                acc.title = t;
                Ok(p + 2)
            },
            Err(e) => Err(e),
        }
    } else if text_is(name, "expect") {
        let n = match parse_int(toks, p) {
            Ok(n) => n,
            Err(e) => {
                return Err(e);
            },
        };
        match parse_ident(toks, p + 1) {
            Ok((w, _)) => if text_is(w, "answers") {
                acc.num_answers_expected = n;
                Ok(p + 2)
            } else {
                Err(ParseError::ExpectedAnswers(fspan))
            },
            Err(e) => Err(e),
        }
    } else if text_is(name, "question") {
        match parse_punct(toks, p, ':') {
            Ok(()) => {},
            Err(e) => {
                return Err(e);
            },
        }
        match DocString::parse(toks, p + 1) {
            Ok((d, q)) => {
                acc.question_text = d;
                Ok(q)
            },
            Err(e) => Err(e),
        }
    } else {
        Err(ParseError::UnexpectedField(name.clone(), fspan))
    }
}

impl McQuestion {
    /// Parses a multiple-choice definition: fields `title: "..."`,
    /// `question:` and `explanation:` with documentation lines,
    /// `option "..." [correct],`, `expect N answers`, `multiple` and
    /// `randomize`, each optionally followed by a comma.
    pub fn parse(toks: &Vec<Token>) -> (r: Result<McQuestion, ParseError>)
        ensures
            match mc_fields(toks@, 0, mc_start()) {
                Ok(v) => r is Ok && mc_view(r->Ok_0) == v,
                Err(e) => r == Err::<McQuestion, ParseError>(e),
            },
    {
        let mut acc = McQuestion {
            title: String::new(),
            question_text: DocString { text: String::new() },
            options: Vec::new(),
            num_answers_expected: 1,
            randomize: false,
            explanation: DocString { text: String::new() },
        };
        assert(mc_view(acc) =~= mc_start()) by {
            assert(acc.options@.map_values(|a: McAnswer| (a.text@, a.correct)) =~= Seq::<
                (Seq<char>, bool),
            >::empty());
        }
        let mut pos: usize = 0;
        while pos < toks.len()
            invariant
                pos <= toks@.len(),
                mc_fields(toks@, 0, mc_start()) == mc_fields(toks@, pos as int, mc_view(acc)),
            decreases toks@.len() - pos,
        {
            let q = match mc_field_exec(toks, pos, &mut acc) {
                Ok(q) => q,
                Err(e) => {
                    return Err(e);
                },
            };
            pos = after_comma(toks, q);
        }
        Ok(acc)
    }
}

/// An open-question definition as values.
pub struct OpenView {
    pub title: Seq<char>,
    pub question: Seq<char>,
    pub answer: Seq<char>,
}

pub open spec fn open_view(q: OpenQuestion) -> OpenView {
    OpenView { title: q.title@, question: q.question_text.text@, answer: q.answer.text@ }
}

pub open spec fn open_start() -> OpenView {
    OpenView { title: Seq::empty(), question: Seq::empty(), answer: Seq::empty() }
}

/// The field of an open-question definition at `pos`: a name, a colon, then
/// a string title or documentation lines.
pub open spec fn open_field(toks: Seq<Token>, pos: int, acc: OpenView) -> Result<(OpenView, int), ParseError> {
    match expect_ident(toks, pos) {
        Err(e) => Err(e),
        Ok((name, fspan)) => match expect_punct(toks, pos + 1, ':') {
            Err(e) => Err(e),
            Ok(()) => {
                let p = pos + 2;
                if name == "title"@ {
                    match expect_str(toks, p) {
                        Err(e) => Err(e),
                        Ok(t) => Ok((OpenView { title: t, ..acc }, p + 1)),
                    }
                } else if name == "question"@ {
                    match doc_at(toks, p) {
                        Err(e) => Err(e),
                        Ok((t, q)) => Ok((OpenView { question: t, ..acc }, q)),
                    }
                } else if name == "answer"@ {
                    match doc_at(toks, p) {
                        Err(e) => Err(e),
                        Ok((t, q)) => Ok((OpenView { answer: t, ..acc }, q)),
                    }
                } else {
                    Err(ParseError::UnexpectedField(toks[pos]->Ident_name, fspan))
                }
            },
        },
    }
}

pub open spec fn open_fields(toks: Seq<Token>, pos: int, acc: OpenView) -> Result<OpenView, ParseError>
    decreases toks.len() - pos,
{
    if pos < 0 || pos >= toks.len() {
        Ok(acc)
    } else {
        match open_field(toks, pos, acc) {
            Err(e) => Err(e),
            Ok((a, q)) => {
                let next = skip_comma(toks, q);
                if pos < next <= toks.len() {
                    open_fields(toks, next, a)
                } else {
                    Ok(a)
                }
            },
        }
    }
}

fn open_field_exec(toks: &Vec<Token>, pos: usize, acc: &mut OpenQuestion) -> (r: Result<usize, ParseError>)
    requires
        pos < toks@.len(),
    ensures
        match open_field(toks@, pos as int, open_view(*old(acc))) {
            Ok((a, q)) => r == Ok::<usize, ParseError>(q as usize) && open_view(*final(acc)) == a
                && pos < q <= toks@.len(),
            Err(e) => r == Err::<usize, ParseError>(e),
        },
{
    let n = toks.len();
    let (name, fspan) = match parse_ident(toks, pos) {
        Ok(x) => x,
        Err(e) => {
            return Err(e);
        },
    };
    match parse_punct(toks, pos + 1, ':') {
        Ok(()) => {},
        Err(e) => {
            return Err(e);
        },
    }
    let p = pos + 2;
    if text_is(name, "title") {
        match parse_str(toks, p) {
            Ok(t) => {
                acc.title = t;
                Ok(p + 1)
            },
            Err(e) => Err(e),
        }
    } else if text_is(name, "question") {
        match DocString::parse(toks, p) {
            Ok((d, q)) => {
                acc.question_text = d;
                Ok(q)
            },
            Err(e) => Err(e),
        }
    } else if text_is(name, "answer") {
        match DocString::parse(toks, p) {
            Ok((d, q)) => {
                acc.answer = d;
                Ok(q)
            },
            Err(e) => Err(e),
        }
    } else {
        Err(ParseError::UnexpectedField(name.clone(), fspan))
    }
}

impl OpenQuestion {
    /// Parses an open-question definition: fields `title: "..."`,
    /// `question:` and `answer:` with documentation lines, each optionally
    /// followed by a comma.
    pub fn parse(toks: &Vec<Token>) -> (r: Result<OpenQuestion, ParseError>)
        ensures
            match open_fields(toks@, 0, open_start()) {
                Ok(v) => r is Ok && open_view(r->Ok_0) == v,
                Err(e) => r == Err::<OpenQuestion, ParseError>(e),
            },
    {
        let mut acc = OpenQuestion {
            title: String::new(),
            question_text: DocString { text: String::new() },
            answer: DocString { text: String::new() },
        };
        let mut pos: usize = 0;
        while pos < toks.len()
            invariant
                pos <= toks@.len(),
                open_fields(toks@, 0, open_start()) == open_fields(toks@, pos as int, open_view(acc)),
            decreases toks@.len() - pos,
        {
            let q = match open_field_exec(toks, pos, &mut acc) {
                Ok(q) => q,
                Err(e) => {
                    return Err(e);
                },
            };
            pos = after_comma(toks, q);
        }
        Ok(acc)
    }
}

pub enum FragmentView {
    MultipleChoice(McView),
    Open(OpenView),
}

pub open spec fn fragment_view(f: QuestionFragment) -> FragmentView {
    match f {
        QuestionFragment::MultipleChoice(q) => FragmentView::MultipleChoice(mc_view(q)),
        QuestionFragment::Open(q) => FragmentView::Open(open_view(q)),
    }
}

/// An inline list definition as values.
pub struct InlineView {
    pub title: Seq<char>,
    pub question: Seq<char>,
    pub questions: Seq<FragmentView>,
}

pub open spec fn inline_view(l: InlineQuestionList) -> InlineView {
    InlineView {
        title: l.title@,
        question: l.question_text.text@,
        questions: l.questions@.map_values(|f: QuestionFragment| fragment_view(f)),
    }
}

pub open spec fn inline_start() -> InlineView {
    InlineView { title: Seq::empty(), question: Seq::empty(), questions: Seq::empty() }
}

/// The question that a nested invocation defines.
pub open spec fn nested_question(name: String, tokens: Seq<Token>, span: Span) -> Result<FragmentView, ParseError> {
    if name@ == "mc_question"@ {
        match mc_fields(tokens, 0, mc_start()) {
            Ok(v) => Ok(FragmentView::MultipleChoice(v)),
            Err(e) => Err(e),
        }
    } else if name@ == "open_question"@ {
        match open_fields(tokens, 0, open_start()) {
            Ok(v) => Ok(FragmentView::Open(v)),
            Err(e) => Err(e),
        }
    } else {
        Err(ParseError::UnknownQuestion(name, span))
    }
}

/// The item of an inline list definition at `pos`: a nested question, which
/// takes no comma after it, or a field followed by an optional comma.
pub open spec fn inline_item(toks: Seq<Token>, pos: int, acc: InlineView) -> Result<(InlineView, int), ParseError> {
    match toks[pos] {
        Token::Macro { name, tokens, span } => match nested_question(name, tokens@, span) {
            Err(e) => Err(e),
            Ok(f) => Ok((InlineView { questions: acc.questions.push(f), ..acc }, pos + 1)),
        },
        _ => match expect_ident(toks, pos) {
            Err(e) => Err(e),
            Ok((name, fspan)) => {
                let p = pos + 1;
                if name == "title"@ {
                    match expect_punct(toks, p, ':') {
                        Err(e) => Err(e),
                        Ok(()) => match expect_str(toks, p + 1) {
                            Err(e) => Err(e),
                            Ok(t) => Ok((InlineView { title: t, ..acc }, skip_comma(toks, p + 2))),
                        },
                    }
                } else if name == "question"@ {
                    match expect_punct(toks, p, ':') {
                        Err(e) => Err(e),
                        Ok(()) => match doc_at(toks, p + 1) {
                            Err(e) => Err(e),
                            Ok((t, q)) => Ok((InlineView { question: t, ..acc }, skip_comma(toks, q))),
                        },
                    }
                } else {
                    Err(ParseError::UnexpectedField(toks[pos]->Ident_name, fspan))
                }
            },
        },
    }
}

pub open spec fn inline_items(toks: Seq<Token>, pos: int, acc: InlineView) -> Result<InlineView, ParseError>
    decreases toks.len() - pos,
{
    if pos < 0 || pos >= toks.len() {
        Ok(acc)
    } else {
        match inline_item(toks, pos, acc) {
            Err(e) => Err(e),
            Ok((a, q)) => if pos < q <= toks.len() {
                inline_items(toks, q, a)
            } else {
                Ok(a)
            },
        }
    }
}

fn nested_question_exec(name: &String, tokens: &Vec<Token>, span: Span) -> (r: Result<QuestionFragment, ParseError>)
    ensures
        match nested_question(*name, tokens@, span) {
            Ok(f) => r is Ok && fragment_view(r->Ok_0) == f,
            Err(e) => r == Err::<QuestionFragment, ParseError>(e),
        },
{
    if text_is(name, "mc_question") {
        match McQuestion::parse(tokens) {
            Ok(q) => Ok(QuestionFragment::MultipleChoice(q)),
            Err(e) => Err(e),
        }
    } else if text_is(name, "open_question") {
        match OpenQuestion::parse(tokens) {
            Ok(q) => Ok(QuestionFragment::Open(q)),
            Err(e) => Err(e),
        }
    } else {
        Err(ParseError::UnknownQuestion(name.clone(), span))
    }
}

fn inline_item_exec(toks: &Vec<Token>, pos: usize, acc: &mut InlineQuestionList) -> (r: Result<usize, ParseError>)
    requires
        pos < toks@.len(),
    ensures
        match inline_item(toks@, pos as int, inline_view(*old(acc))) {
            Ok((a, q)) => r == Ok::<usize, ParseError>(q as usize) && inline_view(*final(acc)) == a
                && pos < q <= toks@.len(),
            Err(e) => r == Err::<usize, ParseError>(e),
        },
{
    let n = toks.len();
    if let Token::Macro { name, tokens, span } = &toks[pos] {
        match nested_question_exec(name, tokens, *span) {
            Ok(f) => {
                let ghost before = acc.questions@.map_values(|f: QuestionFragment| fragment_view(f));
                let ghost fv = fragment_view(f);
                acc.questions.push(f);
                assert(acc.questions@.map_values(|f: QuestionFragment| fragment_view(f)) =~= before.push(fv));
                return Ok(pos + 1);
            },
            Err(e) => {
                return Err(e);
            },
        }
    }
    let (name, fspan) = match parse_ident(toks, pos) {
        Ok(x) => x,
        Err(e) => {
            return Err(e);
        },
    };
    let p = pos + 1;
    if text_is(name, "title") {
        match parse_punct(toks, p, ':') {
            Ok(()) => {},
            Err(e) => {
                return Err(e);
            },
        }
        match parse_str(toks, p + 1) {
            Ok(t) => {
                acc.title = t;
                Ok(after_comma(toks, p + 2))
            },
            Err(e) => Err(e),
        }
    } else if text_is(name, "question") {
        match parse_punct(toks, p, ':') {
            Ok(()) => {},
            Err(e) => {
                return Err(e);
            },
        }
        match DocString::parse(toks, p + 1) {
            Ok((d, q)) => {
                acc.question_text = d;
                Ok(after_comma(toks, q))
            },
            Err(e) => Err(e),
        }
    } else {
        Err(ParseError::UnexpectedField(name.clone(), fspan))
    }
}

impl InlineQuestionList {
    /// Parses an inline list definition: fields `title: "..."` and
    /// `question:` with documentation lines, and nested `mc_question!` and
    /// `open_question!` definitions, in any order.
    pub fn parse(toks: &Vec<Token>) -> (r: Result<InlineQuestionList, ParseError>)
        ensures
            match inline_items(toks@, 0, inline_start()) {
                Ok(v) => r is Ok && inline_view(r->Ok_0) == v,
                Err(e) => r == Err::<InlineQuestionList, ParseError>(e),
            },
    {
        let mut acc = InlineQuestionList {
            title: String::new(),
            question_text: DocString { text: String::new() },
            questions: Vec::new(),
        };
        assert(inline_view(acc) =~= inline_start()) by {
            assert(acc.questions@.map_values(|f: QuestionFragment| fragment_view(f)) =~= Seq::<
                FragmentView,
            >::empty());
        }
        let mut pos: usize = 0;
        while pos < toks.len()
            invariant
                pos <= toks@.len(),
                inline_items(toks@, 0, inline_start()) == inline_items(toks@, pos as int, inline_view(acc)),
            decreases toks@.len() - pos,
        {
            pos = match inline_item_exec(toks, pos, &mut acc) {
                Ok(q) => q,
                Err(e) => {
                    return Err(e);
                },
            };
        }
        Ok(acc)
    }
}

} // verus!
