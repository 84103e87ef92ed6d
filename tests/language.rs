use weblab::attr::{Marker, MarkerValue, Span};
use weblab::dsl::{ParseError, Token};
use weblab::questions::{inline_question_list, mc_question, DocString, InlineQuestionList, McQuestion, OpenQuestion, QuestionFragment};
use weblab::structure::{MCStyle, WeblabAssignment};

fn sp(column: usize) -> Span {
    Span { line: 1, column }
}

fn ident(n: &str) -> Token {
    Token::Ident { name: n.to_string(), span: sp(n.len()) }
}

fn lit(s: &str) -> Token {
    Token::Str { value: s.to_string(), span: sp(0) }
}

fn punct(ch: char) -> Token {
    Token::Punct { ch, span: sp(1) }
}

fn doc(text: &str) -> Token {
    Token::Attribute {
        marker: Marker::Named {
            name: "doc".to_string(),
            value: MarkerValue::Str(text.to_string()),
            span: sp(2),
            value_span: sp(3),
        },
        span: sp(2),
    }
}

/// The tokens of the example multiple-choice definition.
fn mc_tokens() -> Vec<Token> {
    vec![
        ident("title"), punct(':'), lit("example mc"), punct(','),
        ident("question"), punct(':'), doc(" Explain how you answered this question"), doc(""), doc(" # Markdown works here too"),
        ident("explanation"), punct(':'), doc(" This explains the correct answer."),
        ident("option"), lit("not"), ident("correct"), punct(','),
        ident("option"), lit("a bit"), ident("correct"), punct(','),
        ident("option"), lit("lots"), punct(','),
        ident("expect"), Token::Int { value: 1, span: sp(4) }, ident("answers"), punct(','),
        ident("randomize"),
    ]
}

fn open_tokens() -> Vec<Token> {
    vec![
        ident("title"), punct(':'), lit("example open"), punct(','),
        ident("question"), punct(':'), doc(" Explain how you answered this question"),
        ident("answer"), punct(':'), doc(" while typing"),
    ]
}

#[test]
fn mc_definition_parses() {
    let q = McQuestion::parse(&mc_tokens()).unwrap();
    assert_eq!(q.title, "example mc");
    assert_eq!(q.question_text.text, "Explain how you answered this question\n\n# Markdown works here too");
    assert_eq!(q.explanation.text, "This explains the correct answer.");
    assert_eq!(q.options.len(), 3);
    assert_eq!(q.options[1].text, "a bit");
    assert!(q.options[1].correct);
    assert!(!q.options[2].correct);
    assert_eq!(q.num_answers_expected, 1);
    assert!(q.randomize);
    match mc_question(q) {
        Ok(WeblabAssignment::MultipleChoice(m)) => assert_eq!(m.style, MCStyle::NumCorrect(1)),
        _ => panic!("expected a multiple-choice question"),
    }
}

#[test]
fn mc_definition_defaults_and_multiple() {
    let q = McQuestion::parse(&vec![ident("option"), lit("x"), punct(',')]).unwrap();
    assert_eq!(q.num_answers_expected, 1);
    assert!(!q.randomize);
    assert_eq!(q.title, "");
    let q = McQuestion::parse(&vec![ident("multiple")]).unwrap();
    assert_eq!(q.num_answers_expected, 0);
}

#[test]
fn mc_definition_errors() {
    assert_eq!(
        McQuestion::parse(&vec![ident("option"), lit("x"), ident("right"), punct(',')]).err(),
        Some(ParseError::ExpectedCorrect(sp(5)))
    );
    assert_eq!(McQuestion::parse(&vec![ident("option"), lit("x")]).err(), Some(ParseError::UnexpectedEnd));
    assert_eq!(
        McQuestion::parse(&vec![ident("expect"), Token::Int { value: 2, span: sp(4) }, ident("options")]).err(),
        Some(ParseError::ExpectedAnswers(sp(6)))
    );
    assert_eq!(
        McQuestion::parse(&vec![ident("colour")]).err(),
        Some(ParseError::UnexpectedField("colour".to_string(), sp(6)))
    );
    assert_eq!(McQuestion::parse(&vec![lit("x")]).err(), Some(ParseError::ExpectedIdent(sp(0))));
    assert_eq!(
        McQuestion::parse(&vec![ident("title"), lit("x")]).err(),
        Some(ParseError::ExpectedPunct(':', sp(0)))
    );
    let bad_doc = Token::Attribute { marker: Marker::Other { span: sp(8) }, span: sp(9) };
    assert_eq!(
        McQuestion::parse(&vec![ident("question"), punct(':'), bad_doc]).err(),
        Some(ParseError::ExpectedDoc(sp(9)))
    );
    let not_str = Token::Attribute {
        marker: Marker::Named { name: "doc".to_string(), value: MarkerValue::NotStr, span: sp(8), value_span: sp(7) },
        span: sp(9),
    };
    assert_eq!(
        McQuestion::parse(&vec![ident("question"), punct(':'), not_str]).err(),
        Some(ParseError::ExpectedDocString(sp(7)))
    );
}

#[test]
fn open_definition_parses() {
    let q = OpenQuestion::parse(&open_tokens()).unwrap();
    assert_eq!(q.title, "example open");
    assert_eq!(q.question_text.text, "Explain how you answered this question");
    assert_eq!(q.answer.text, "while typing");
    assert_eq!(OpenQuestion::parse(&vec![ident("title"), lit("t")]).err(), Some(ParseError::ExpectedPunct(':', sp(0))));
    assert_eq!(
        OpenQuestion::parse(&vec![ident("hint"), punct(':'), lit("t")]).err(),
        Some(ParseError::UnexpectedField("hint".to_string(), sp(4)))
    );
}

#[test]
fn doc_lines_stop_at_other_tokens() {
    let toks = vec![doc(" a"), doc("  b"), ident("x")];
    let (d, end) = DocString::parse(&toks, 0).unwrap();
    assert_eq!(d.text, "a\nb");
    assert_eq!(end, 2);
    let (d, end) = DocString::parse(&toks, 2).unwrap();
    assert_eq!(d.text, "");
    assert_eq!(end, 2);
}

#[test]
fn inline_list_parses_and_assembles() {
    let toks = vec![
        ident("title"), punct(':'), lit("example of inline question list"), punct(','),
        ident("question"), punct(':'), doc(" With a question list, you can make multiple inline questions."),
        Token::Macro { name: "mc_question".to_string(), tokens: mc_tokens(), span: sp(10) },
        Token::Macro { name: "open_question".to_string(), tokens: open_tokens(), span: sp(11) },
    ];
    let list = InlineQuestionList::parse(&toks).unwrap();
    assert_eq!(list.title, "example of inline question list");
    assert_eq!(list.questions.len(), 2);
    assert!(matches!(list.questions[0], QuestionFragment::MultipleChoice(_)));
    assert!(matches!(list.questions[1], QuestionFragment::Open(_)));
    match inline_question_list(list) {
        Ok(WeblabAssignment::InlineQuestionList(l)) => {
            assert_eq!(l.assignments.len(), 2);
            assert_eq!(l.assignments[1].title(), "example open");
            assert_eq!(l.assignment_text, "With a question list, you can make multiple inline questions.");
        }
        _ => panic!("expected an inline list"),
    }
    let unknown = vec![Token::Macro { name: "essay".to_string(), tokens: vec![], span: sp(12) }];
    assert_eq!(InlineQuestionList::parse(&unknown).err(), Some(ParseError::UnknownQuestion("essay".to_string(), sp(12))));
    let nested_error = vec![Token::Macro { name: "mc_question".to_string(), tokens: vec![ident("colour")], span: sp(12) }];
    assert_eq!(
        InlineQuestionList::parse(&nested_error).err(),
        Some(ParseError::UnexpectedField("colour".to_string(), sp(6)))
    );
}

#[test]
fn parse_error_messages() {
    assert_eq!(ParseError::UnexpectedField("colour".to_string(), sp(1)).message(), "unexpected field name colour");
    assert_eq!(ParseError::ExpectedCorrect(sp(1)).message(), "expected either the ident `correct` or nothing here");
    assert_eq!(ParseError::ExpectedAnswers(sp(1)).message(), "expected the word answers here");
    assert_eq!(ParseError::ExpectedDoc(sp(1)).message(), "expected doc=\"...\" here");
    assert_eq!(ParseError::ExpectedDocString(sp(1)).message(), "expected string literal here");
    assert_eq!(ParseError::ExpectedPunct(':', sp(1)).message(), "expected `:`");
}
