//! Human-readable diagnostics for every error of the library.
use vstd::prelude::*;
use crate::attr::ToAttrError;
use crate::dsl::ParseError;
use crate::export::TreeError;
use crate::imports::ImportError;
use crate::questions::AssemblyError;
use crate::split::{Conditional, SplitError};

verus! {

/// The decimal digits of `n`.
pub open spec fn decimal(n: nat) -> Seq<char>
    decreases n,
{
    if n < 10 {
        seq![digit_char(n)]
    } else {
        decimal(n / 10) + seq![digit_char(n % 10)]
    }
}

pub open spec fn digit_char(d: nat) -> char {
    if d == 0 {
        '0'
    } else if d == 1 {
        '1'
    } else if d == 2 {
        '2'
    } else if d == 3 {
        '3'
    } else if d == 4 {
        '4'
    } else if d == 5 {
        '5'
    } else if d == 6 {
        '6'
    } else if d == 7 {
        '7'
    } else if d == 8 {
        '8'
    } else {
        '9'
    }
}

fn digit(d: usize) -> (r: &'static str)
    requires
        d < 10,
    ensures
        r@ == seq![digit_char(d as nat)],
{
    proof {
        reveal_strlit("0");
        reveal_strlit("1");
        reveal_strlit("2");
        reveal_strlit("3");
        reveal_strlit("4");
        reveal_strlit("5");
        reveal_strlit("6");
        reveal_strlit("7");
        reveal_strlit("8");
        reveal_strlit("9");
    }
    let r = if d == 0 {
        "0"
    } else if d == 1 {
        "1"
    } else if d == 2 {
        "2"
    } else if d == 3 {
        "3"
    } else if d == 4 {
        "4"
    } else if d == 5 {
        "5"
    } else if d == 6 {
        "6"
    } else if d == 7 {
        "7"
    } else if d == 8 {
        "8"
    } else {
        "9"
    };
    assert(r@ =~= seq![digit_char(d as nat)]);
    r
}

/// Appends the decimal digits of `n`.
fn push_decimal(out: &mut String, n: usize)
    ensures
        final(out)@ == old(out)@ + decimal(n as nat),
    decreases n,
{
    if n >= 10 {
        push_decimal(out, n / 10);
    }
    out.append(digit(n % 10));
    assert(final(out)@ =~= old(out)@ + decimal(n as nat));
}

fn text(s: &str) -> (r: String)
    ensures
        r@ == s@,
{
    s.to_owned()
}

pub open spec fn attr_error_message(e: ToAttrError) -> Seq<char> {
    match e {
        ToAttrError::Unrecognized(_) => "expected one of 'programming_assignment', 'solution', 'solution_template', 'test', 'test_template', 'library', 'main', 'title=\"...\"' or 'description=\"...\"'"@,
        ToAttrError::UnknownPayload(_) => "expected 'title' or 'description'"@,
        ToAttrError::ExpectedString(_) => "expected string"@,
        ToAttrError::Malformed(_) => "expected a non-empty list of markers"@,
    }
}

impl ToAttrError {
    pub fn message(&self) -> (r: String)
        ensures
            r@ == attr_error_message(*self),
    {
        match self {
            ToAttrError::Unrecognized(_) => text(
                "expected one of 'programming_assignment', 'solution', 'solution_template', 'test', 'test_template', 'library', 'main', 'title=\"...\"' or 'description=\"...\"'",
            ),
            ToAttrError::UnknownPayload(_) => text("expected 'title' or 'description'"),
            ToAttrError::ExpectedString(_) => text("expected string"),
            ToAttrError::Malformed(_) => text("expected a non-empty list of markers"),
        }
    }
}

pub open spec fn import_error_message(e: ImportError) -> Seq<char> {
    match e {
        ImportError::CrateRelative => "crate-relative imports break on weblab since weblab's generated project structure will be different to this one. Use relative imports (with super)"@,
        ImportError::Forbidden(name) => name@ + " cannot be imported in weblab and is therefore forbidden"@,
        ImportError::Mixed => "can't filter out only parts of this `use` statement. Some parts are not supposed to be shown to students on weblab."@,
    }
}

impl ImportError {
    pub fn message(&self) -> (r: String)
        ensures
            r@ == import_error_message(*self),
    {
        match self {
            ImportError::CrateRelative => text(
                "crate-relative imports break on weblab since weblab's generated project structure will be different to this one. Use relative imports (with super)",
            ),
            ImportError::Forbidden(name) => {
                let mut s = name.clone();
                s.append(" cannot be imported in weblab and is therefore forbidden");
                s
            },
            ImportError::Mixed => text(
                "can't filter out only parts of this `use` statement. Some parts are not supposed to be shown to students on weblab.",
            ),
        }
    }
}

pub open spec fn split_error_message(e: SplitError) -> Seq<char> {
    match e {
        SplitError::Attribute(a) => attr_error_message(a),
        SplitError::Import(i, _) => import_error_message(i),
        SplitError::UnbracedConditional(Conditional::TemplateOnly, _) => "use braces in template_only"@,
        SplitError::UnbracedConditional(Conditional::SolutionOnly, _) => "use braces in solution_only"@,
        SplitError::MultipleSolutionTemplates(_) => "multiple solution template blocks defined"@,
        SplitError::MultipleTestTemplates(_) => "multiple test template blocks defined"@,
        SplitError::MultipleLibraries(_) => "multiple library blocks defined"@,
        SplitError::MultipleReferenceSolutions(_) => "multiple reference solution blocks defined"@,
        SplitError::MultipleSpecTests(_) => "multiple spec test blocks defined"@,
        SplitError::NoSpectest => "assignment has no spectest"@,
        SplitError::NoReferenceSolution => "assignment has no reference solution"@,
        SplitError::MultipleTitles => "assignment has more than one title"@,
        SplitError::NotAnAssignmentRoot => "#[weblab(programming_assignment)] always needs to be the first attribute on a module containing the solution, test and library. Other attributes, #[weblab(...)] attributes and doc comments need to be below it or inside the module that's annotated with #[weblab(programming_assignment)]"@,
    }
}

impl SplitError {
    pub fn message(&self) -> (r: String)
        ensures
            r@ == split_error_message(*self),
    {
        match self {
            SplitError::Attribute(a) => a.message(),
            SplitError::Import(i, _) => i.message(),
            SplitError::UnbracedConditional(Conditional::TemplateOnly, _) => text(
                "use braces in template_only",
            ),
            SplitError::UnbracedConditional(Conditional::SolutionOnly, _) => text(
                "use braces in solution_only",
            ),
            SplitError::MultipleSolutionTemplates(_) => text(
                "multiple solution template blocks defined",
            ),
            SplitError::MultipleTestTemplates(_) => text("multiple test template blocks defined"),
            SplitError::MultipleLibraries(_) => text("multiple library blocks defined"),
            SplitError::MultipleReferenceSolutions(_) => text(
                "multiple reference solution blocks defined",
            ),
            SplitError::MultipleSpecTests(_) => text("multiple spec test blocks defined"),
            SplitError::NoSpectest => text("assignment has no spectest"),
            SplitError::NoReferenceSolution => text("assignment has no reference solution"),
            SplitError::MultipleTitles => text("assignment has more than one title"),
            SplitError::NotAnAssignmentRoot => text(
                "#[weblab(programming_assignment)] always needs to be the first attribute on a module containing the solution, test and library. Other attributes, #[weblab(...)] attributes and doc comments need to be below it or inside the module that's annotated with #[weblab(programming_assignment)]",
            ),
        }
    }
}

pub open spec fn assembly_error_message(e: AssemblyError) -> Seq<char> {
    match e {
        AssemblyError::MissingTitle => "expected title"@,
        AssemblyError::MissingQuestionText => "expected question text"@,
        AssemblyError::MissingQuestion => "expected question"@,
        AssemblyError::NoOptions => "expected at least one option (using `option \"text\"`)"@,
        AssemblyError::NoCorrectOption => "expected at least one option marked as correct (using `option \"text\" correct`)"@,
        AssemblyError::TooManyExpected { expected, available } => "you marked this question as requiring "@
            + decimal(expected as nat) + " but there are only "@ + decimal(available as nat)
            + " options"@,
    }
}

impl AssemblyError {
    pub fn message(&self) -> (r: String)
        ensures
            r@ == assembly_error_message(*self),
    {
        match self {
            AssemblyError::MissingTitle => text("expected title"),
            AssemblyError::MissingQuestionText => text("expected question text"),
            AssemblyError::MissingQuestion => text("expected question"),
            AssemblyError::NoOptions => text("expected at least one option (using `option \"text\"`)"),
            AssemblyError::NoCorrectOption => text(
                "expected at least one option marked as correct (using `option \"text\" correct`)",
            ),
            AssemblyError::TooManyExpected { expected, available } => {
                let mut s = text("you marked this question as requiring ");
                push_decimal(&mut s, *expected);
                s.append(" but there are only ");
                push_decimal(&mut s, *available);
                s.append(" options");
                s
            },
        }
    }
}

pub open spec fn tree_error_message(e: TreeError) -> Seq<char> {
    match e {
        TreeError::DuplicateTitle { folder, title } => "folder `"@ + folder@
            + "` contains multiple assignments with the name `"@ + title@
            + "`, which leads to ambiguity"@,
    }
}

impl TreeError {
    pub fn message(&self) -> (r: String)
        ensures
            r@ == tree_error_message(*self),
    {
        match self {
            TreeError::DuplicateTitle { folder, title } => {
                let mut s = text("folder `");
                s.append(folder.as_str());
                s.append("` contains multiple assignments with the name `");
                s.append(title.as_str());
                s.append("`, which leads to ambiguity");
                s
            },
        }
    }
}

pub open spec fn parse_error_message(e: ParseError) -> Seq<char> {
    match e {
        ParseError::UnexpectedEnd => "unexpected end of input"@,
        ParseError::ExpectedIdent(_) => "expected identifier"@,
        ParseError::ExpectedStr(_) => "expected string literal"@,
        ParseError::ExpectedInt(_) => "expected integer literal"@,
        ParseError::ExpectedPunct(c, _) => if c == ':' {
            "expected `:`"@
        } else if c == ',' {
            "expected `,`"@
        } else {
            "expected punctuation"@
        },
        ParseError::ExpectedCorrect(_) => "expected either the ident `correct` or nothing here"@,
        ParseError::ExpectedAnswers(_) => "expected the word answers here"@,
        ParseError::UnexpectedField(name, _) => "unexpected field name "@ + name@,
        ParseError::ExpectedDoc(_) => "expected doc=\"...\" here"@,
        ParseError::ExpectedDocString(_) => "expected string literal here"@,
        ParseError::UnknownQuestion(name, _) => "expected mc_question! or open_question!, found "@
            + name@,
    }
}

impl ParseError {
    pub fn message(&self) -> (r: String)
        ensures
            r@ == parse_error_message(*self),
    {
        match self {
            ParseError::UnexpectedEnd => text("unexpected end of input"),
            ParseError::ExpectedIdent(_) => text("expected identifier"),
            ParseError::ExpectedStr(_) => text("expected string literal"),
            ParseError::ExpectedInt(_) => text("expected integer literal"),
            ParseError::ExpectedPunct(c, _) => if *c == ':' {
                text("expected `:`")
            } else if *c == ',' {
                text("expected `,`")
            } else {
                text("expected punctuation")
            },
            ParseError::ExpectedCorrect(_) => text(
                "expected either the ident `correct` or nothing here",
            ),
            ParseError::ExpectedAnswers(_) => text("expected the word answers here"),
            ParseError::UnexpectedField(name, _) => {
                let mut s = text("unexpected field name ");
                s.append(name.as_str());
                s
            },
            ParseError::ExpectedDoc(_) => text("expected doc=\"...\" here"),
            ParseError::ExpectedDocString(_) => text("expected string literal here"),
            ParseError::UnknownQuestion(name, _) => {
                let mut s = text("expected mc_question! or open_question!, found ");
                s.append(name.as_str());
                s
            },
        }
    }
}

} // verus!
