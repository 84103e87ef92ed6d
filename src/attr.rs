//! Markers attached to nodes of the authored tree, and their normalisation
//! into attributes.
use vstd::prelude::*;

verus! {

/// A place in the authored source, for diagnostics.
#[derive(Clone, Copy, Debug, PartialEq, Eq, Structural)]
pub struct Span {
    pub line: usize,
    pub column: usize,
}

/// The value on the right of a `name = value` marker.
pub enum MarkerValue {
    Str(String),
    NotStr,
}

/// One raw marker as the source parser delivers it.
pub enum Marker {
    /// A bare name, as in `solution`.
    Flag { name: String, span: Span },
    /// A name with a payload, as in `title = "Sum"`.
    Named { name: String, value: MarkerValue, span: Span, value_span: Span },
    /// Anything else: a path of several segments, a nested list or a bare literal.
    Other { span: Span },
}

/// An attribute line on a node: its path (`weblab`, `doc`, or another one),
/// the markers inside it, and its source text.
pub struct RawAttribute {
    pub path: String,
    pub markers: Vec<Marker>,
    pub text: String,
    pub span: Span,
}

/// A normalised marker.
#[derive(Clone, Debug, PartialEq, Eq)]
pub enum Attr {
    ProgrammingAssignment,
    Solution,
    SolutionTemplate,
    Test,
    TestTemplate,
    Library,
    Main,
    Title(String),
    Doc(String),
}

/// Why a marker could not be normalised.
#[derive(Clone, Copy, Debug, PartialEq, Eq, Structural)]
pub enum ToAttrError {
    /// A bare name outside the allowed set, or a marker of another shape.
    Unrecognized(Span),
    /// A payload marker other than `title`, `description` or `doc`.
    UnknownPayload(Span),
    /// A payload marker whose value is not a string.
    ExpectedString(Span),
    /// An attribute line whose markers do not have the expected count.
    Malformed(Span),
}

pub enum ParseAttrStatus {
    NotParsed(RawAttribute),
    Doc(Attr, RawAttribute),
    Attr(Vec<Attr>),
}

pub open spec fn flag_attr(name: Seq<char>) -> Option<Attr> {
    if name == "programming_assignment"@ {
        Some(Attr::ProgrammingAssignment)
    } else if name == "main"@ {
        Some(Attr::Main)
    } else if name == "solution"@ {
        Some(Attr::Solution)
    } else if name == "solution_template"@ {
        Some(Attr::SolutionTemplate)
    } else if name == "test"@ {
        Some(Attr::Test)
    } else if name == "test_template"@ {
        Some(Attr::TestTemplate)
    } else if name == "library"@ {
        Some(Attr::Library)
    } else {
        None
    }
}

pub open spec fn is_doc_name(name: Seq<char>) -> bool {
    name == "description"@ || name == "doc"@
}

/// What a single marker normalises to.
pub open spec fn marker_attr(m: Marker) -> Result<Attr, ToAttrError> {
    match m {
        Marker::Flag { name, span } => match flag_attr(name@) {
            Some(a) => Ok(a),
            None => Err(ToAttrError::Unrecognized(span)),
        },
        Marker::Named { name, value, span, value_span } => {
            if name@ == "title"@ || is_doc_name(name@) {
                match value {
                    MarkerValue::Str(s) => if name@ == "title"@ {
                        Ok(Attr::Title(s))
                    } else {
                        Ok(Attr::Doc(s))
                    },
                    MarkerValue::NotStr => Err(ToAttrError::ExpectedString(value_span)),
                }
            } else {
                Err(ToAttrError::UnknownPayload(span))
            }
        },
        Marker::Other { span } => Err(ToAttrError::Unrecognized(span)),
    }
}

/// The markers of a list in order, or the first marker that fails.
pub open spec fn markers_attrs(ms: Seq<Marker>) -> Result<Seq<Attr>, ToAttrError>
    decreases ms.len(),
{
    if ms.len() == 0 {
        Ok(Seq::empty())
    } else {
        match markers_attrs(ms.drop_last()) {
            Err(e) => Err(e),
            Ok(prefix) => match marker_attr(ms.last()) {
                Err(e) => Err(e),
                Ok(a) => Ok(prefix.push(a)),
            },
        }
    }
}

pub open spec fn is_weblab_attribute(a: RawAttribute) -> bool {
    a.path@ == "weblab"@
}

pub open spec fn is_doc_attribute(a: RawAttribute) -> bool {
    a.path@ == "doc"@
}

/// The attributes that one attribute line contributes: a `doc` line holds one
/// marker, a `weblab` line a non-empty list, and any other line none.
pub open spec fn raw_attrs(a: RawAttribute) -> Result<Seq<Attr>, ToAttrError> {
    if is_doc_attribute(a) {
        if a.markers@.len() == 1 {
            match marker_attr(a.markers@[0]) {
                Ok(x) => Ok(seq![x]),
                Err(e) => Err(e),
            }
        } else {
            Err(ToAttrError::Malformed(a.span))
        }
    } else if is_weblab_attribute(a) {
        if a.markers@.len() == 0 {
            Err(ToAttrError::Malformed(a.span))
        } else {
            markers_attrs(a.markers@)
        }
    } else {
        Ok(Seq::empty())
    }
}

/// The attributes of a list of attribute lines, in order, or the first failure.
pub open spec fn all_raw_attrs(s: Seq<RawAttribute>) -> Result<Seq<Attr>, ToAttrError>
    decreases s.len(),
{
    if s.len() == 0 {
        Ok(Seq::empty())
    } else {
        match all_raw_attrs(s.drop_last()) {
            Err(e) => Err(e),
            Ok(prefix) => match raw_attrs(s.last()) {
                Err(e) => Err(e),
                Ok(more) => Ok(prefix + more),
            },
        }
    }
}

/// Whether `s` holds exactly the characters of `lit`.
pub fn text_is(s: &String, lit: &str) -> (r: bool)
    ensures
        r == (s@ == lit@),
{
    let owned = lit.to_owned();
    *s == owned
}

impl Attr {
    /// A copy of this attribute.
    pub fn copy(&self) -> (r: Attr)
        ensures
            r == *self,
    {
        match self {
            Attr::ProgrammingAssignment => Attr::ProgrammingAssignment,
            Attr::Solution => Attr::Solution,
            Attr::SolutionTemplate => Attr::SolutionTemplate,
            Attr::Test => Attr::Test,
            Attr::TestTemplate => Attr::TestTemplate,
            Attr::Library => Attr::Library,
            Attr::Main => Attr::Main,
            Attr::Title(t) => Attr::Title(t.clone()),
            Attr::Doc(d) => Attr::Doc(d.clone()),
        }
    }

    /// Normalises one marker.
    pub fn from_marker(m: &Marker) -> (r: Result<Attr, ToAttrError>)
        ensures
            r == marker_attr(*m),
    {
        match m {
            Marker::Flag { name, span } => {
                if text_is(name, "programming_assignment") {
                    Ok(Attr::ProgrammingAssignment)
                } else if text_is(name, "main") {
                    Ok(Attr::Main)
                } else if text_is(name, "solution") {
                    Ok(Attr::Solution)
                } else if text_is(name, "solution_template") {
                    Ok(Attr::SolutionTemplate)
                } else if text_is(name, "test") {
                    Ok(Attr::Test)
                } else if text_is(name, "test_template") {
                    Ok(Attr::TestTemplate)
                } else if text_is(name, "library") {
                    Ok(Attr::Library)
                } else {
                    Err(ToAttrError::Unrecognized(*span))
                }
            },
            Marker::Named { name, value, span, value_span } => {
                let is_title = text_is(name, "title");
                let is_doc = text_is(name, "description") || text_is(name, "doc");
                if is_title || is_doc {
                    match value {
                        MarkerValue::Str(s) => if is_title {
                            Ok(Attr::Title(s.clone()))
                        } else {
                            Ok(Attr::Doc(s.clone()))
                        },
                        MarkerValue::NotStr => Err(ToAttrError::ExpectedString(*value_span)),
                    }
                } else {
                    Err(ToAttrError::UnknownPayload(*span))
                }
            },
            Marker::Other { span } => Err(ToAttrError::Unrecognized(*span)),
        }
    }
}

/// Normalises a list of markers, stopping at the first that fails.
pub fn parse_markers(ms: &Vec<Marker>) -> (r: Result<Vec<Attr>, ToAttrError>)
    ensures
        match markers_attrs(ms@) {
            Ok(s) => r is Ok && r->Ok_0@ == s,
            Err(e) => r == Err::<Vec<Attr>, ToAttrError>(e),
        },
{
    let mut out: Vec<Attr> = Vec::new();
    let mut i: usize = 0;
    while i < ms.len()
        invariant
            i <= ms@.len(),
            markers_attrs(ms@.subrange(0, i as int)) == Ok::<Seq<Attr>, ToAttrError>(out@),
        decreases ms@.len() - i,
    {
        assert(ms@.subrange(0, i as int + 1).drop_last() == ms@.subrange(0, i as int));
        match Attr::from_marker(&ms[i]) {
            Ok(a) => out.push(a),
            Err(e) => {
                proof {
                    lemma_markers_attrs_err_extends(ms@, i as int + 1);
                }
                return Err(e);
            },
        }
        i = i + 1;
    }
    assert(ms@.subrange(0, ms@.len() as int) == ms@);
    Ok(out)
}

/// Once a prefix of the markers fails, the whole list fails with that error.
proof fn lemma_markers_attrs_err_extends(ms: Seq<Marker>, k: int)
    requires
        0 <= k <= ms.len(),
        markers_attrs(ms.subrange(0, k)) is Err,
    ensures
        markers_attrs(ms) == markers_attrs(ms.subrange(0, k)),
    decreases ms.len() - k,
{
    if k < ms.len() {
        assert(ms.subrange(0, k + 1).drop_last() == ms.subrange(0, k));
        lemma_markers_attrs_err_extends(ms, k + 1);
    } else {
        assert(ms.subrange(0, k) == ms);
    }
}

/// The attributes that one attribute line contributes.
pub fn attrs_of(a: &RawAttribute) -> (r: Result<Vec<Attr>, ToAttrError>)
    ensures
        match raw_attrs(*a) {
            Ok(s) => r is Ok && r->Ok_0@ == s,
            Err(e) => r == Err::<Vec<Attr>, ToAttrError>(e),
        },
{
    if text_is(&a.path, "doc") {
        if a.markers.len() == 1 {
            match Attr::from_marker(&a.markers[0]) {
                Ok(x) => {
                    let v = vec![x];
                    assert(v@ == seq![x]);
                    Ok(v)
                },
                Err(e) => Err(e),
            }
        } else {
            Err(ToAttrError::Malformed(a.span))
        }
    } else if text_is(&a.path, "weblab") {
        if a.markers.len() == 0 {
            Err(ToAttrError::Malformed(a.span))
        } else {
            parse_markers(&a.markers)
        }
    } else {
        Ok(Vec::new())
    }
}

/// Normalises one attribute line. A `doc` line yields its description and is
/// handed back, as it stays in the emitted code; a `weblab` line yields its
/// markers; any other line is handed back untouched.
pub fn parse_attr(attr: RawAttribute) -> (r: Result<ParseAttrStatus, ToAttrError>)
    ensures
        is_doc_attribute(attr) ==> match raw_attrs(attr) {
            Ok(s) => (r matches Ok(ParseAttrStatus::Doc(x, back)) && s == seq![x] && back == attr),
            Err(e) => r == Err::<ParseAttrStatus, ToAttrError>(e),
        },
        is_weblab_attribute(attr) ==> match raw_attrs(attr) {
            Ok(s) => (r matches Ok(ParseAttrStatus::Attr(v)) && v@ == s),
            Err(e) => r == Err::<ParseAttrStatus, ToAttrError>(e),
        },
        !is_doc_attribute(attr) && !is_weblab_attribute(attr) ==> (r matches Ok(
            ParseAttrStatus::NotParsed(back),
        ) && back == attr),
{
    proof {
        reveal_strlit("doc");
        reveal_strlit("weblab");
        assert("doc"@ != "weblab"@) by {
            assert("doc"@.len() != "weblab"@.len());
        }
    }
    let parsed = attrs_of(&attr);
    if text_is(&attr.path, "doc") {
        match parsed {
            Ok(mut v) => {
                let x = v.remove(0);
                Ok(ParseAttrStatus::Doc(x, attr))
            },
            Err(e) => Err(e),
        }
    } else if text_is(&attr.path, "weblab") {
        match parsed {
            Ok(v) => Ok(ParseAttrStatus::Attr(v)),
            Err(e) => Err(e),
        }
    } else {
        Ok(ParseAttrStatus::NotParsed(attr))
    }
}

/// The attributes of a list of attribute lines, in order.
pub fn attrs_of_all(s: &Vec<RawAttribute>) -> (r: Result<Vec<Attr>, ToAttrError>)
    ensures
        match all_raw_attrs(s@) {
            Ok(x) => r is Ok && r->Ok_0@ == x,
            Err(e) => r == Err::<Vec<Attr>, ToAttrError>(e),
        },
{
    let mut out: Vec<Attr> = Vec::new();
    let mut i: usize = 0;
    while i < s.len()
        invariant
            i <= s@.len(),
            all_raw_attrs(s@.subrange(0, i as int)) == Ok::<Seq<Attr>, ToAttrError>(out@),
        decreases s@.len() - i,
    {
        assert(s@.subrange(0, i as int + 1).drop_last() == s@.subrange(0, i as int));
        assert(s@.subrange(0, i as int + 1).last() == s@[i as int]);
        match attrs_of(&s[i]) {
            Ok(mut more) => {
                let ghost before = out@;
                let ghost added = more@;
                out.append(&mut more);
                assert(out@ == before + added);
            },
            Err(e) => {
                proof {
                    lemma_all_raw_attrs_err_extends(s@, i as int + 1);
                }
                return Err(e);
            },
        }
        i = i + 1;
    }
    assert(s@.subrange(0, s@.len() as int) == s@);
    Ok(out)
}

proof fn lemma_all_raw_attrs_err_extends(s: Seq<RawAttribute>, k: int)
    requires
        0 <= k <= s.len(),
        all_raw_attrs(s.subrange(0, k)) is Err,
    ensures
        all_raw_attrs(s) == all_raw_attrs(s.subrange(0, k)),
    decreases s.len() - k,
{
    if k < s.len() {
        assert(s.subrange(0, k + 1).drop_last() == s.subrange(0, k));
        lemma_all_raw_attrs_err_extends(s, k + 1);
    } else {
        assert(s.subrange(0, k) == s);
    }
}

/// The markers given as the arguments of the root marker line.
pub fn parse_attr_stream(markers: &Vec<Marker>) -> (r: Result<Vec<Attr>, ToAttrError>)
    ensures
        match markers_attrs(markers@) {
            Ok(s) => r is Ok && r->Ok_0@ == s,
            Err(e) => r == Err::<Vec<Attr>, ToAttrError>(e),
        },
{
    parse_markers(markers)
}

} // verus!
