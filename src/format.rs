//! Turning the `#[doc = "..."]` attributes that a code formatter leaves in
//! emitted code back into `///` comments.
use vstd::prelude::*;

verus! {

/// The texts between the matches of the doc-attribute pattern, in order.
pub uninterp spec fn doc_attribute_gaps(code: Seq<char>) -> Seq<Seq<char>>;

/// The quoted payload of each match of the doc-attribute pattern, in order.
pub uninterp spec fn doc_attribute_payloads(code: Seq<char>) -> Seq<Seq<char>>;

/// Relies on `regex::Regex::split` with the pattern `#\[doc *= *"(.*)"\]`:
/// the parts of the text that no match covers.
#[verifier::external_body]
fn doc_gaps(code: &str) -> (r: Vec<String>)
    ensures
        r@.map_values(|s: String| s@) == doc_attribute_gaps(code@),
{
    regex::Regex::new(r#"#\[doc *= *"(.*)"\]"#).unwrap().split(code).map(|s| s.to_string()).collect()
}

/// Relies on `regex::Regex::captures_iter` with the pattern
/// `#\[doc *= *"(.*)"\]`: the first group of each successive match.
#[verifier::external_body]
fn doc_payloads(code: &str) -> (r: Vec<String>)
    ensures
        r@.map_values(|s: String| s@) == doc_attribute_payloads(code@),
{
    regex::Regex::new(r#"#\[doc *= *"(.*)"\]"#).unwrap().captures_iter(code).map(
        |c| c[1].to_string(),
    ).collect()
}

/// A text with every backslash that precedes a character other than a line
/// break removed, scanning left to right.
pub open spec fn unescaped(s: Seq<char>) -> Seq<char>
    decreases s.len(),
{
    if s.len() == 0 {
        s
    } else if s.len() >= 2 && s[0] == '\\' && s[1] != '\n' {
        seq![s[1]] + unescaped(s.skip(2))
    } else {
        seq![s[0]] + unescaped(s.skip(1))
    }
}

/// Relies on `regex::Regex::replace_all` with the pattern `\\(.)` and the
/// replacement `$1`: each backslash and the character after it (not a line
/// break) become that character.
#[verifier::external_body]
fn unescape(s: &str) -> (r: String)
    ensures
        r@ == unescaped(s@),
{
    regex::Regex::new(r"\\(.)").unwrap().replace_all(s, "$1").into_owned()
}

pub open spec fn gap_at(gaps: Seq<Seq<char>>, i: int) -> Seq<char> {
    if 0 <= i < gaps.len() {
        gaps[i]
    } else {
        Seq::empty()
    }
}

/// The first `n` gaps, each followed by `///` and the unescaped payload.
pub open spec fn commented(gaps: Seq<Seq<char>>, payloads: Seq<Seq<char>>, n: nat) -> Seq<char>
    decreases n,
{
    if n == 0 || n > payloads.len() {
        Seq::empty()
    } else {
        commented(gaps, payloads, (n - 1) as nat) + gap_at(gaps, n - 1) + "///"@ + unescaped(
            payloads[n - 1],
        )
    }
}

/// The text rebuilt from its gaps and payloads, with each payload written
/// as a `///` comment.
pub open spec fn rebuilt(gaps: Seq<Seq<char>>, payloads: Seq<Seq<char>>) -> Seq<char> {
    commented(gaps, payloads, payloads.len() as nat) + gap_at(gaps, payloads.len() as int)
}

/// Rebuilds a text from the gaps between its doc attributes and their
/// payloads, with each attribute written as a `///` comment.
pub fn rewrite_doc_pieces(gaps: &Vec<String>, payloads: &Vec<String>) -> (r: String)
    ensures
        r@ == rebuilt(gaps@.map_values(|s: String| s@), payloads@.map_values(|s: String| s@)),
{
    let ghost gv = gaps@.map_values(|s: String| s@);
    let ghost pv = payloads@.map_values(|s: String| s@);
    let mut out = String::new();
    let mut i: usize = 0;
    while i < payloads.len()
        invariant
            i <= payloads@.len(),
            gv == gaps@.map_values(|s: String| s@),
            pv == payloads@.map_values(|s: String| s@),
            out@ == commented(gv, pv, i as nat),
        decreases payloads@.len() - i,
    {
        if i < gaps.len() {
            out.append(gaps[i].as_str());
        }
        let payload = unescape(payloads[i].as_str());
        out.append("///");
        out.append(payload.as_str());
        proof {
            assert(pv[i as int] == payloads@[i as int]@);
            if (i as int) < gv.len() {
                assert(gv[i as int] == gaps@[i as int]@);
            }
            assert(out@ =~= commented(gv, pv, i as nat) + gap_at(gv, i as int) + "///"@ + unescaped(
                pv[i as int],
            ));
        }
        i = i + 1;
    }
    if i < gaps.len() {
        out.append(gaps[i].as_str());
    }
    proof {
        if (i as int) < gv.len() {
            assert(gv[i as int] == gaps@[i as int]@);
        }
        assert(out@ =~= rebuilt(gv, pv));
    }
    out
}

/// Formatted code with its doc attributes written as `///` comments.
pub fn doc_attributes_to_comments(code: &str) -> (r: String)
    ensures
        r@ == rebuilt(doc_attribute_gaps(code@), doc_attribute_payloads(code@)),
{
    let gaps = doc_gaps(code);
    let payloads = doc_payloads(code);
    rewrite_doc_pieces(&gaps, &payloads)
}

} // verus!
