//! The record decoder: turns one raw line into a verdict.
use vstd::prelude::*;

verus! {

/// What a generic JSON parse of a line yields for the discriminator:
/// `None` when the text is not JSON; `Some(None)` when it is JSON whose
/// `msg` field is absent or not a string; `Some(Some(m))` when `msg` is `m`.
pub uninterp spec fn json_discriminator(s: Seq<char>) -> Option<Option<Seq<char>>>;

/// The discriminator value of the lines this pipeline ingests.
pub open spec fn handled_request_marker() -> Seq<char> {
    "handled request"@
}

pub open spec fn opt_view(m: Option<String>) -> Option<Seq<char>> {
    match m {
        Some(s) => Some(s@),
        None => None,
    }
}

/// Relies on serde_json::from_str into a generic `serde_json::Value`, then
/// `Value::get("msg")` and `Value::as_str`: reads the discriminator field, or
/// hands back the parse error's message.
#[verifier::external_body]
fn read_discriminator(line: &str) -> (r: Result<Option<String>, String>)
    ensures
        match r {
            Ok(m) => json_discriminator(line@) == Some(opt_view(m)),
            Err(_) => json_discriminator(line@).is_none(),
        },
{
    match serde_json::from_str::<serde_json::Value>(line) {
        Ok(v) => Ok(v.get("msg").and_then(serde_json::Value::as_str).map(String::from)),
        Err(e) => Err(e.to_string()),
    }
}

/// The kind of a line, as a function of its text alone.
#[derive(PartialEq, Eq, Structural, Clone, Copy, Debug)]
pub enum LineKind {
    /// An empty line: skipped before any parsing.
    Blank,
    /// Text that is not JSON: a decode error.
    Malformed,
    /// JSON of another kind than a handled request: skipped silently.
    Ignored,
    /// A handled-request event, to be decoded into a record.
    Matched,
}

pub open spec fn kind_of(s: Seq<char>) -> LineKind {
    if s.len() == 0 {
        LineKind::Blank
    } else {
        match json_discriminator(s) {
            None => LineKind::Malformed,
            Some(Some(m)) => if m == handled_request_marker() {
                LineKind::Matched
            } else {
                LineKind::Ignored
            },
            Some(None) => LineKind::Ignored,
        }
    }
}

/// The verdict on one line, with the parse error's detail for a malformed one.
#[derive(Debug)]
pub enum LineVerdict {
    Blank,
    Malformed(String),
    Ignored,
    Matched,
}

impl LineVerdict {
    pub open spec fn kind(&self) -> LineKind {
        match self {
            LineVerdict::Blank => LineKind::Blank,
            LineVerdict::Malformed(_) => LineKind::Malformed,
            LineVerdict::Ignored => LineKind::Ignored,
            LineVerdict::Matched => LineKind::Matched,
        }
    }

    /// The kind of this verdict.
    pub fn line_kind(&self) -> (r: LineKind)
        ensures
            r == self.kind(),
    {
        match self {
            LineVerdict::Blank => LineKind::Blank,
            LineVerdict::Malformed(_) => LineKind::Malformed,
            LineVerdict::Ignored => LineKind::Ignored,
            LineVerdict::Matched => LineKind::Matched,
        }
    }
}

/// Whether a discriminator value marks a handled request.
pub fn is_handled_request(m: &String) -> (r: bool)
    ensures
        r == (m@ == handled_request_marker()),
{
    let marker: String = "handled request".to_owned();
    *m == marker
}

/// Decides what becomes of one line: blank lines are skipped before parsing,
/// text that is not JSON is a decode error, JSON without the handled-request
/// discriminator is skipped silently, and the rest are matched.
pub fn classify_line(line: &str) -> (r: LineVerdict)
    ensures
        r.kind() == kind_of(line@),
{
    if line.is_empty() {
        return LineVerdict::Blank;
    }
    match read_discriminator(line) {
        Err(e) => LineVerdict::Malformed(e),
        Ok(None) => LineVerdict::Ignored,
        Ok(Some(m)) => {
            if is_handled_request(&m) {
                LineVerdict::Matched
            } else {
                LineVerdict::Ignored
            }
        },
    }
}

} // verus!
