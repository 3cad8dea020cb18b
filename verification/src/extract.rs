//! Extractor: turns one raw metadata document into a [`Package`] record or
//! a per-document error.
//!
//! Parsing is delegated to `serde_json`; everything the extractor reads from
//! the parsed document is brought back as plain values, and the attribute
//! rules — `type == "module"`, and the textual `"require"` substring
//! heuristic over the serialized `exports` field — are verified here.
use vstd::prelude::*;

verus! {

use crate::Package;
use crate::PackageView;

/// The plain values the extractor reads from a parsed document: the `name`
/// and `type` fields where present and strings, and the `exports` field
/// serialized back to text (as UTF-8 bytes) where present.
pub struct ExtractedDoc {
    pub name: Option<String>,
    pub package_type: Option<String>,
    pub exports_text: Option<Vec<u8>>,
}

/// Mathematical image of an [`ExtractedDoc`].
pub struct DocView {
    pub name: Option<Seq<char>>,
    pub package_type: Option<Seq<char>>,
    pub exports_text: Option<Seq<u8>>,
}

impl View for ExtractedDoc {
    type V = DocView;

    open spec fn view(&self) -> DocView {
        DocView {
            name: match self.name {
                Some(n) => Some(n@),
                None => None,
            },
            package_type: match self.package_type {
                Some(t) => Some(t@),
                None => None,
            },
            exports_text: match self.exports_text {
                Some(e) => Some(e@),
                None => None,
            },
        }
    }
}

/// What parsing a raw document text yields: `None` where the text is not a
/// structured document at all, otherwise the three fields the extractor
/// reads. A function of the text alone.
pub uninterp spec fn doc_of(raw: Seq<char>) -> Option<DocView>;

spec fn opt_doc_view(r: Option<ExtractedDoc>) -> Option<DocView> {
    match r {
        Some(d) => Some(d@),
        None => None,
    }
}

/// Relies on `serde_json::from_str` to parse the document and on
/// `Value::get`, `Value::as_str` and `Value::to_string` to read the `name`,
/// `type` and `exports` fields; the result depends on the text alone.
#[verifier::external_body]
fn parse_package_doc(raw: &str) -> (r: Option<ExtractedDoc>)
    ensures
        opt_doc_view(r) == doc_of(raw@),
{
    let v: serde_json::Value = match serde_json::from_str(raw) {
        Ok(v) => v,
        Err(_) => return None,
    };
    Some(ExtractedDoc {
        name: v.get("name").and_then(|n| n.as_str()).map(|s| s.to_owned()),
        package_type: v.get("type").and_then(|t| t.as_str()).map(|s| s.to_owned()),
        exports_text: v.get("exports").map(|e| e.to_string().into_bytes()),
    })
}

/// `p` occurs as a contiguous run in `t` starting at index `i`.
pub open spec fn is_match_at(t: Seq<u8>, p: Seq<u8>, i: int) -> bool {
    0 <= i && i + p.len() <= t.len() && t.subrange(i, i + p.len() as int) == p
}

/// `p` occurs somewhere in `t` as a contiguous run.
pub open spec fn contains_seq(t: Seq<u8>, p: Seq<u8>) -> bool {
    exists|i: int| is_match_at(t, p, i)
}

/// The UTF-8 bytes of the substring the exports heuristic looks for:
/// `"require"`.
pub open spec fn require_seq() -> Seq<u8> {
    seq![114u8, 101u8, 113u8, 117u8, 105u8, 114u8, 101u8]
}

fn require_pattern() -> (r: Vec<u8>)
    ensures
        r@ == require_seq(),
{
    let mut v: Vec<u8> = Vec::new();
    v.push(114u8);
    v.push(101u8);
    v.push(113u8);
    v.push(117u8);
    v.push(105u8);
    v.push(114u8);
    v.push(101u8);
    assert(v@ =~= require_seq());
    v
}

fn matches_at(text: &[u8], pat: &[u8], i: usize) -> (r: bool)
    requires
        i + pat@.len() <= text@.len(),
    ensures
        r == is_match_at(text@, pat@, i as int),
{
    let tl: usize = text.len();
    let pl: usize = pat.len();
    let mut j: usize = 0;
    while j < pl
        invariant
            tl == text@.len(),
            pl == pat@.len(),
            i + pat@.len() <= text@.len(),
            0 <= j <= pat@.len(),
            forall|k: int| 0 <= k < j ==> text@[i + k] == pat@[k],
        decreases pat@.len() - j,
    {
        if text[i + j] != pat[j] {
            proof {
                if text@.subrange(i as int, i + pat@.len()) == pat@ {
                    assert(text@.subrange(i as int, i + pat@.len())[j as int] == text@[i + j]);
                }
            }
            return false;
        }
        j += 1;
    }
    assert(text@.subrange(i as int, i + pat@.len()) =~= pat@);
    true
}

/// Verified substring search: whether `pat` occurs as a contiguous run of
/// bytes anywhere in `text`.
pub fn contains_subseq(text: &[u8], pat: &[u8]) -> (r: bool)
    ensures
        r == contains_seq(text@, pat@),
{
    if pat.len() > text.len() {
        assert(forall|k: int| !is_match_at(text@, pat@, k));
        return false;
    }
    if pat.len() == 0 {
        assert(is_match_at(text@, pat@, 0)) by {
            assert(text@.subrange(0, 0) =~= pat@);
        }
        return true;
    }
    let end: usize = text.len() - pat.len();
    let mut i: usize = 0;
    while i <= end
        invariant
            1 <= pat@.len() <= text@.len(),
            end == text@.len() - pat@.len(),
            end < usize::MAX,
            0 <= i <= end + 1,
            forall|k: int| 0 <= k < i ==> !is_match_at(text@, pat@, k),
        decreases end + 1 - i,
    {
        if matches_at(text, pat, i) {
            return true;
        }
        i += 1;
    }
    assert(forall|k: int| !is_match_at(text@, pat@, k)) by {
        assert(forall|k: int| k > end ==> !is_match_at(text@, pat@, k));
    }
    false
}

/// A per-document extraction failure. Each one is isolated: it skips this
/// document only and never affects the extraction of any other document.
#[derive(Debug)]
pub enum ExtractError {
    /// The text did not parse as a structured document; the raw text is
    /// kept for diagnostics.
    Parse(String),
    /// The document parsed but had no `name` field holding a string.
    MissingName,
}

/// The record a successfully parsed document must yield, or `None` where
/// the document has no string `name` field:
/// - `type_module` is true exactly when the `type` field is the string
///   `"module"`;
/// - with an `exports` field present, `exports_require` is true exactly
///   when its serialized text contains the substring `"require"`, and
///   `exports_no_require` is its negation;
/// - with no `exports` field, both exports attributes are false.
pub open spec fn record_of_doc(d: DocView) -> Option<PackageView> {
    match d.name {
        None => None,
        Some(n) => Some(
            PackageView {
                name: n,
                type_module: d.package_type == Some("module"@),
                exports_require: match d.exports_text {
                    Some(e) => contains_seq(e, require_seq()),
                    None => false,
                },
                exports_no_require: match d.exports_text {
                    Some(e) => !contains_seq(e, require_seq()),
                    None => false,
                },
            },
        ),
    }
}

/// Law (record invariant): whatever the document, an extracted record
/// never has both exports attributes true, and has both false exactly
/// when the document carried no `exports` field.
pub proof fn lemma_record_invariant(d: DocView)
    ensures
        match record_of_doc(d) {
            Some(p) => p.wf() && ((d.exports_text is None) == (!p.exports_require
                && !p.exports_no_require)),
            None => true,
        },
{
}

/// Extract the attribute record from one raw document text.
///
/// Returns `Err(Parse(raw))` exactly when the text does not parse,
/// `Err(MissingName)` exactly when it parses but has no string `name`
/// field, and otherwise exactly the record that [`record_of_doc`]
/// prescribes. Every returned record satisfies the exports-exclusion
/// invariant, and both exports attributes are false whenever the document
/// had no `exports` field.
pub fn extract(raw: &str) -> (r: Result<Package, ExtractError>)
    ensures
        match doc_of(raw@) {
            None => r matches Err(ExtractError::Parse(s)) && s@ == raw@,
            Some(d) => match record_of_doc(d) {
                None => r matches Err(ExtractError::MissingName),
                Some(pv) => r matches Ok(p) && p@ == pv,
            },
        },
        r matches Ok(p) ==> p@.wf(),
        match (doc_of(raw@), r) {
            (Some(d), Ok(p)) => d.exports_text is None ==> !p.exports_require
                && !p.exports_no_require,
            _ => true,
        },
{
    match parse_package_doc(raw) {
        None => Err(ExtractError::Parse(raw.to_owned())),
        Some(doc) => extract_from_doc(doc),
    }
}

/// Derive the attribute record from an already-parsed document: exactly
/// the record that [`record_of_doc`] prescribes, or `Err(MissingName)`
/// exactly when the document has no string `name` field.
pub fn extract_from_doc(doc: ExtractedDoc) -> (r: Result<Package, ExtractError>)
    ensures
        match record_of_doc(doc@) {
            None => r matches Err(ExtractError::MissingName),
            Some(pv) => r matches Ok(p) && p@ == pv,
        },
        r matches Ok(p) ==> p@.wf(),
{
    let ExtractedDoc { name, package_type, exports_text } = doc;
    match name {
        None => Err(ExtractError::MissingName),
        Some(name) => {
            let type_module = match &package_type {
                Some(t) => *t == "module".to_owned(),
                None => false,
            };
            let (exports_require, exports_no_require) = match &exports_text {
                Some(e) => {
                    let pat = require_pattern();
                    if contains_subseq(e.as_slice(), pat.as_slice()) {
                        (true, false)
                    } else {
                        (false, true)
                    }
                },
                None => (false, false),
            };
            Ok(Package { name, exports_require, exports_no_require, type_module })
        },
    }
}

} // verus!
