//! Texts out of JSON documents.
use crate::text;
use vstd::prelude::*;
use vstd::string::*;

verus! {

/// The text that stands in the document `bytes` at a JSON pointer; none where the document
/// cannot be read or no text stands there.
pub uninterp spec fn text_at(bytes: Seq<u8>, pointer: Seq<char>) -> Option<Seq<char>>;

/// The members of the object that stands at `parent`, each with the text that stands in it at
/// `child`, if one does; none where the document cannot be read or no object stands there.
pub uninterp spec fn members_at(
    bytes: Seq<u8>,
    parent: Seq<char>,
    child: Seq<char>,
) -> Option<Seq<(Seq<char>, Option<Seq<char>>)>>;

pub open spec fn member_views(v: Seq<(String, Option<String>)>) -> Seq<
    (Seq<char>, Option<Seq<char>>),
> {
    Seq::new(v.len(), |i: int| (v[i].0@, text::opt_text(v[i].1)))
}

/// `serde_json::Value::pointer` on the document that `serde_json::from_slice` reads, and
/// `serde_json::Value::as_str` on what stands there. The result depends on the document and
/// the pointer alone.
#[verifier::external_body]
pub(crate) fn json_text(bytes: &[u8], pointer: &str) -> (r: Option<String>)
    ensures
        text::opt_text(r) == text_at(bytes@, pointer@),
{
    let document: serde_json::Value = serde_json::from_slice(bytes).ok()?;
    document.pointer(pointer)?.as_str().map(|s| s.to_string())
}

/// `serde_json::Value::as_object` on what stands at `parent` in the document that
/// `serde_json::from_slice` reads: its members, in the order of the map, each with what
/// `serde_json::Value::as_str` gives of what stands at `child` in it. The result depends on the
/// document and the two pointers alone.
#[verifier::external_body]
pub(crate) fn json_members(bytes: &[u8], parent: &str, child: &str) -> (r: Option<
    Vec<(String, Option<String>)>,
>)
    ensures
        match r {
            Some(v) => members_at(bytes@, parent@, child@) == Some(member_views(v@)),
            None => members_at(bytes@, parent@, child@) is None,
        },
{
    let document: serde_json::Value = serde_json::from_slice(bytes).ok()?;
    let object = document.pointer(parent)?.as_object()?;
    let text = |v: &serde_json::Value| Some(v.pointer(child)?.as_str()?.to_string());
    Some(object.iter().map(|(k, v)| (k.clone(), text(v))).collect())
}

/// The texts that the document `content` is a list of; none where it is something else.
pub uninterp spec fn strings_in(content: Seq<char>) -> Option<Seq<Seq<char>>>;

/// `serde_json::from_str` into a list of strings: the list, or nothing where the document
/// cannot be read as one. The result depends on the document alone.
#[verifier::external_body]
pub(crate) fn json_strings(content: &str) -> (r: Option<Vec<String>>)
    ensures
        match r {
            Some(v) => strings_in(content@) == Some(text::texts(v@)),
            None => strings_in(content@) is None,
        },
{
    serde_json::from_str::<Vec<String>>(content).ok()
}

} // verus!
