//! Paths as texts, joined and taken apart at slashes.
use crate::text::{ends_with, split_string, starts_with};
use crate::text;
use vstd::prelude::*;
use vstd::string::*;

verus! {

/// `part` below `base`: an absolute part replaces the base.
pub open spec fn joined(base: Seq<char>, part: Seq<char>) -> Seq<char> {
    if text::begins(part, "/"@) || base.len() == 0 {
        part
    } else if text::ends(base, "/"@) {
        base + part
    } else {
        base + "/"@ + part
    }
}

pub fn join_path(base: &str, part: &str) -> (r: String)
    ensures
        r@ == joined(base@, part@),
{
    if starts_with(part, "/") || base.is_empty() {
        return part.to_string();
    }
    let mut out: String = base.to_string();
    if !ends_with(base, "/") {
        out.append("/");
    }
    out.append(part);
    out
}

/// The text after the last slash.
pub open spec fn base_name(path: Seq<char>) -> Seq<char> {
    text::split_on(path, '/').last()
}

pub fn last_component(path: &str) -> (r: String)
    ensures
        r@ == base_name(path@),
{
    let parts = split_string(path, '/');
    let n: usize = parts.len();
    assert(text::texts(parts@).last() == parts@[n - 1]@);
    parts[n - 1].clone()
}

} // verus!
