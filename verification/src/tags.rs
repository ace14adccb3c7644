//! Colours of the method and status tags.

use vstd::prelude::*;
use crate::env_store::{decimal_seq, decimal_string};
use crate::text::{push_str, str_eq, string_of};

verus! {

/// Tag colours.
#[derive(Clone, Copy, Debug, PartialEq, Eq, Structural)]
pub enum TagColor {
    Green,
    Blue,
    Yellow,
    Orange,
    Red,
    Purple,
    Gray,
    Neutral,
}

/// The colour of a method's tag.
pub open spec fn method_color_spec(method: Seq<char>) -> TagColor {
    if method == "GET"@ {
        TagColor::Green
    } else if method == "POST"@ {
        TagColor::Blue
    } else if method == "PUT"@ {
        TagColor::Yellow
    } else if method == "PATCH"@ {
        TagColor::Orange
    } else if method == "DELETE"@ {
        TagColor::Red
    } else if method == "HEAD"@ {
        TagColor::Purple
    } else if method == "OPTIONS"@ {
        TagColor::Gray
    } else {
        TagColor::Neutral
    }
}

/// The colour of a method's tag; the tag shows the method as given.
pub fn method_tag_color(method: &str) -> (r: TagColor)
    ensures
        r == method_color_spec(method@),
{
    if str_eq(method, "GET") {
        TagColor::Green
    } else if str_eq(method, "POST") {
        TagColor::Blue
    } else if str_eq(method, "PUT") {
        TagColor::Yellow
    } else if str_eq(method, "PATCH") {
        TagColor::Orange
    } else if str_eq(method, "DELETE") {
        TagColor::Red
    } else if str_eq(method, "HEAD") {
        TagColor::Purple
    } else if str_eq(method, "OPTIONS") {
        TagColor::Gray
    } else {
        TagColor::Neutral
    }
}

/// The colour of a status tag: green for success, yellow for redirects,
/// red for anything else.
pub fn status_tag_color(code: u16) -> (r: TagColor)
    ensures
        r == if 200 <= code <= 299 {
            TagColor::Green
        } else if 300 <= code <= 399 {
            TagColor::Yellow
        } else {
            TagColor::Red
        },
{
    if 200 <= code && code <= 299 {
        TagColor::Green
    } else if 300 <= code && code <= 399 {
        TagColor::Yellow
    } else {
        TagColor::Red
    }
}

/// The text of a status tag: the code, a space, the status text.
pub fn status_label(code: u16, text: &str) -> (r: String)
    ensures
        r@ == decimal_seq(code as nat) + seq![' '] + text@,
{
    let mut out = decimal_string(code as usize);
    out.push(' ');
    push_str(&mut out, text);
    string_of(out.as_slice())
}

} // verus!
