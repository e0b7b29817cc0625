//! Which texts may name an alias.
//!
//! Whether a text is an identifier is decided by `syn`, the parser that the
//! alias facility shares with the macros around it: the rules for identifier
//! characters and the list of reserved words are its own. Its answer may
//! depend on where it runs, so nothing here claims to know it in advance: the
//! functions that ask say what holds whatever it answers, and the functions
//! that take its answer as an argument are exact.
use vstd::prelude::*;
use vstd::string::StrSliceExecFns;

verus! {

/// The mathematical value of an optional text.
pub open spec fn text_of(parsed: Option<String>) -> Option<Seq<char>> {
    match parsed {
        Some(text) => Some(text@),
        None => None,
    }
}

/// An opening bracket: the start of a nested group of tokens.
pub open spec fn is_opening(ch: char) -> bool {
    ch == '(' || ch == '[' || ch == '{'
}

/// Whether a text holds an opening bracket. Such a text is no identifier, and
/// it is never handed to the parser, which nests as deep as the brackets do.
pub open spec fn holds_opening(text: Seq<char>) -> bool {
    exists|i: int| 0 <= i < text.len() && is_opening(#[trigger] text[i])
}

/// Whether `text` holds an opening bracket.
pub fn has_opening(text: &String) -> (found: bool)
    ensures
        found == holds_opening(text@),
{
    let chars = text.as_str();
    let length = chars.unicode_len();
    let mut i: usize = 0;
    while i < length
        invariant
            chars@ == text@,
            length == text@.len(),
            i <= length,
            forall|j: int| 0 <= j < i ==> !is_opening(#[trigger] text@[j]),
        decreases length - i,
    {
        let ch = chars.get_char(i);
        if ch == '(' || ch == '[' || ch == '{' {
            return true;
        }
        i += 1;
    }
    false
}

/// Trusted: calls `syn::parse_str::<syn::Ident>` on `text` and hands back the
/// text of the identifier that it returns (`Ident::to_string`), or `None` where
/// it returns an error. Nothing is claimed of the answer. The text must hold no
/// opening bracket: the parser recurses once for each level of nesting.
#[verifier::external_body]
fn parse_identifier(text: &String) -> (parsed: Option<String>)
    requires
        !holds_opening(text@),
{
    match syn::parse_str::<syn::Ident>(text.as_str()) {
        Ok(ident) => Some(ident.to_string()),
        Err(_) => None,
    }
}

/// The parser's answer for `text`: the identifier that it reads from the text,
/// if it reads one. A text with an opening bracket is answered with `None`
/// without asking the parser.
pub fn identifier_of(text: &String) -> (parsed: Option<String>)
    ensures
        holds_opening(text@) ==> parsed is None,
{
    if has_opening(text) {
        None
    } else {
        parse_identifier(text)
    }
}

/// Whether the parser's answer for `text` is `text` itself: an identifier
/// spelled exactly as the text, with nothing before it and nothing after it.
pub fn names_itself(text: &String, parsed: &Option<String>) -> (same: bool)
    ensures
        same == (text_of(*parsed) == Some(text@)),
{
    match parsed {
        Some(found) => *found == *text,
        None => false,
    }
}

/// Whether `text` may name an alias: whether the parser reads it as an
/// identifier spelled exactly as the text. A text with an opening bracket may
/// not.
pub fn is_identifier(text: &String) -> (valid: bool)
    ensures
        holds_opening(text@) ==> !valid,
{
    let parsed = identifier_of(text);
    names_itself(text, &parsed)
}

} // verus!
