//! Alias definitions: reading one from tokens.
use vstd::prelude::*;
use crate::ident::{holds_opening, identifier_of, names_itself, text_of};
use crate::token::{open_front, opened, trees_of, Token, TokenTree};

verus! {

/// The mathematical value of an alias definition.
pub ghost struct AliasDefinition {
    /// The name that the definition binds.
    pub alias: Seq<char>,
    /// The tokens that the name stands for.
    pub replacement: Seq<TokenTree>,
}

/// An alias definition as read from `<identifier> = <tokens...>`.
#[derive(Debug, PartialEq, Eq)]
pub struct DefineInput {
    /// The name that the definition binds.
    pub alias: String,
    /// The tokens that the name stands for, exactly as they were written.
    pub replacement: Vec<Token>,
}

impl View for DefineInput {
    type V = AliasDefinition;

    open spec fn view(&self) -> AliasDefinition {
        AliasDefinition { alias: self.alias@, replacement: trees_of(self.replacement@) }
    }
}

/// Why a token sequence is not an alias definition.
#[derive(Clone, Copy, Debug, PartialEq, Eq, Structural)]
pub enum DefineError {
    /// The sequence does not start with an identifier.
    ExpectedIdentifier,
    /// The identifier is not followed by `=`.
    ExpectedEquals,
}

impl DefineError {
    /// The diagnostic for this error, in words.
    pub open spec fn message_text(self) -> Seq<char> {
        match self {
            DefineError::ExpectedIdentifier => "expected identifier"@,
            DefineError::ExpectedEquals => "expected `=`"@,
        }
    }

    /// The diagnostic that is shown for this error.
    pub fn message(&self) -> (text: String)
        ensures
            text@ == self.message_text(),
    {
        match self {
            DefineError::ExpectedIdentifier => "expected identifier".to_owned(),
            DefineError::ExpectedEquals => "expected `=`".to_owned(),
        }
    }
}

/// `=` as a token, glued to what follows or not.
pub open spec fn is_equals(tree: TokenTree) -> bool {
    tree matches TokenTree::Punct(ch, _) && ch == '='
}

/// The text of the word that `input` starts with, invisible groups looked
/// through, where it starts with a word.
pub open spec fn head_word(input: Seq<TokenTree>) -> Option<Seq<char>> {
    let head = opened(input);
    if head.len() > 0 {
        match head[0] {
            TokenTree::Ident(text) => Some(text),
            _ => None,
        }
    } else {
        None
    }
}

/// What follows the first token of `input`, invisible groups looked through in
/// front of the first token and again behind it.
pub open spec fn after_head(input: Seq<TokenTree>) -> Seq<TokenTree> {
    let head = opened(input);
    opened(head.subrange(1, head.len() as int))
}

/// Whether the first token of `input` is followed by `=`.
pub open spec fn separator_follows(input: Seq<TokenTree>) -> bool {
    opened(input).len() > 0 && after_head(input).len() > 0 && is_equals(after_head(input)[0])
}

/// What follows the separator: the replacement, kept as it is.
pub open spec fn replacement_of(input: Seq<TokenTree>) -> Seq<TokenTree> {
    after_head(input).subrange(1, after_head(input).len() as int)
}

/// Whether `input` has the shape `<identifier> = <tokens...>`, given the
/// parser's answer for the text of its first token.
pub open spec fn is_definition(input: Seq<TokenTree>, parsed: Option<Seq<char>>) -> bool {
    &&& head_word(input) is Some
    &&& parsed == head_word(input)
    &&& separator_follows(input)
}

/// The definition that `input` holds, given the parser's answer for the text of
/// its first token. The name is checked first, the separator second; whatever
/// follows the separator is the replacement, empty or not. Invisible groups are
/// looked through where the name and the separator are sought.
pub open spec fn parse_given(input: Seq<TokenTree>, parsed: Option<Seq<char>>) -> Result<
    AliasDefinition,
    DefineError,
> {
    if head_word(input) is None || parsed != head_word(input) {
        Err(DefineError::ExpectedIdentifier)
    } else if !separator_follows(input) {
        Err(DefineError::ExpectedEquals)
    } else {
        Ok((AliasDefinition { alias: head_word(input)->Some_0, replacement: replacement_of(input) }))
    }
}

/// Whether a parse outcome is the given mathematical outcome.
pub open spec fn outcome_is(
    result: Result<DefineInput, DefineError>,
    expected: Result<AliasDefinition, DefineError>,
) -> bool {
    match expected {
        Ok(definition) => result matches Ok(read) && read@ == definition,
        Err(error) => result matches Err(found) && found == error,
    }
}

/// Reads a definition from tokens whose front is open already.
fn read_opened(head: Vec<Token>, parsed: Option<String>, Ghost(input): Ghost<Seq<TokenTree>>) -> (result:
    Result<DefineInput, DefineError>)
    requires
        trees_of(head@) == opened(input),
    ensures
        outcome_is(result, parse_given(input, text_of(parsed))),
{
    let ghost trees = trees_of(head@);
    let mut rest = head;
    if rest.len() == 0 {
        return Err(DefineError::ExpectedIdentifier);
    }
    let first = rest.remove(0);
    assert(first@ == trees[0]);
    assert(trees_of(rest@) =~= trees.subrange(1, trees.len() as int));
    let alias = match first {
        Token::Ident(text) => text,
        _ => {
            return Err(DefineError::ExpectedIdentifier);
        },
    };
    if !names_itself(&alias, &parsed) {
        return Err(DefineError::ExpectedIdentifier);
    }
    let mut tail = open_front(rest);
    let ghost after = trees_of(tail@);
    if tail.len() == 0 {
        return Err(DefineError::ExpectedEquals);
    }
    let second = tail.remove(0);
    assert(second@ == after[0]);
    match second {
        Token::Punct(ch, _) => {
            if ch != '=' {
                return Err(DefineError::ExpectedEquals);
            }
        },
        _ => {
            return Err(DefineError::ExpectedEquals);
        },
    }
    assert(trees_of(tail@) =~= after.subrange(1, after.len() as int));
    Ok(DefineInput { alias, replacement: tail })
}

impl DefineInput {
    /// Reads a definition from `input`, given the parser's answer for the text
    /// of its first token.
    pub fn parse_with_identifier(input: Vec<Token>, parsed: Option<String>) -> (result: Result<
        DefineInput,
        DefineError,
    >)
        ensures
            outcome_is(result, parse_given(trees_of(input@), text_of(parsed))),
    {
        let ghost trees = trees_of(input@);
        read_opened(open_front(input), parsed, Ghost(trees))
    }

    /// Reads a definition from `input`: an identifier, `=`, and the replacement.
    /// The parser is asked whether the first token's text is an identifier, and
    /// the outcome is the one that its answer gives.
    pub fn parse(input: Vec<Token>) -> (result: Result<DefineInput, DefineError>)
        ensures
            head_word(trees_of(input@)) is None ==> result == Err::<DefineInput, DefineError>(
                DefineError::ExpectedIdentifier,
            ),
            head_word(trees_of(input@)) matches Some(text) && holds_opening(text) ==> result
                == Err::<DefineInput, DefineError>(DefineError::ExpectedIdentifier),
            !separator_follows(trees_of(input@)) ==> result is Err,
            result == Err::<DefineInput, DefineError>(DefineError::ExpectedEquals) ==> head_word(
                trees_of(input@),
            ) is Some && !separator_follows(trees_of(input@)),
            result matches Ok(definition) ==> head_word(trees_of(input@)) == Some(
                definition.alias@,
            ) && separator_follows(trees_of(input@)) && trees_of(definition.replacement@)
                == replacement_of(trees_of(input@)),
            exists|parsed: Option<Seq<char>>|
                outcome_is(result, #[trigger] parse_given(trees_of(input@), parsed)),
    {
        let ghost trees = trees_of(input@);
        let head = open_front(input);
        let parsed = if head.len() > 0 {
            assert(head@[0]@ == trees_of(head@)[0]);
            match &head[0] {
                Token::Ident(text) => identifier_of(text),
                _ => None,
            }
        } else {
            None
        };
        let result = read_opened(head, parsed, Ghost(trees));
        assert(outcome_is(result, parse_given(trees, text_of(parsed))));
        result
    }
}

} // verus!
