//! Token trees: the values that alias definitions are read from and written to.
use vstd::prelude::*;

verus! {

/// The brackets around a group of tokens.
#[derive(Clone, Copy, Debug, PartialEq, Eq, Hash, Structural)]
pub enum Delimiter {
    /// `( ... )`
    Parenthesis,
    /// `{ ... }`
    Brace,
    /// `[ ... ]`
    Bracket,
    /// A group without visible brackets, as macro expansion produces it.
    Invisible,
}

/// Whether a punctuation character is glued to the punctuation that follows.
#[derive(Clone, Copy, Debug, PartialEq, Eq, Hash, Structural)]
pub enum Spacing {
    /// The character ends an operator.
    Alone,
    /// The character is followed directly by more punctuation, as `=` in `=>`.
    Joint,
}

/// The mathematical value of a token: what contracts speak of.
pub ghost enum TokenTree {
    /// A word, by its text.
    Ident(Seq<char>),
    /// One punctuation character.
    Punct(char, Spacing),
    /// A literal, by its source text.
    Literal(Seq<char>),
    /// A delimited sequence of tokens.
    Group(Delimiter, Seq<TokenTree>),
}

/// A token as the library holds it.
#[derive(Debug, PartialEq, Eq)]
pub enum Token {
    /// A word, by its text.
    Ident(String),
    /// One punctuation character.
    Punct(char, Spacing),
    /// A literal, by its source text.
    Literal(String),
    /// A delimited sequence of tokens.
    Group(Delimiter, Vec<Token>),
}

impl View for Token {
    type V = TokenTree;

    open spec fn view(&self) -> TokenTree
        decreases self,
    {
        match self {
            Token::Ident(text) => TokenTree::Ident(text@),
            Token::Punct(ch, spacing) => TokenTree::Punct(*ch, *spacing),
            Token::Literal(text) => TokenTree::Literal(text@),
            Token::Group(delimiter, inner) => TokenTree::Group(*delimiter, trees_of(inner@)),
        }
    }
}

/// The values of a sequence of tokens, one for one.
pub open spec fn trees_of(tokens: Seq<Token>) -> Seq<TokenTree>
    decreases tokens,
{
    Seq::new(
        tokens.len(),
        |i: int|
            if 0 <= i < tokens.len() {
                tokens[i].view()
            } else {
                TokenTree::Ident(Seq::empty())
            },
    )
}

impl Token {
    /// A word token with the given text.
    pub fn ident(text: &str) -> (token: Token)
        ensures
            token@ == TokenTree::Ident(text@),
    {
        Token::Ident(text.to_owned())
    }

    /// A punctuation token.
    pub fn punct(ch: char, spacing: Spacing) -> (token: Token)
        ensures
            token@ == TokenTree::Punct(ch, spacing),
    {
        Token::Punct(ch, spacing)
    }

    /// A literal token with the given source text.
    pub fn literal(text: &str) -> (token: Token)
        ensures
            token@ == TokenTree::Literal(text@),
    {
        Token::Literal(text.to_owned())
    }

    /// A group of tokens inside the given brackets.
    pub fn group(delimiter: Delimiter, inner: Vec<Token>) -> (token: Token)
        ensures
            token@ == TokenTree::Group(delimiter, trees_of(inner@)),
    {
        Token::Group(delimiter, inner)
    }
}

impl Clone for Token {
    /// A deep copy: the same token tree in fresh storage.
    fn clone(&self) -> (copy: Token)
        ensures
            copy@ == self@,
        decreases self,
    {
        match self {
            Token::Ident(text) => Token::Ident(text.clone()),
            Token::Punct(ch, spacing) => Token::Punct(*ch, *spacing),
            Token::Literal(text) => Token::Literal(text.clone()),
            Token::Group(delimiter, inner) => Token::Group(*delimiter, clone_tokens(inner)),
        }
    }
}

/// A token sequence as a reader sees it who looks through invisible groups:
/// while the first token is an invisible group, its contents stand in its
/// place. Only the front is opened; what follows the first visible token is
/// kept as it is.
pub open spec fn opened(input: Seq<TokenTree>) -> Seq<TokenTree>
    decreases input,
{
    if input.len() == 0 {
        input
    } else {
        match input[0] {
            TokenTree::Group(Delimiter::Invisible, inner) => {
                let front = opened(inner);
                if front.len() > 0 {
                    front + input.subrange(1, input.len() as int)
                } else {
                    opened(input.subrange(1, input.len() as int))
                }
            },
            _ => input,
        }
    }
}

/// Opens the invisible groups at the front of `input`.
pub fn open_front(input: Vec<Token>) -> (front: Vec<Token>)
    ensures
        trees_of(front@) == opened(trees_of(input@)),
    decreases trees_of(input@),
{
    let ghost trees = trees_of(input@);
    if input.len() == 0 {
        return input;
    }
    let mut rest = input;
    let first = rest.remove(0);
    assert(first@ == trees[0]);
    assert(trees_of(rest@) =~= trees.subrange(1, trees.len() as int));
    match first {
        Token::Group(Delimiter::Invisible, inner) => {
            proof {
                assert(trees[0] == TokenTree::Group(Delimiter::Invisible, trees_of(inner@)));
                assert(decreases_to!(trees => trees[0]));
                assert(decreases_to!(trees[0] => trees[0]->Group_1));
            }
            let mut front = open_front(inner);
            if front.len() > 0 {
                let ghost before = trees_of(front@);
                front.append(&mut rest);
                assert(trees_of(front@) =~= before + trees.subrange(1, trees.len() as int));
                front
            } else {
                open_front(rest)
            }
        },
        other => {
            rest.insert(0, other);
            assert(trees_of(rest@) =~= trees);
            rest
        },
    }
}

/// A deep copy of a token sequence.
pub fn clone_tokens(tokens: &Vec<Token>) -> (copy: Vec<Token>)
    ensures
        trees_of(copy@) == trees_of(tokens@),
    decreases tokens,
{
    let mut copy: Vec<Token> = Vec::new();
    let mut i: usize = 0;
    while i < tokens.len()
        invariant
            i <= tokens.len(),
            copy@.len() == i,
            forall|j: int| 0 <= j < i ==> copy@[j]@ == tokens@[j]@,
        decreases tokens.len() - i,
    {
        copy.push(tokens[i].clone());
        i += 1;
    }
    assert(trees_of(copy@) =~= trees_of(tokens@));
    copy
}

} // verus!
