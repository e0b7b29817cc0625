//! What an alias expands to, and the macro definition that carries it.
use vstd::prelude::*;
use crate::definition::{
    head_word, outcome_is, parse_given, replacement_of, separator_follows, AliasDefinition,
    DefineError, DefineInput,
};
use crate::ident::holds_opening;
use crate::token::{clone_tokens, trees_of, Delimiter, Spacing, Token, TokenTree};

verus! {

/// The `!` that marks an invocation.
pub open spec fn bang() -> TokenTree {
    TokenTree::Punct('!', Spacing::Alone)
}

/// The tokens of `callee!(args)`.
pub open spec fn invocation(callee: Seq<TokenTree>, args: Seq<TokenTree>) -> Seq<TokenTree> {
    callee.push(bang()).push(TokenTree::Group(Delimiter::Parenthesis, args))
}

/// What an alias expands to when it is invoked with `args`: the replacement as
/// it was captured where there are no arguments, and otherwise an invocation of
/// the replacement with the arguments as they were given.
pub open spec fn expansion(definition: AliasDefinition, args: Seq<TokenTree>) -> Seq<TokenTree> {
    if args.len() == 0 {
        definition.replacement
    } else {
        invocation(definition.replacement, args)
    }
}

/// Whether `tokens` is `alias!( ... )`, with anything between the parentheses.
pub open spec fn invokes(tokens: Seq<TokenTree>, alias: Seq<char>) -> bool {
    &&& tokens.len() == 3
    &&& tokens[0] == TokenTree::Ident(alias)
    &&& tokens[1] matches TokenTree::Punct(ch, _) && ch == '!'
    &&& tokens[2] matches TokenTree::Group(delimiter, _) && delimiter == Delimiter::Parenthesis
}

/// What the invocation `tokens` expands to under `definition`, where it invokes
/// the alias that `definition` binds.
pub open spec fn invocation_expansion(
    definition: AliasDefinition,
    tokens: Seq<TokenTree>,
) -> Option<Seq<TokenTree>> {
    if invokes(tokens, definition.alias) {
        Some(expansion(definition, tokens[2]->Group_1))
    } else {
        None
    }
}

/// `$($args)*`: every argument of an invocation, as a macro rule writes it.
pub open spec fn forwarded_arguments() -> Seq<TokenTree> {
    seq![
        TokenTree::Punct('$', Spacing::Alone),
        TokenTree::Group(
            Delimiter::Parenthesis,
            seq![TokenTree::Punct('$', Spacing::Alone), TokenTree::Ident("args"@)],
        ),
        TokenTree::Punct('*', Spacing::Alone),
    ]
}

/// `$($args:tt)*`: the pattern that matches any arguments.
pub open spec fn any_arguments() -> Seq<TokenTree> {
    seq![
        TokenTree::Punct('$', Spacing::Alone),
        TokenTree::Group(
            Delimiter::Parenthesis,
            seq![
                TokenTree::Punct('$', Spacing::Alone),
                TokenTree::Ident("args"@),
                TokenTree::Punct(':', Spacing::Alone),
                TokenTree::Ident("tt"@),
            ],
        ),
        TokenTree::Punct('*', Spacing::Alone),
    ]
}

/// One macro rule: `(pattern) => { body };`.
pub open spec fn rule(pattern: Seq<TokenTree>, body: Seq<TokenTree>) -> Seq<TokenTree> {
    seq![
        TokenTree::Group(Delimiter::Parenthesis, pattern),
        TokenTree::Punct('=', Spacing::Joint),
        TokenTree::Punct('>', Spacing::Alone),
        TokenTree::Group(Delimiter::Brace, body),
        TokenTree::Punct(';', Spacing::Alone),
    ]
}

/// The macro definition that binds an alias:
///
/// ```text
/// macro_rules! alias {
///     () => { replacement };
///     ($($args:tt)*) => { replacement!($($args)*) };
/// }
/// ```
///
/// The body of each rule is the alias's expansion: of no arguments in the
/// first, of the forwarded arguments in the second.
pub open spec fn macro_definition(definition: AliasDefinition) -> Seq<TokenTree> {
    seq![
        TokenTree::Ident("macro_rules"@),
        bang(),
        TokenTree::Ident(definition.alias),
        TokenTree::Group(
            Delimiter::Brace,
            rule(Seq::empty(), expansion(definition, Seq::empty())) + rule(
                any_arguments(),
                expansion(definition, forwarded_arguments()),
            ),
        ),
    ]
}

/// The tokens of `$($args)*`.
fn forwarded_argument_tokens() -> (tokens: Vec<Token>)
    ensures
        trees_of(tokens@) == forwarded_arguments(),
{
    let mut inner: Vec<Token> = Vec::new();
    inner.push(Token::punct('$', Spacing::Alone));
    inner.push(Token::ident("args"));
    let mut tokens: Vec<Token> = Vec::new();
    tokens.push(Token::punct('$', Spacing::Alone));
    tokens.push(Token::group(Delimiter::Parenthesis, inner));
    tokens.push(Token::punct('*', Spacing::Alone));
    assert(trees_of(inner@) =~= seq![
        TokenTree::Punct('$', Spacing::Alone),
        TokenTree::Ident("args"@),
    ]);
    assert(trees_of(tokens@) =~= forwarded_arguments());
    tokens
}

/// The tokens of `$($args:tt)*`.
fn any_argument_tokens() -> (tokens: Vec<Token>)
    ensures
        trees_of(tokens@) == any_arguments(),
{
    let mut inner: Vec<Token> = Vec::new();
    inner.push(Token::punct('$', Spacing::Alone));
    inner.push(Token::ident("args"));
    inner.push(Token::punct(':', Spacing::Alone));
    inner.push(Token::ident("tt"));
    let mut tokens: Vec<Token> = Vec::new();
    tokens.push(Token::punct('$', Spacing::Alone));
    tokens.push(Token::group(Delimiter::Parenthesis, inner));
    tokens.push(Token::punct('*', Spacing::Alone));
    assert(trees_of(inner@) =~= seq![
        TokenTree::Punct('$', Spacing::Alone),
        TokenTree::Ident("args"@),
        TokenTree::Punct(':', Spacing::Alone),
        TokenTree::Ident("tt"@),
    ]);
    assert(trees_of(tokens@) =~= any_arguments());
    tokens
}

/// Appends the rule `(pattern) => { body };` to `rules`.
fn push_rule(rules: &mut Vec<Token>, pattern: Vec<Token>, body: Vec<Token>)
    ensures
        trees_of(final(rules)@) == trees_of(old(rules)@) + rule(
            trees_of(pattern@),
            trees_of(body@),
        ),
{
    rules.push(Token::group(Delimiter::Parenthesis, pattern));
    rules.push(Token::punct('=', Spacing::Joint));
    rules.push(Token::punct('>', Spacing::Alone));
    rules.push(Token::group(Delimiter::Brace, body));
    rules.push(Token::punct(';', Spacing::Alone));
    assert(trees_of(rules@) =~= trees_of(old(rules)@) + rule(
        trees_of(pattern@),
        trees_of(body@),
    ));
}

impl DefineInput {
    /// Expands an invocation of the alias with the tokens `args` between its
    /// parentheses.
    pub fn expand(&self, args: &Vec<Token>) -> (tokens: Vec<Token>)
        ensures
            trees_of(tokens@) == expansion(self@, trees_of(args@)),
    {
        let mut tokens = clone_tokens(&self.replacement);
        if args.len() > 0 {
            let ghost before = trees_of(tokens@);
            tokens.push(Token::punct('!', Spacing::Alone));
            tokens.push(Token::group(Delimiter::Parenthesis, clone_tokens(args)));
            assert(trees_of(tokens@) =~= invocation(before, trees_of(args@)));
        }
        tokens
    }

    /// Expands `tokens` where it is an invocation of this alias, `alias!( ... )`;
    /// any other token sequence is not this alias's to expand.
    pub fn expand_invocation(&self, tokens: &Vec<Token>) -> (expanded: Option<Vec<Token>>)
        ensures
            match invocation_expansion(self@, trees_of(tokens@)) {
                Some(expected) => expanded matches Some(found) && trees_of(found@) == expected,
                None => expanded is None,
            },
    {
        if tokens.len() != 3 {
            return None;
        }
        assert(tokens@[0]@ == trees_of(tokens@)[0]);
        assert(tokens@[1]@ == trees_of(tokens@)[1]);
        assert(tokens@[2]@ == trees_of(tokens@)[2]);
        let named = match &tokens[0] {
            Token::Ident(text) => *text == self.alias,
            _ => false,
        };
        let banged = match &tokens[1] {
            Token::Punct(ch, _) => *ch == '!',
            _ => false,
        };
        if !named || !banged {
            return None;
        }
        match &tokens[2] {
            Token::Group(Delimiter::Parenthesis, args) => Some(self.expand(args)),
            _ => None,
        }
    }

    /// The macro definition that binds this alias.
    pub fn emit(&self) -> (tokens: Vec<Token>)
        ensures
            trees_of(tokens@) == macro_definition(self@),
    {
        let no_arguments: Vec<Token> = Vec::new();
        assert(trees_of(no_arguments@) =~= Seq::<TokenTree>::empty());
        let mut rules: Vec<Token> = Vec::new();
        assert(trees_of(rules@) =~= Seq::<TokenTree>::empty());
        push_rule(&mut rules, Vec::new(), self.expand(&no_arguments));
        push_rule(&mut rules, any_argument_tokens(), self.expand(&forwarded_argument_tokens()));
        let mut tokens: Vec<Token> = Vec::new();
        tokens.push(Token::ident("macro_rules"));
        tokens.push(Token::punct('!', Spacing::Alone));
        tokens.push(Token::Ident(self.alias.clone()));
        tokens.push(Token::group(Delimiter::Brace, rules));
        assert(trees_of(tokens@) =~= macro_definition(self@));
        tokens
    }
}

/// Whether the outcome of `define` is the one that the parse outcome gives:
/// the macro definition for a definition that was read, its error otherwise.
pub open spec fn emission_is(
    result: Result<Vec<Token>, DefineError>,
    parsed: Result<AliasDefinition, DefineError>,
) -> bool {
    match parsed {
        Ok(definition) => result matches Ok(tokens) && trees_of(tokens@) == macro_definition(
            definition,
        ),
        Err(error) => result matches Err(found) && found == error,
    }
}

/// Turns the tokens of an alias definition, `<identifier> = <tokens...>`, into
/// the macro definition that binds the alias. Input of any other shape is
/// refused, and nothing is emitted for it. The parser is asked whether the
/// first token's text is an identifier, and the outcome is the one that its
/// answer gives.
pub fn define(input: Vec<Token>) -> (result: Result<Vec<Token>, DefineError>)
    ensures
        head_word(trees_of(input@)) is None ==> result == Err::<Vec<Token>, DefineError>(
            DefineError::ExpectedIdentifier,
        ),
        head_word(trees_of(input@)) matches Some(text) && holds_opening(text) ==> result == Err::<
            Vec<Token>,
            DefineError,
        >(DefineError::ExpectedIdentifier),
        !separator_follows(trees_of(input@)) ==> result is Err,
        result == Err::<Vec<Token>, DefineError>(DefineError::ExpectedEquals) ==> head_word(
            trees_of(input@),
        ) is Some && !separator_follows(trees_of(input@)),
        result matches Ok(tokens) ==> head_word(trees_of(input@)) is Some && separator_follows(
            trees_of(input@),
        ) && trees_of(tokens@) == macro_definition(
            (AliasDefinition {
                alias: head_word(trees_of(input@))->Some_0,
                replacement: replacement_of(trees_of(input@)),
            }),
        ),
        exists|parsed: Option<Seq<char>>|
            emission_is(result, #[trigger] parse_given(trees_of(input@), parsed)),
{
    let ghost trees = trees_of(input@);
    let read = DefineInput::parse(input);
    let ghost answer = choose|parsed: Option<Seq<char>>|
        outcome_is(read, #[trigger] parse_given(trees, parsed));
    let result = match read {
        Ok(definition) => Ok(definition.emit()),
        Err(error) => Err(error),
    };
    assert(emission_is(result, parse_given(trees, answer)));
    result
}

} // verus!
