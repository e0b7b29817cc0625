//! What holds of every alias: the laws that relate definition, invocation and
//! expansion.
use vstd::prelude::*;
use crate::definition::{head_word, is_definition, parse_given, AliasDefinition, DefineError};
use crate::expansion::{expansion, invocation, invocation_expansion, macro_definition};
use crate::rules::{apply_macro, dollar_free, lemma_definition_expands_as_promised};
use crate::token::{opened, Spacing, TokenTree};

verus! {

/// The tokens of the definition `alias = replacement`.
pub open spec fn definition_tokens(alias: Seq<char>, replacement: Seq<TokenTree>) -> Seq<
    TokenTree,
> {
    seq![TokenTree::Ident(alias), TokenTree::Punct('=', Spacing::Alone)] + replacement
}

/// The tokens of `name!(args)`.
pub open spec fn call(name: Seq<char>, args: Seq<TokenTree>) -> Seq<TokenTree> {
    invocation(seq![TokenTree::Ident(name)], args)
}

/// What reading the definition `alias = replacement` gives where the name is a
/// valid identifier: where the parser's answer for `alias` is `alias` itself.
pub open spec fn read_back(alias: Seq<char>, replacement: Seq<TokenTree>) -> Result<
    AliasDefinition,
    DefineError,
> {
    parse_given(definition_tokens(alias, replacement), Some(alias))
}

/// A definition `alias = replacement` with a valid name is read back as it was
/// written: the same name, and the same replacement token for token.
pub proof fn lemma_definition_is_read_as_written(alias: Seq<char>, replacement: Seq<TokenTree>)
    ensures
        read_back(alias, replacement) == Ok::<AliasDefinition, DefineError>(
            AliasDefinition { alias, replacement },
        ),
{
    let input = definition_tokens(alias, replacement);
    let rest = input.subrange(1, input.len() as int);
    assert(opened(input) == input);
    assert(opened(rest) == rest);
    assert(rest.subrange(1, rest.len() as int) =~= replacement);
}

/// Round trip without arguments: after `alias = replacement`, the invocation
/// `alias!()` expands to exactly the replacement.
pub proof fn lemma_no_arguments_round_trip(alias: Seq<char>, replacement: Seq<TokenTree>)
    ensures
        read_back(alias, replacement) matches Ok(definition)
            && expansion(definition, Seq::empty()) == replacement && invocation_expansion(
            definition,
            call(alias, Seq::empty()),
        ) == Some(replacement),
{
    lemma_definition_is_read_as_written(alias, replacement);
}

/// Forwarding: after `alias = replacement`, the invocation `alias!(args)` with
/// at least one argument token expands to the tokens of `replacement!(args)`.
pub proof fn lemma_arguments_are_forwarded(
    alias: Seq<char>,
    replacement: Seq<TokenTree>,
    args: Seq<TokenTree>,
)
    requires
        args.len() > 0,
    ensures
        read_back(alias, replacement) matches Ok(definition)
            && expansion(definition, args) == invocation(replacement, args)
            && invocation_expansion(definition, call(alias, args)) == Some(
            invocation(replacement, args),
        ),
{
    lemma_definition_is_read_as_written(alias, replacement);
}

/// Chained aliases: where `outer` stands for the name of the alias `inner`, an
/// invocation of `outer` with arguments expands to the invocation of `inner`
/// with the same arguments, and so, one step on, to whatever that invocation
/// expands to.
pub proof fn lemma_chained_alias_forwards(
    outer: Seq<char>,
    inner: AliasDefinition,
    args: Seq<TokenTree>,
)
    requires
        args.len() > 0,
    ensures
        ({
            let chained = AliasDefinition {
                alias: outer,
                replacement: seq![TokenTree::Ident(inner.alias)],
            };
            &&& invocation_expansion(chained, call(outer, args)) == Some(call(inner.alias, args))
            &&& invocation_expansion(inner, expansion(chained, args)) == invocation_expansion(
                inner,
                call(inner.alias, args),
            )
            &&& invocation_expansion(inner, expansion(chained, args)) == Some(
                invocation(inner.replacement, args),
            )
        }),
{
}

/// The emitted macro keeps the promise: for a definition `alias = replacement`
/// with a valid name and a replacement without `$`, the macro definition that
/// is emitted, applied to the arguments of `alias!(args)`, yields the
/// replacement itself for no arguments, and `replacement!(args)` otherwise.
pub proof fn lemma_emitted_macro_expands(
    alias: Seq<char>,
    replacement: Seq<TokenTree>,
    args: Seq<TokenTree>,
)
    requires
        dollar_free(replacement),
    ensures
        read_back(alias, replacement) matches Ok(definition)
            && apply_macro(macro_definition(definition), alias, args) == Some(
            if args.len() == 0 {
                replacement
            } else {
                invocation(replacement, args)
            },
        ),
{
    lemma_definition_is_read_as_written(alias, replacement);
    lemma_definition_expands_as_promised(AliasDefinition { alias, replacement }, args);
}

/// Input that is no definition is refused, with the name checked before the
/// separator; input that is one is accepted. This holds whatever the parser
/// answers for the first token's text.
pub proof fn lemma_only_definitions_are_accepted(
    input: Seq<TokenTree>,
    parsed: Option<Seq<char>>,
)
    ensures
        parse_given(input, parsed) is Ok <==> is_definition(input, parsed),
        parse_given(input, parsed) matches Err(error) ==> (error == DefineError::ExpectedIdentifier
            <==> (head_word(input) is None || parsed != head_word(input))),
{
}

} // verus!
