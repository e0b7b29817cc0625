//! How a two-rule macro definition is applied to the arguments of an
//! invocation: the first rule whose pattern admits the arguments is taken, and
//! its body is written out with the arguments in place of `$($args)*`.
use vstd::prelude::*;
use crate::definition::AliasDefinition;
use crate::expansion::{
    any_arguments, bang, expansion, forwarded_arguments, invocation, macro_definition, rule,
};
use crate::token::{Delimiter, TokenTree};

verus! {

/// Whether a token sequence holds no `$`, at any depth.
pub open spec fn dollar_free(tokens: Seq<TokenTree>) -> bool
    decreases tokens,
{
    forall|i: int| 0 <= i < tokens.len() ==> tree_dollar_free(#[trigger] tokens[i])
}

/// Whether a token is no `$` and holds none.
pub open spec fn tree_dollar_free(tree: TokenTree) -> bool
    decreases tree,
{
    match tree {
        TokenTree::Punct(ch, _) => ch != '$',
        TokenTree::Group(_, inner) => dollar_free(inner),
        _ => true,
    }
}

/// Whether a pattern admits the arguments: `()` admits none, `($($args:tt)*)`
/// admits any.
pub open spec fn admits(pattern: Seq<TokenTree>, args: Seq<TokenTree>) -> bool {
    if pattern.len() == 0 {
        args.len() == 0
    } else {
        pattern == any_arguments()
    }
}

/// Whether `body` ends in `$($args)*`.
pub open spec fn ends_in_arguments(body: Seq<TokenTree>) -> bool {
    body.len() >= 3 && body.subrange(body.len() - 3, body.len() as int) == forwarded_arguments()
}

/// The body of a rule written out for the arguments: each `$($args)*` gives
/// way to `args`, inside groups too, and every other token stays.
pub open spec fn transcribe(body: Seq<TokenTree>, args: Seq<TokenTree>) -> Seq<TokenTree>
    decreases body, 1int,
{
    if body.len() == 0 {
        body
    } else if ends_in_arguments(body) {
        transcribe(body.subrange(0, body.len() - 3), args) + args
    } else {
        transcribe(body.drop_last(), args).push(transcribe_tree(body.last(), args))
    }
}

/// One token written out for the arguments.
pub open spec fn transcribe_tree(tree: TokenTree, args: Seq<TokenTree>) -> TokenTree
    decreases tree, 0int,
{
    match tree {
        TokenTree::Group(delimiter, inner) => TokenTree::Group(delimiter, transcribe(inner, args)),
        _ => tree,
    }
}

/// What the rules `(pattern) => { body }; ...` make of the arguments: the body
/// of the first rule that admits them, written out for them.
pub open spec fn apply_rules(rules: Seq<TokenTree>, args: Seq<TokenTree>) -> Option<
    Seq<TokenTree>,
>
    decreases rules.len(),
{
    if rules.len() < 5 {
        None
    } else {
        match (rules[0], rules[3]) {
            (
                TokenTree::Group(Delimiter::Parenthesis, pattern),
                TokenTree::Group(Delimiter::Brace, body),
            ) => if admits(pattern, args) {
                Some(transcribe(body, args))
            } else {
                apply_rules(rules.subrange(5, rules.len() as int), args)
            },
            _ => None,
        }
    }
}

/// What the macro definition `macro_rules! name { rules }` makes of the
/// invocation `name!(args)`.
pub open spec fn apply_macro(
    definition: Seq<TokenTree>,
    name: Seq<char>,
    args: Seq<TokenTree>,
) -> Option<Seq<TokenTree>> {
    if definition.len() == 4 && definition[0] == TokenTree::Ident("macro_rules"@) && definition[1]
        == bang() && definition[2] == TokenTree::Ident(name) {
        match definition[3] {
            TokenTree::Group(Delimiter::Brace, rules) => apply_rules(rules, args),
            _ => None,
        }
    } else {
        None
    }
}

/// Tokens without `$` are written out unchanged.
pub proof fn lemma_dollar_free_is_kept(body: Seq<TokenTree>, args: Seq<TokenTree>)
    requires
        dollar_free(body),
    ensures
        transcribe(body, args) == body,
    decreases body, 1int,
{
    if body.len() == 0 {
    } else {
        if ends_in_arguments(body) {
            let tail = body.subrange(body.len() - 3, body.len() as int);
            assert(tail[0] == body[body.len() - 3]);
            assert(tail[0] == forwarded_arguments()[0]);
            assert(!tree_dollar_free(body[body.len() - 3]));
        }
        assert(dollar_free(body.drop_last()));
        lemma_dollar_free_is_kept(body.drop_last(), args);
        lemma_dollar_free_tree_is_kept(body.last(), args);
        assert(body.drop_last().push(body.last()) =~= body);
    }
}

/// A token without `$` is written out unchanged.
pub proof fn lemma_dollar_free_tree_is_kept(tree: TokenTree, args: Seq<TokenTree>)
    requires
        tree_dollar_free(tree),
    ensures
        transcribe_tree(tree, args) == tree,
    decreases tree, 0int,
{
    match tree {
        TokenTree::Group(_, inner) => {
            lemma_dollar_free_is_kept(inner, args);
        },
        _ => {},
    }
}

/// `$($args)*` alone is written out as the arguments.
pub proof fn lemma_arguments_take_their_place(args: Seq<TokenTree>)
    ensures
        transcribe(forwarded_arguments(), args) == args,
{
    let body = forwarded_arguments();
    assert(body.subrange(0, 3) =~= body);
    assert(ends_in_arguments(body));
    assert(transcribe(body.subrange(0, 0), args) =~= Seq::<TokenTree>::empty());
    assert(Seq::<TokenTree>::empty() + args =~= args);
}

/// An invocation that forwards the arguments is written out as the invocation
/// with the arguments themselves.
pub proof fn lemma_forwarding_body_is_invocation(callee: Seq<TokenTree>, args: Seq<TokenTree>)
    requires
        dollar_free(callee),
    ensures
        transcribe(invocation(callee, forwarded_arguments()), args) == invocation(callee, args),
{
    let banged = callee.push(bang());
    let body = invocation(callee, forwarded_arguments());
    let group = TokenTree::Group(Delimiter::Parenthesis, forwarded_arguments());
    assert(!ends_in_arguments(body)) by {
        if ends_in_arguments(body) {
            let tail = body.subrange(body.len() - 3, body.len() as int);
            assert(tail[2] == body[body.len() - 1]);
            assert(tail[2] == forwarded_arguments()[2]);
        }
    }
    assert(body.drop_last() =~= banged);
    lemma_dollar_free_is_kept(banged, args);
    lemma_arguments_take_their_place(args);
    assert(transcribe(body, args) == transcribe(body.drop_last(), args).push(
        transcribe_tree(body.last(), args),
    ));
}

/// The emitted definition does what the alias promises: applied to the
/// arguments of an invocation, it yields the alias's expansion for them. This
/// holds of a replacement without `$`, which the rules of the definition would
/// otherwise read as their own.
pub proof fn lemma_definition_expands_as_promised(
    definition: AliasDefinition,
    args: Seq<TokenTree>,
)
    requires
        dollar_free(definition.replacement),
    ensures
        apply_macro(macro_definition(definition), definition.alias, args) == Some(
            expansion(definition, args),
        ),
{
    let none = Seq::<TokenTree>::empty();
    let first = rule(none, expansion(definition, none));
    let second = rule(any_arguments(), expansion(definition, forwarded_arguments()));
    let rules = first + second;
    assert(macro_definition(definition)[3] == TokenTree::Group(Delimiter::Brace, rules));
    assert(rules[0] == first[0]);
    assert(rules[3] == first[3]);
    if args.len() == 0 {
        lemma_dollar_free_is_kept(definition.replacement, args);
    } else {
        let rest = rules.subrange(5, rules.len() as int);
        assert(rest =~= second);
        lemma_forwarding_body_is_invocation(definition.replacement, args);
        assert(apply_rules(rest, args) == Some(invocation(definition.replacement, args)));
    }
}

} // verus!
