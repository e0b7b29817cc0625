use alias_macros::{
    clone_tokens, define, has_opening, identifier_of, is_identifier, names_itself, open_front,
    something, DefineError, DefineInput, Delimiter, Spacing, Token,
};
use std::str::FromStr;

fn ident(text: &str) -> Token {
    Token::ident(text)
}

fn punct(ch: char) -> Token {
    Token::punct(ch, Spacing::Alone)
}

fn definition(alias: &str, replacement: Vec<Token>) -> Vec<Token> {
    let mut input = vec![ident(alias), punct('=')];
    input.extend(replacement);
    input
}

fn lex(stream: proc_macro2::TokenStream) -> Vec<Token> {
    stream
        .into_iter()
        .map(|tree| match tree {
            proc_macro2::TokenTree::Ident(word) => Token::Ident(word.to_string()),
            proc_macro2::TokenTree::Punct(mark) => Token::Punct(
                mark.as_char(),
                match mark.spacing() {
                    proc_macro2::Spacing::Alone => Spacing::Alone,
                    proc_macro2::Spacing::Joint => Spacing::Joint,
                },
            ),
            proc_macro2::TokenTree::Literal(value) => Token::Literal(value.to_string()),
            proc_macro2::TokenTree::Group(group) => Token::Group(
                match group.delimiter() {
                    proc_macro2::Delimiter::Parenthesis => Delimiter::Parenthesis,
                    proc_macro2::Delimiter::Brace => Delimiter::Brace,
                    proc_macro2::Delimiter::Bracket => Delimiter::Bracket,
                    proc_macro2::Delimiter::None => Delimiter::Invisible,
                },
                lex(group.stream()),
            ),
        })
        .collect()
}

fn tokens(source: &str) -> Vec<Token> {
    lex(proc_macro2::TokenStream::from_str(source).unwrap())
}

#[test]
fn num_alias_stands_for_its_type() {
    let parsed = DefineInput::parse(tokens("Num = i64")).unwrap();
    assert_eq!(parsed.alias, "Num");
    assert_eq!(parsed.replacement, vec![ident("i64")]);
    assert_eq!(parsed.expand(&Vec::new()), vec![ident("i64")]);
    let annotation = parsed.expand_invocation(&tokens("Num!()")).unwrap();
    assert_eq!(annotation, tokens("i64"));
}

#[test]
fn wrap_alias_forwards_a_record_body() {
    let record = something { str: String::from("Shubh") };
    assert_eq!(record.str, "Shubh");
    let parsed = DefineInput::parse(tokens("Wrap = something")).unwrap();
    let expanded = parsed.expand_invocation(&tokens("Wrap!({ str: \"Shubh\" })")).unwrap();
    assert_eq!(expanded, tokens("something!({ str: \"Shubh\" })"));
    assert_eq!(
        expanded,
        vec![
            ident("something"),
            punct('!'),
            Token::group(
                Delimiter::Parenthesis,
                vec![Token::group(
                    Delimiter::Brace,
                    vec![ident("str"), punct(':'), Token::literal("\"Shubh\"")],
                )],
            ),
        ]
    );
}

#[test]
fn no_arguments_give_the_replacement_token_for_token() {
    let replacement = tokens("#[derive(Debug)] struct");
    let parsed = DefineInput::parse(definition("interface", clone_tokens(&replacement))).unwrap();
    assert_eq!(parsed.alias, "interface");
    assert_eq!(parsed.expand(&Vec::new()), replacement);
    assert_eq!(parsed.expand_invocation(&tokens("interface!()")), Some(replacement));
}

#[test]
fn arguments_are_forwarded_to_the_replacement() {
    let parsed = DefineInput::parse(tokens("list = vec")).unwrap();
    assert_eq!(parsed.expand(&tokens("1, 2, 3")), tokens("vec!(1, 2, 3)"));
    assert_eq!(parsed.expand_invocation(&tokens("list!(1, 2, 3)")), Some(tokens("vec!(1, 2, 3)")));
}

#[test]
fn chained_alias_reaches_the_inner_alias() {
    let inner = DefineInput::parse(tokens("Inner = Vec::with_capacity")).unwrap();
    let outer = DefineInput::parse(tokens("Outer = Inner")).unwrap();
    let first = outer.expand_invocation(&tokens("Outer!(8)")).unwrap();
    assert_eq!(first, tokens("Inner!(8)"));
    let second = inner.expand_invocation(&first).unwrap();
    assert_eq!(second, tokens("Vec::with_capacity!(8)"));
    assert_eq!(Some(second), inner.expand_invocation(&tokens("Inner!(8)")));
}

#[test]
fn chained_alias_without_arguments_stops_at_the_name() {
    let inner = DefineInput::parse(tokens("Inner = i64")).unwrap();
    let outer = DefineInput::parse(tokens("Outer = Inner")).unwrap();
    let first = outer.expand_invocation(&tokens("Outer!()")).unwrap();
    assert_eq!(first, vec![ident("Inner")]);
    assert_eq!(inner.expand_invocation(&first), None);
}

#[test]
fn invocation_of_another_name_is_left_alone() {
    let parsed = DefineInput::parse(tokens("Num = i64")).unwrap();
    assert_eq!(parsed.expand_invocation(&tokens("Other!()")), None);
    assert_eq!(parsed.expand_invocation(&tokens("Num")), None);
    assert_eq!(parsed.expand_invocation(&tokens("Num!() + 1")), None);
    assert_eq!(parsed.expand_invocation(&tokens("Num![]")), None);
    assert_eq!(parsed.expand_invocation(&tokens("Num?()")), None);
}

#[test]
fn emitted_definition_is_the_two_rule_macro() {
    let emitted = define(tokens("MyInt = i64")).unwrap();
    let expected = tokens(
        "macro_rules! MyInt { () => { i64 }; ($($args:tt)*) => { i64!($($args)*) }; }",
    );
    assert_eq!(emitted, expected);
}

#[test]
fn emitted_definition_keeps_a_long_replacement() {
    let emitted = define(tokens("interface = #[derive(Debug)] struct")).unwrap();
    let expected = tokens(
        "macro_rules! interface { \
            () => { #[derive(Debug)] struct }; \
            ($($args:tt)*) => { #[derive(Debug)] struct!($($args)*) }; \
        }",
    );
    assert_eq!(emitted, expected);
}

#[test]
fn emit_agrees_with_define() {
    let parsed = DefineInput::parse(tokens("str = String")).unwrap();
    assert_eq!(Ok(parsed.emit()), define(tokens("str = String")));
}

#[test]
fn empty_replacement_is_accepted() {
    let parsed = DefineInput::parse(tokens("Nothing =")).unwrap();
    assert_eq!(parsed.alias, "Nothing");
    assert_eq!(parsed.replacement, Vec::new());
    assert_eq!(parsed.expand(&Vec::new()), Vec::new());
    assert_eq!(parsed.expand(&tokens("x")), tokens("!(x)"));
    assert_eq!(
        define(tokens("Nothing =")).unwrap(),
        tokens("macro_rules! Nothing { () => { }; ($($args:tt)*) => { !($($args)*) }; }")
    );
}

#[test]
fn second_equals_belongs_to_the_replacement() {
    let parsed = DefineInput::parse(tokens("A == B")).unwrap();
    assert_eq!(parsed.alias, "A");
    assert_eq!(parsed.replacement, vec![punct('='), ident("B")]);
}

#[test]
fn missing_separator_is_refused() {
    assert_eq!(define(tokens("Num i64")), Err(DefineError::ExpectedEquals));
    assert_eq!(define(tokens("Num")), Err(DefineError::ExpectedEquals));
    assert_eq!(define(tokens("Num : i64")), Err(DefineError::ExpectedEquals));
    assert_eq!(define(tokens("Num (=) i64")), Err(DefineError::ExpectedEquals));
    assert_eq!(DefineInput::parse(tokens("Num i64")), Err(DefineError::ExpectedEquals));
}

#[test]
fn missing_name_is_refused() {
    assert_eq!(define(Vec::new()), Err(DefineError::ExpectedIdentifier));
    assert_eq!(define(tokens("= i64")), Err(DefineError::ExpectedIdentifier));
    assert_eq!(define(tokens("42 = i64")), Err(DefineError::ExpectedIdentifier));
    assert_eq!(define(tokens("(Num) = i64")), Err(DefineError::ExpectedIdentifier));
    assert_eq!(DefineInput::parse(tokens("\"Num\" = i64")), Err(DefineError::ExpectedIdentifier));
}

#[test]
fn name_is_checked_before_the_separator() {
    assert_eq!(define(tokens("42 i64")), Err(DefineError::ExpectedIdentifier));
    assert_eq!(define(tokens("struct")), Err(DefineError::ExpectedIdentifier));
}

#[test]
fn keyword_is_no_alias_name() {
    assert_eq!(define(tokens("struct = i64")), Err(DefineError::ExpectedIdentifier));
    assert_eq!(define(tokens("self = i64")), Err(DefineError::ExpectedIdentifier));
    assert_eq!(define(tokens("_ = i64")), Err(DefineError::ExpectedIdentifier));
    assert!(define(tokens("r#struct = i64")).is_ok());
    assert!(define(tokens("str = String")).is_ok());
}

#[test]
fn word_that_is_no_single_identifier_is_refused() {
    let spaced = vec![Token::ident("my alias"), punct('='), ident("i64")];
    assert_eq!(define(spaced), Err(DefineError::ExpectedIdentifier));
    let padded = vec![Token::ident(" Num"), punct('='), ident("i64")];
    assert_eq!(define(padded), Err(DefineError::ExpectedIdentifier));
    let empty = vec![Token::ident(""), punct('='), ident("i64")];
    assert_eq!(define(empty), Err(DefineError::ExpectedIdentifier));
}

#[test]
fn is_identifier_follows_the_parser() {
    assert!(is_identifier(&String::from("Num")));
    assert!(is_identifier(&String::from("strignStruct")));
    assert!(is_identifier(&String::from("r#type")));
    assert!(is_identifier(&String::from("_private")));
    assert!(!is_identifier(&String::from("type")));
    assert!(!is_identifier(&String::from("_")));
    assert!(!is_identifier(&String::from("9lives")));
    assert!(!is_identifier(&String::from("a b")));
    assert!(!is_identifier(&String::from("a-b")));
    assert!(!is_identifier(&String::from("Num ")));
    assert!(!is_identifier(&String::from("")));
}

#[test]
fn parse_with_identifier_goes_by_the_given_answer() {
    let accepted = DefineInput::parse_with_identifier(
        tokens("Num = i64"),
        Some(String::from("Num")),
    );
    assert_eq!(
        accepted,
        Ok(DefineInput { alias: String::from("Num"), replacement: vec![ident("i64")] })
    );
    let refused = DefineInput::parse_with_identifier(tokens("Num = i64"), None);
    assert_eq!(refused, Err(DefineError::ExpectedIdentifier));
    let other = DefineInput::parse_with_identifier(tokens("Num = i64"), Some(String::from("N")));
    assert_eq!(other, Err(DefineError::ExpectedIdentifier));
    let unseparated = DefineInput::parse_with_identifier(
        tokens("Num i64"),
        Some(String::from("Num")),
    );
    assert_eq!(unseparated, Err(DefineError::ExpectedEquals));
}

#[test]
fn clone_is_deep() {
    let source = tokens("outer { inner [ 1, 'c', \"s\" ] }");
    let copy = clone_tokens(&source);
    assert_eq!(copy, source);
    assert_eq!(source[1].clone(), source[1]);
}

#[test]
fn joint_spacing_is_kept() {
    let parsed = DefineInput::parse(tokens("arrow = =>")).unwrap();
    assert_eq!(
        parsed.replacement,
        vec![Token::punct('=', Spacing::Joint), Token::punct('>', Spacing::Alone)]
    );
    assert_eq!(parsed.expand(&Vec::new()), parsed.replacement);
}

#[test]
fn errors_have_their_diagnostics() {
    assert_eq!(DefineError::ExpectedIdentifier.message(), "expected identifier");
    assert_eq!(DefineError::ExpectedEquals.message(), "expected `=`");
}

fn invisible(inner: Vec<Token>) -> Token {
    Token::group(Delimiter::Invisible, inner)
}

#[test]
fn name_inside_an_invisible_group_is_found() {
    let mut input = vec![invisible(vec![ident("Num")])];
    input.extend(tokens("= i64"));
    let parsed = DefineInput::parse(input).unwrap();
    assert_eq!(parsed.alias, "Num");
    assert_eq!(parsed.replacement, tokens("i64"));
}

#[test]
fn separator_inside_an_invisible_group_is_found() {
    let input = vec![ident("Num"), invisible(vec![punct('='), ident("i64")]), punct(';')];
    let parsed = DefineInput::parse(input).unwrap();
    assert_eq!(parsed.alias, "Num");
    assert_eq!(parsed.replacement, tokens("i64;"));
}

#[test]
fn definition_inside_an_invisible_group_is_read() {
    let input = vec![invisible(vec![invisible(tokens("Num = i64"))]), punct('?')];
    let parsed = DefineInput::parse(input).unwrap();
    assert_eq!(parsed.alias, "Num");
    assert_eq!(parsed.replacement, tokens("i64 ?"));
    let whole = vec![invisible(tokens("MyInt = i64"))];
    assert_eq!(define(whole), define(tokens("MyInt = i64")));
}

#[test]
fn empty_invisible_groups_are_stepped_over() {
    let mut input = vec![invisible(Vec::new()), invisible(vec![invisible(Vec::new())])];
    input.push(ident("Num"));
    input.push(invisible(Vec::new()));
    input.extend(tokens("= i64"));
    let parsed = DefineInput::parse(input).unwrap();
    assert_eq!(parsed.alias, "Num");
    assert_eq!(parsed.replacement, tokens("i64"));
    assert_eq!(define(vec![invisible(Vec::new())]), Err(DefineError::ExpectedIdentifier));
    assert_eq!(
        define(vec![ident("Num"), invisible(Vec::new())]),
        Err(DefineError::ExpectedEquals)
    );
}

#[test]
fn invisible_group_in_the_replacement_is_kept() {
    let mut input = tokens("Sum =");
    input.push(invisible(tokens("1 + 2")));
    input.push(punct('*'));
    let parsed = DefineInput::parse(input).unwrap();
    assert_eq!(parsed.replacement, vec![invisible(tokens("1 + 2")), punct('*')]);
    assert_eq!(parsed.expand(&Vec::new()), vec![invisible(tokens("1 + 2")), punct('*')]);
}

#[test]
fn invisible_group_that_holds_no_name_is_refused() {
    let mut input = vec![invisible(tokens("42"))];
    input.extend(tokens("= i64"));
    assert_eq!(define(input), Err(DefineError::ExpectedIdentifier));
    let unseparated = vec![ident("Num"), invisible(tokens("i64"))];
    assert_eq!(define(unseparated), Err(DefineError::ExpectedEquals));
}

#[test]
fn open_front_opens_only_the_front() {
    let input = vec![
        invisible(vec![invisible(Vec::new()), invisible(tokens("a b"))]),
        invisible(tokens("c")),
        ident("d"),
    ];
    assert_eq!(
        open_front(input),
        vec![ident("a"), ident("b"), invisible(tokens("c")), ident("d")]
    );
    assert_eq!(open_front(tokens("(a) b")), tokens("(a) b"));
    assert_eq!(open_front(Vec::new()), Vec::new());
    assert_eq!(open_front(vec![invisible(Vec::new())]), Vec::new());
}

#[test]
fn text_with_an_opening_bracket_is_no_identifier() {
    assert!(has_opening(&String::from("a(b")));
    assert!(has_opening(&String::from("[")));
    assert!(has_opening(&String::from("x{")));
    assert!(!has_opening(&String::from("a)b]c}")));
    assert!(!has_opening(&String::from("")));
    assert!(!is_identifier(&String::from("(Num)")));
    assert_eq!(identifier_of(&String::from("(Num)")), None);
    let bracketed = vec![Token::ident("(Num)"), punct('='), ident("i64")];
    assert_eq!(define(bracketed), Err(DefineError::ExpectedIdentifier));
}

#[test]
fn deeply_nested_text_is_refused_without_parsing() {
    let mut text = "(".repeat(200_000);
    text.push_str(&")".repeat(200_000));
    assert!(!is_identifier(&text));
    assert_eq!(identifier_of(&text), None);
    let input = vec![Token::Ident(text), punct('='), ident("i64")];
    assert_eq!(define(input), Err(DefineError::ExpectedIdentifier));
}

#[test]
fn identifier_of_gives_the_identifier_as_written() {
    assert_eq!(identifier_of(&String::from("Num")), Some(String::from("Num")));
    assert_eq!(identifier_of(&String::from("r#type")), Some(String::from("r#type")));
    assert_eq!(identifier_of(&String::from(" Num ")), Some(String::from("Num")));
    assert_eq!(identifier_of(&String::from("type")), None);
    assert_eq!(identifier_of(&String::from("a b")), None);
}

#[test]
fn names_itself_compares_the_answer_with_the_text() {
    assert!(names_itself(&String::from("Num"), &Some(String::from("Num"))));
    assert!(!names_itself(&String::from(" Num"), &Some(String::from("Num"))));
    assert!(!names_itself(&String::from("Num"), &None));
}
