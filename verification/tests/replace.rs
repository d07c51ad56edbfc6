use arcstr::{ArcStr, Substr};
use cosmicc::error::Location;
use cosmicc::replace::call::Lexed;
use cosmicc::replace::definition::{Definition, Definitions};
use cosmicc::replace::expand::{replace, replace_iter};
use cosmicc::replace::stream::{CppError, Failure, Item, Locatable, Peekable, TokenStream};
use cosmicc::replace::token::{escape, trim, LiteralToken, Token};

const HERE: Location = Location { file: 1, start: 2, end: 3 };

fn piece(text: &str) -> Substr {
    Substr::full(ArcStr::from(text))
}

/// The tokens of a line of C.
fn tokens(line: &str) -> Vec<Token> {
    let bytes = line.as_bytes();
    let mut out = Vec::new();
    let mut i = 0;
    while i < bytes.len() {
        let start = i;
        let c = bytes[i];
        let run = |i: &mut usize, keep: fn(u8) -> bool| {
            while *i < bytes.len() && keep(bytes[*i]) {
                *i += 1;
            }
        };
        if c == b' ' {
            run(&mut i, |c| c == b' ');
            out.push(Token::Whitespace(line[start..i].to_string()));
        } else if c.is_ascii_alphabetic() || c == b'_' {
            run(&mut i, |c| c.is_ascii_alphanumeric() || c == b'_');
            let text = line[start..i].to_string();
            out.push(if text == "while" { Token::Keyword(text) } else { Token::Id(text) });
        } else if c.is_ascii_digit() {
            run(&mut i, |c| c.is_ascii_digit());
            out.push(Token::Literal(LiteralToken::Int(piece(&line[start..i]))));
        } else if c == b'"' || c == b'\'' {
            i += 1;
            while bytes[i] != c {
                i += if bytes[i] == b'\\' { 2 } else { 1 };
            }
            i += 1;
            let text = piece(&line[start..i]);
            out.push(Token::Literal(if c == b'"' {
                LiteralToken::Str(vec![text])
            } else {
                LiteralToken::Char(text)
            }));
        } else {
            i += 1;
            out.push(match c {
                b'(' => Token::LeftParen,
                b')' => Token::RightParen,
                b',' => Token::Comma,
                b'#' => Token::Hash,
                _ => Token::Other(line[start..i].to_string()),
            });
        }
    }
    out
}

fn located(token: Token) -> Item {
    Ok(Locatable { data: token, location: HERE, origin: Vec::new() })
}

fn stream(line: &str) -> TokenStream {
    TokenStream::new(tokens(line).into_iter().map(located).collect())
}

/// Object macros are written `name=list`, function macros `name(a,b)=list`.
fn definitions(lines: &[&str]) -> Definitions {
    let mut definitions = Definitions::new();
    for line in lines {
        let (head, body) = line.split_once('=').unwrap();
        let body = tokens(body);
        match head.split_once('(') {
            None => definitions.insert(head.to_string(), Definition::Object(body)),
            Some((name, params)) => {
                let params = params
                    .trim_end_matches(')')
                    .split(',')
                    .filter(|param| !param.is_empty())
                    .map(|param| param.to_string())
                    .collect();
                definitions.insert(name.to_string(), Definition::Function { params, body });
            }
        }
    }
    definitions
}

fn text(items: &[Item]) -> String {
    items
        .iter()
        .map(|item| match item {
            Ok(token) => token.data.to_string(),
            Err(failure) => format!("<{:?}>", failure.error),
        })
        .collect()
}

fn expand_with(lines: &[&str], lexed: &Lexed, source: &str) -> String {
    let definitions = definitions(lines);
    let mut replacer = replace_iter(stream(source), &definitions, lexed);
    let mut out = String::new();
    while let Some(items) = replacer.next() {
        out.push_str(&text(&items));
    }
    out
}

fn expand(lines: &[&str], source: &str) -> String {
    expand_with(lines, &Lexed::new(), source)
}

#[test]
fn object_and_function_macros_are_deterministic() {
    let lines = ["BASE=40", "ADD_ONE(value)=((value) + 1)"];
    let first = expand(&lines, "answer = ADD_ONE(BASE);");
    let second = expand(&lines, "answer = ADD_ONE(BASE);");
    assert_eq!(first, second);
    assert_eq!(first, "answer = ((40) + 1);");
    assert!(first.contains("40"));
    assert!(first.contains("1"));
    assert!(!first.contains("BASE"));
    assert!(!first.contains("ADD_ONE"));
}

#[test]
fn names_are_replaced_before_calls_and_arguments_with_them() {
    let lines = ["f(a,b)=a + b", "g=f", "c=d"];
    assert_eq!(expand(&lines, "g(c, 1)"), "d + 1");
}

#[test]
fn a_cycle_of_function_macros_stops_and_later_tokens_are_replaced() {
    let lines = ["b=c", "f(a)=g(a + 1)", "g(a)=f(a)"];
    assert_eq!(expand(&lines, "f(b)"), "f(c + 1)");
    assert_eq!(expand(&["f(a)=f(a)"], "f(1)"), "f(1)");
    assert_eq!(expand(&["f(a)=V", "V=f(1)"], "f(2)"), "f(1)");
    assert_eq!(expand(&["f(a)=a(a)"], "f(f)"), "f(f)");
}

#[test]
fn a_cycle_of_object_macros_stops() {
    assert_eq!(expand(&["a=a"], "a"), "a");
    assert_eq!(expand(&["a=b", "b=a"], "a b"), "a b");
    let lines = ["sa_handler=__sa_handler.sa_handler"];
    assert_eq!(expand(&lines, "sa_handler"), "__sa_handler.sa_handler");
}

#[test]
fn replaced_tokens_can_be_fed_back() {
    let definitions = definitions(&["a=a b"]);
    let lexed = Lexed::new();
    let once = replace(
        &definitions,
        &lexed,
        Token::Id("a".into()),
        &mut TokenStream::new(Vec::new()),
        HERE,
    );
    assert_eq!(text(&once), "a b");
    let mut again = replace_iter(TokenStream::new(once), &definitions, &lexed);
    let mut out = String::new();
    while let Some(items) = again.next() {
        out.push_str(&text(&items));
    }
    assert_eq!(out, "a b");
}

#[test]
fn object_lists_go_before_what_follows() {
    assert_eq!(expand(&["a=b c d", "b=1 + 2"], "a"), "1 + 2 c d");
}

#[test]
fn a_name_is_replaced_once_in_the_list_of_one_token() {
    assert_eq!(expand(&["a=x x", "x=1"], "a"), "1 x");
    assert_eq!(expand(&["a=x x", "x=1"], "x x"), "1 1");
}

#[test]
fn calls_nest_in_arguments() {
    assert_eq!(expand(&["f(a)=a + 1"], "f(f(2))"), "2 + 1 + 1");
    assert_eq!(expand(&["f(a)=a + 1", "V=f(1)"], "f(V)"), "1 + 1 + 1");
    assert_eq!(expand(&["call(f)=f(1)", "inc(x)=x + 1"], "call(inc)"), "1 + 1");
}

#[test]
fn arguments_may_be_empty_and_hold_parentheses() {
    assert_eq!(expand(&["f(a)=a + 1"], "f()"), " + 1");
    assert_eq!(expand(&["g(a,b)=a + b"], "g(,)"), " + ");
    assert_eq!(expand(&["g(a,b)=a + b"], "g((1, 2), 3)"), "(1, 2) + 3");
    assert_eq!(expand(&["f()=7"], "f()"), "7");
    assert_eq!(expand(&["f(a)=[a]"], "f(  x  )"), "[x]");
    assert_eq!(expand(&["f(a)=g( a )", "g(b)=<b>"], "f()"), "<>");
}

#[test]
fn a_name_without_arguments_stays() {
    assert_eq!(expand(&["f(a)=a"], "f"), "f");
    assert_eq!(expand(&["f(a)=a"], "f + 1"), "f + 1");
    assert_eq!(expand(&["f(a)=a"], "f;"), "f;");
    assert_eq!(expand(&["f(a)=<a>"], "f (1)"), "<1>");
}

#[test]
fn a_call_that_does_not_end_takes_the_rest() {
    assert_eq!(expand(&["f(a)=a"], "f(1, 2"), "");
}

#[test]
fn calls_must_have_as_many_arguments_as_parameters() {
    assert_eq!(expand(&["f(a,b)=a"], "f(1)"), "<TooFewArguments(2, 1)>");
    assert_eq!(expand(&["f(a)=a"], "f(1, 2)"), "<TooFewArguments(1, 2)>");
    assert_eq!(expand(&["f()=1"], "f(2)"), "<TooFewArguments(0, 1)>");
}

#[test]
fn errors_in_the_stream_pass_through() {
    let failure = || Failure { location: HERE, error: CppError::Lex("bad".into()) };
    let definitions = definitions(&["f(a)=<a>"]);
    let lexed = Lexed::new();
    let mut items: Vec<Item> = vec![located(Token::Id("f".into())), Err(failure())];
    items.extend(tokens("(1)").into_iter().map(located));
    items.push(Err(failure()));
    let mut replacer = replace_iter(TokenStream::new(items), &definitions, &lexed);
    let first = replacer.next().unwrap();
    assert_eq!(text(&first), "<Lex(\"bad\")><1>");
    let second = replacer.next().unwrap();
    assert_eq!(second, vec![Err(failure())]);
    assert!(replacer.next().is_none());
}

#[test]
fn arguments_are_spelled_as_strings() {
    let lines = ["str(a)=#a"];
    assert_eq!(expand(&lines, "str(x + 1)"), "\"x + 1\"");
    assert_eq!(expand(&lines, "str( a   b )"), "\"a b\"");
    assert_eq!(expand(&lines, "str(\"q\\n\")"), "\"\\\"q\\\\n\\\"\"");
    assert_eq!(expand(&lines, "str('\\'')"), "\"'\\\\''\"");
    assert_eq!(expand(&lines, "str()"), "\"\"");
    assert_eq!(expand(&["V=1", "str(a)= # a"], "str(V)"), " \"V\"");
}

#[test]
fn stringified_arguments_are_literals() {
    let definitions = definitions(&["str(a)=#a"]);
    let lexed = Lexed::new();
    let mut rest = stream("(x)");
    let items = replace(&definitions, &lexed, Token::Id("str".into()), &mut rest, HERE);
    assert!(rest.peek().is_none());
    assert_eq!(
        items,
        vec![Ok(Locatable {
            data: Token::Literal(LiteralToken::Str(vec![piece("\"x\"")])),
            location: HERE,
            origin: vec!["str".into()],
        })]
    );
}

#[test]
fn hashes_without_an_operand_are_errors() {
    let error = "<HashMissingParameterContext { macro_name: \"f\", body: ";
    assert_eq!(expand(&["f(a)=#b"], "f(1)"), format!("{error}\"# b\" }}>"));
    assert_eq!(expand(&["f(a)=#"], "f(1)"), format!("{error}\"#\" }}>"));
    assert_eq!(expand(&["f(a)=a##"], "f(1)"), format!("{error}\"a # #\" }}>"));
    assert_eq!(expand(&["f(a)=##a"], "f(1)"), format!("{error}\"# # a\" }}>"));
    assert_eq!(expand(&["f(a)=a##("], "f(1)"), format!("{error}\"a # # (\" }}>"));
}

fn lexer(answers: &[(&str, Option<Token>)]) -> Lexed {
    let mut lexed = Lexed::new();
    for (text, token) in answers {
        let token = token.as_ref().map(|token| token.duplicate());
        lexed.insert(text.to_string(), token);
    }
    lexed
}

#[test]
fn tokens_are_pasted_and_lexed_anew() {
    let lexed = lexer(&[
        ("ab", Some(Token::Id("ab".into()))),
        ("11", Some(Token::Literal(LiteralToken::Int(piece("11"))))),
        ("whilea", Some(Token::Id("whilea".into()))),
        ("1a", None),
    ]);
    let lines = ["cat(a,b)=a ## b", "ab=7"];
    assert_eq!(expand_with(&lines, &lexed, "cat(a, b)"), "7");
    assert_eq!(expand_with(&lines, &lexed, "cat(1, 1)"), "11");
    assert_eq!(expand_with(&lines, &lexed, "cat(while, a)"), "whilea");
    assert_eq!(expand_with(&lines, &lexed, "cat(x,)"), "x");
    assert_eq!(expand_with(&lines, &lexed, "cat(x y, )"), "x y");
    assert!(expand_with(&lines, &lexed, "cat(1, a)").contains("HashMissingParameterContext"));
    assert_eq!(
        expand_with(&lines, &lexed, "cat(x, y)"),
        "<UnknownPaste(\"xy\")>"
    );
}

#[test]
fn pastes_chain() {
    let id = |text: &str| Some(Token::Id(text.into()));
    let lexed = lexer(&[
        ("EXT4", id("EXT4")),
        ("EXT4_FEATURE_", id("EXT4_FEATURE_")),
        ("EXT4_FEATURE_x", id("EXT4_FEATURE_x")),
    ]);
    let lines = ["feature(v,n)=EXT##v##_FEATURE_##n + 1"];
    assert_eq!(expand_with(&lines, &lexed, "feature(4, x)"), "EXT4_FEATURE_x + 1");
    assert_eq!(expand_with(&lines, &lexed, "feature(4, x y)"), "EXT4_FEATURE_x y + 1");
}

#[test]
fn undefined_tokens_leave_the_stream_alone() {
    let definitions = definitions(&["a=b"]);
    let lexed = Lexed::new();
    let mut rest = stream("(1)");
    let items = replace(&definitions, &lexed, Token::Id("x".into()), &mut rest, HERE);
    assert_eq!(text(&items), "x");
    assert_eq!(rest.peek(), Some(&located(Token::LeftParen)));
}

#[test]
fn definitions_can_be_changed_and_forgotten() {
    let mut definitions = definitions(&["a=1", "b=2"]);
    definitions.insert("a".into(), Definition::Object(tokens("3")));
    assert_eq!(definitions.get("a"), Some(&Definition::Object(tokens("3"))));
    definitions.remove("a");
    assert_eq!(definitions.get("a"), None);
    assert_eq!(definitions.get("b"), Some(&Definition::Object(tokens("2"))));
    definitions.remove("missing");
    assert_eq!(definitions.get("b"), Some(&Definition::Object(tokens("2"))));
}

#[test]
fn text_is_trimmed_and_escaped() {
    assert_eq!(trim(" \t\u{3000}a b\n"), "a b");
    assert_eq!(trim(" \n"), "");
    assert_eq!(trim("x\u{200b}"), "x\u{200b}");
    assert_eq!(escape("a\\\"b"), "a\\\\\\\"b");
    assert_eq!(trim(" \u{85}\u{a0}\u{1680}\u{2028}\u{205f}y "), " \u{85}\u{a0}\u{1680}\u{2028}\u{205f}y ".trim());
}

#[test]
fn the_location_decides_nothing() {
    let definitions = definitions(&["f(x)=x + one(x) g", "one(y)=y 1", "g=f(2)"]);
    let lexed = Lexed::new();
    let there = Location { file: 7, start: 80, end: 81 };
    let mut near = stream("(3, 4) (5) tail");
    let mut far = stream("(3, 4) (5) tail");
    let left = replace(&definitions, &lexed, Token::Id("f".to_string()), &mut near, HERE);
    let right = replace(&definitions, &lexed, Token::Id("f".to_string()), &mut far, there);
    assert_eq!(text(&left), text(&right));
    assert_eq!(left.len(), 1);
    assert!(matches!(&left[0], Err(failure) if failure.location == HERE));
    assert!(matches!(&right[0], Err(failure) if failure.location == there));
    let mut near = stream(" (5) tail");
    let mut far = stream(" (5) tail");
    let left = replace(&definitions, &lexed, Token::Id("f".to_string()), &mut near, HERE);
    let right = replace(&definitions, &lexed, Token::Id("f".to_string()), &mut far, there);
    assert_eq!(text(&left), text(&right));
    assert!(left.iter().all(|item| matches!(item, Ok(token) if token.location == HERE)));
    assert!(right.iter().all(|item| matches!(item, Ok(token) if token.location == there)));
    let mut rest = Vec::new();
    while let Some(item) = near.next() {
        rest.push(item);
    }
    assert_eq!(text(&rest), " tail");
}

#[test]
fn a_pasted_text_is_a_token_where_the_lexer_gives_one() {
    let token = || Some(Token::Id("ab".to_string()));
    let pasted = |given: Vec<Option<Token>>| {
        let mut lexed = Lexed::new();
        lexed.record("ab".to_string(), given);
        expand_with(&["cat(a,b)=a ## b"], &lexed, "cat(a, b)")
    };
    assert_eq!(pasted(vec![token()]), "ab");
    for given in [Vec::new(), vec![None], vec![token(), token()], vec![token(), None]] {
        assert!(pasted(given).contains("HashMissingParameterContext"));
    }
}
