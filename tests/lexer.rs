use seal_lang::lexer::dfa::Dfa;
use seal_lang::lexer::keywords::match_keyword;
use seal_lang::lexer::seal_dfa::create_dfa;
use seal_lang::lexer::{LexicalError, Lexer, Location, Spanned, TokenType};

fn tokens(input: &str) -> Vec<Spanned<'_>> {
    let dfa: &'static Dfa = Box::leak(Box::new(create_dfa()));
    let mut lexer = Lexer::new(input, dfa);
    let mut out = Vec::new();
    while let Some(t) = lexer.next() {
        out.push(t);
    }
    out
}

fn kinds(input: &str) -> Vec<(TokenType, String)> {
    tokens(input)
        .into_iter()
        .map(|t| match t {
            Ok((_, (kind, span), _)) => (kind, span.to_string()),
            Err(e) => panic!("unexpected error {:?}", e),
        })
        .collect()
}

fn loc(line: usize, column: usize, index: usize) -> Location {
    Location { line, column, index }
}

#[test]
fn longest_match_identifier_over_keyword() {
    assert_eq!(kinds("fory"), vec![(TokenType::Identifier, "fory".to_string())]);
}

#[test]
fn keyword_is_promoted() {
    assert_eq!(kinds("for"), vec![(TokenType::For, "for".to_string())]);
    assert_eq!(kinds("new_object"), vec![(TokenType::NewObject, "new_object".to_string())]);
    assert_eq!(kinds("For"), vec![(TokenType::Identifier, "For".to_string())]);
}

#[test]
fn backtracking_int_then_dot() {
    assert_eq!(
        kinds("12."),
        vec![(TokenType::IntLiteral, "12".to_string()), (TokenType::Dot, ".".to_string())]
    );
}

#[test]
fn float_literal_needs_digit_after_point() {
    assert_eq!(kinds("12.5"), vec![(TokenType::FloatLiteral, "12.5".to_string())]);
    assert_eq!(kinds("1.5e3"), vec![(TokenType::FloatLiteral, "1.5e3".to_string())]);
    assert_eq!(
        kinds("1..5"),
        vec![
            (TokenType::IntLiteral, "1".to_string()),
            (TokenType::RangeExclusive, "..".to_string()),
            (TokenType::IntLiteral, "5".to_string()),
        ]
    );
}

#[test]
fn error_recovery_one_character_each() {
    let ts = tokens("@@");
    assert_eq!(ts.len(), 2);
    match (&ts[0], &ts[1]) {
        (Err(LexicalError::Unexpected(a, l1)), Err(LexicalError::Unexpected(b, l2))) => {
            assert_eq!(*a, '@');
            assert_eq!(*b, '@');
            assert_eq!(*l1, loc(1, 1, 0));
            assert_eq!(*l2, loc(1, 2, 1));
        }
        other => panic!("expected two errors, got {:?}", other),
    }
}

#[test]
fn error_then_token() {
    let ts = tokens("@x");
    assert_eq!(ts.len(), 2);
    assert!(matches!(ts[0], Err(LexicalError::Unexpected('@', _))));
    match &ts[1] {
        Ok((start, (kind, span), end)) => {
            assert_eq!(*kind, TokenType::Identifier);
            assert_eq!(*span, "x");
            assert_eq!(*start, loc(1, 2, 1));
            assert_eq!(*end, loc(1, 3, 2));
        }
        other => panic!("expected a token, got {:?}", other),
    }
}

#[test]
fn whitespace_and_comments_are_skipped() {
    assert_eq!(
        kinds("x // note\n  y"),
        vec![(TokenType::Identifier, "x".to_string()), (TokenType::Identifier, "y".to_string())]
    );
    assert_eq!(kinds("   \n\t "), vec![]);
}

#[test]
fn doc_comments_are_kept() {
    assert_eq!(
        kinds("/// doc\n//! top"),
        vec![
            (TokenType::DocComment, "/// doc".to_string()),
            (TokenType::ModuleDocComment, "//! top".to_string()),
        ]
    );
}

#[test]
fn do_next_yields_whitespace() {
    let dfa = create_dfa();
    let mut lexer = Lexer::new("a b", &dfa);
    let mut seen = Vec::new();
    while let Some(Ok((_, (kind, _), _))) = lexer.do_next() {
        seen.push(kind);
    }
    assert_eq!(seen, vec![TokenType::Identifier, TokenType::Whitespace, TokenType::Identifier]);
}

#[test]
fn locations_follow_lines_and_bytes() {
    let ts = tokens("a\n  bc\né x");
    let spans: Vec<(Location, Location)> = ts
        .into_iter()
        .map(|t| match t {
            Ok((s, _, e)) => (s, e),
            Err(e) => panic!("unexpected error {:?}", e),
        })
        .collect();
    assert_eq!(spans[0], (loc(1, 1, 0), loc(1, 2, 1)));
    assert_eq!(spans[1], (loc(2, 3, 4), loc(2, 5, 6)));
    assert_eq!(spans[2], (loc(3, 1, 7), loc(3, 2, 9)));
    assert_eq!(spans[3], (loc(3, 3, 10), loc(3, 4, 11)));
}

#[test]
fn operators_take_longest_form() {
    let got: Vec<TokenType> = kinds(">>>= >>> >> >= > <<= && &&= || |= /% %%= ..= != == =")
        .into_iter()
        .map(|(k, _)| k)
        .collect();
    assert_eq!(
        got,
        vec![
            TokenType::LShrAssign,
            TokenType::LShr,
            TokenType::Shr,
            TokenType::GreaterOrEqual,
            TokenType::GreaterThan,
            TokenType::ShlAssign,
            TokenType::LogicalAnd,
            TokenType::LogicalAndAssign,
            TokenType::LogicalOr,
            TokenType::BitOrAssign,
            TokenType::DivRem,
            TokenType::ModAssign,
            TokenType::RangeInclusive,
            TokenType::NotEqual,
            TokenType::Equal,
            TokenType::Assign,
        ]
    );
}

#[test]
fn literals_of_each_kind() {
    let got = kinds("0x1F 0o17 0b101 \"a\\\"b\" 'c' 'outer _id");
    assert_eq!(
        got,
        vec![
            (TokenType::HexLiteral, "0x1F".to_string()),
            (TokenType::OctLiteral, "0o17".to_string()),
            (TokenType::BinLiteral, "0b101".to_string()),
            (TokenType::StringLiteral, "\"a\\\"b\"".to_string()),
            (TokenType::CharLiteral, "'c'".to_string()),
            (TokenType::Label, "'outer".to_string()),
            (TokenType::Identifier, "_id".to_string()),
        ]
    );
}

#[test]
fn unicode_identifiers() {
    assert_eq!(kinds("größe"), vec![(TokenType::Identifier, "größe".to_string())]);
}

#[test]
fn empty_input_yields_nothing() {
    assert!(tokens("").is_empty());
}

#[test]
fn keyword_table_lookup() {
    let all = [
        ("break", TokenType::Break),
        ("continue", TokenType::Continue),
        ("else", TokenType::Else),
        ("enum", TokenType::Enum),
        ("extern", TokenType::Extern),
        ("fn", TokenType::Function),
        ("for", TokenType::For),
        ("if", TokenType::If),
        ("impl", TokenType::Impl),
        ("impls", TokenType::Impls),
        ("in", TokenType::In),
        ("let", TokenType::Let),
        ("mod", TokenType::Mod),
        ("new_object", TokenType::NewObject),
        ("nil", TokenType::Nil),
        ("return", TokenType::Return),
        ("throw", TokenType::Throw),
        ("trait", TokenType::Trait),
        ("type", TokenType::Type),
        ("use", TokenType::Use),
    ];
    for (text, kind) in all.iter() {
        assert_eq!(match_keyword(text), Some(*kind));
    }
    assert_eq!(match_keyword("imp"), None);
    assert_eq!(match_keyword("Use"), None);
    assert_eq!(match_keyword(""), None);
    assert_eq!(match_keyword("zzz"), None);
}
