use eb_core::lexer::location::Location;
use eb_core::lexer::source::{Source, SourceFile};
use eb_core::lexer::token::{DelimKind, PunctKind, Token, TokenKind};
use eb_core::lexer::tokenize;

#[test]
fn tokenize1() {
    let source = Source::String(r#"func f(x i32) i32: x;;"#.to_string());
    let tokenize: Vec<Token> = tokenize(&source).collect_tokens();
    let correct = vec![
        Token::new(TokenKind::Ident("func"), Location(0)),
        Token::new(TokenKind::Ident("f"), Location(5)),
        Token::new(TokenKind::OpenDelim(DelimKind::Paren), Location(6)),
        Token::new(TokenKind::Ident("x"), Location(7)),
        Token::new(TokenKind::Ident("i32"), Location(9)),
        Token::new(TokenKind::CloseDelim(DelimKind::Paren), Location(12)),
        Token::new(TokenKind::Ident("i32"), Location(14)),
        Token::new(TokenKind::Punct(PunctKind::Colon), Location(17)),
        Token::new(TokenKind::Ident("x"), Location(19)),
        Token::new(TokenKind::Punct(PunctKind::DoubleSemicolon), Location(20)),
    ];
    assert_eq!(tokenize.len(), correct.len());
    assert!(tokenize.iter().zip(correct.iter()).all(|(a, b)| a == b))
}

#[test]
fn tokenize2() {
    let source = Source::String(
        r#"
        func f(x y i32) i32: 
            x + 1 == y - 1;;
        "#
        .to_string(),
    );
    let tokenize: Vec<Token> = tokenize(&source).collect_tokens();
    let correct = vec![
        Token::new(TokenKind::Ident("func"), Location(9)),
        Token::new(TokenKind::Ident("f"), Location(14)),
        Token::new(TokenKind::OpenDelim(DelimKind::Paren), Location(15)),
        Token::new(TokenKind::Ident("x"), Location(16)),
        Token::new(TokenKind::Ident("y"), Location(18)),
        Token::new(TokenKind::Ident("i32"), Location(20)),
        Token::new(TokenKind::CloseDelim(DelimKind::Paren), Location(23)),
        Token::new(TokenKind::Ident("i32"), Location(25)),
        Token::new(TokenKind::Punct(PunctKind::Colon), Location(28)),
        Token::new(TokenKind::Ident("x"), Location(43)),
        Token::new(TokenKind::Punct(PunctKind::Plus), Location(45)),
        Token::new(TokenKind::Int("1"), Location(47)),
        Token::new(TokenKind::Punct(PunctKind::Eq), Location(49)),
        Token::new(TokenKind::Ident("y"), Location(52)),
        Token::new(TokenKind::Punct(PunctKind::Minus), Location(54)),
        Token::new(TokenKind::Int("1"), Location(56)),
        Token::new(TokenKind::Punct(PunctKind::DoubleSemicolon), Location(57)),
    ];
    assert_eq!(tokenize.len(), correct.len());
    assert!(tokenize.iter().zip(correct.iter()).all(|(a, b)| a == b))
}

#[test]
fn comments_and_multibyte_offsets() {
    let source = Source::String("// note\n\u{e9}t\u{e9} 12ab // tail".to_string());
    let toks = tokenize(&source).collect_tokens();
    let correct = vec![
        Token::new(TokenKind::Ident("\u{e9}t\u{e9}"), Location(8)),
        Token::new(TokenKind::Int("12"), Location(14)),
        Token::new(TokenKind::Ident("ab"), Location(16)),
        Token::new(TokenKind::Punct(PunctKind::Slash), Location(19)),
        Token::new(TokenKind::Punct(PunctKind::Slash), Location(20)),
        Token::new(TokenKind::Ident("tail"), Location(22)),
    ];
    assert_eq!(toks, correct);
}

#[test]
fn stream_stops_at_unknown_character() {
    let source = Source::String("a ; b".to_string());
    let mut stream = tokenize(&source);
    assert_eq!(stream.next(), Some(Token::new(TokenKind::Ident("a"), Location(0))));
    assert_eq!(stream.next(), None);
    assert_eq!(stream.next(), None);
}

#[test]
fn from_str_and_accessors() {
    assert_eq!(TokenKind::from_str("=="), Some(TokenKind::Punct(PunctKind::Eq)));
    assert_eq!(TokenKind::from_str(";;"), Some(TokenKind::Punct(PunctKind::DoubleSemicolon)));
    assert_eq!(TokenKind::from_str("]"), Some(TokenKind::CloseDelim(DelimKind::Bracket)));
    assert_eq!(TokenKind::from_str("="), None);
    assert_eq!(TokenKind::from_str("abc"), None);
    assert_eq!(TokenKind::Ident("x").as_ident(), Some("x"));
    assert_eq!(TokenKind::Int("1").as_ident(), None);
    let t = Token::new(TokenKind::Int("7"), Location(3));
    assert_eq!(t.kind(), &TokenKind::Int("7"));
    assert_eq!(t.loc().loc(), 3);
}

#[test]
fn source_accessors() {
    let file = Source::File(SourceFile::from_parts("a.eb".to_string(), "x".to_string()));
    assert_eq!(file.as_file().unwrap().name(), "a.eb");
    assert!(file.as_str().is_none());
    assert_eq!(file.body(), "x");
    let s = Source::String("y".to_string());
    assert!(s.as_file().is_none());
    assert_eq!(s.as_str().unwrap(), "y");
    let toks = tokenize(&file).collect_tokens();
    assert_eq!(toks, vec![Token::new(TokenKind::Ident("x"), Location(0))]);
    assert!(tokenize(&s).source().as_str().is_some());
}
