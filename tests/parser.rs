use eb_core::ast::expr::{BinOpKind, Kind, Node};
use eb_core::lexer::location::Location;
use eb_core::lexer::source::Source;
use eb_core::lexer::token::{DelimKind, PunctKind};
use eb_core::lexer::tokenize;
use eb_core::parser::expr::{parse, parse_body, parse_decimal};
use eb_core::parser::function;
use eb_core::parser::{str_eq, Context, Error};

fn parse_str(s: &str) -> Result<Node, Error> {
    let source = Source::String(s.to_string());
    let mut ctx = Context::new(tokenize(&source));
    parse(&mut ctx)
}

fn int_of(n: &Node) -> i64 {
    match n.kind() {
        Kind::Int(i) => *i,
        _ => panic!("not an integer: {:?}", n),
    }
}

fn name_of(n: &Node) -> &str {
    match n.kind() {
        Kind::Ident(s) => s.as_str(),
        _ => panic!("not an identifier: {:?}", n),
    }
}

#[test]
fn expr_parse1() {
    let n = parse_str("x").expect("fail to parse");
    assert_eq!(name_of(&n), "x");
    assert_eq!(n.loc, Location(0));
}

#[test]
fn expr_parse2() {
    let n = parse_str("x +x").expect("fail to parse");
    match n.kind() {
        Kind::BinOp(BinOpKind::Add, l, r) => {
            assert_eq!(name_of(l), "x");
            assert_eq!(name_of(r), "x");
        }
        _ => panic!("{:?}", n),
    }
    assert_eq!(n.loc, Location(2));
}

#[test]
fn expr_parse3() {
    let n = parse_str("123 + x").expect("fail to parse");
    match n.kind() {
        Kind::BinOp(BinOpKind::Add, l, r) => {
            assert_eq!(int_of(l), 123);
            assert_eq!(name_of(r), "x");
        }
        _ => panic!("{:?}", n),
    }
}

#[test]
fn expr_parse4() {
    let n = parse_str("1 * 2 + 3").expect("fail to parse");
    match n.kind() {
        Kind::BinOp(BinOpKind::Add, l, r) => {
            match l.kind() {
                Kind::BinOp(BinOpKind::Mul, a, b) => {
                    assert_eq!(int_of(a), 1);
                    assert_eq!(int_of(b), 2);
                }
                _ => panic!("{:?}", l),
            }
            assert_eq!(int_of(r), 3);
        }
        _ => panic!("{:?}", n),
    }
}

#[test]
fn expr_parse5() {
    let n = parse_str("f()").expect("fail to parse");
    match n.kind() {
        Kind::Call(callee, args) => {
            assert_eq!(name_of(callee), "f");
            assert!(args.is_empty());
        }
        _ => panic!("{:?}", n),
    }
}

#[test]
fn expr_parse6() {
    let n = parse_str("f(1, x)").expect("fail to parse");
    match n.kind() {
        Kind::Call(callee, args) => {
            assert_eq!(name_of(callee), "f");
            assert_eq!(args.len(), 2);
            assert_eq!(int_of(&args[0]), 1);
            assert_eq!(name_of(&args[1]), "x");
        }
        _ => panic!("{:?}", n),
    }
}

#[test]
fn parse7() {
    let n = parse_str("x == x").expect("fail to parse");
    assert!(matches!(n.kind(), Kind::BinOp(BinOpKind::Eq, _, _)));
}

#[test]
fn parse9() {
    let n = parse_str(
        r#"if x == 1:
                123;;"#,
    )
    .expect("fail to parse");
    match n.kind() {
        Kind::If(cond, then_, else_) => {
            assert!(matches!(cond.kind(), Kind::BinOp(BinOpKind::Eq, _, _)));
            match then_.kind() {
                Kind::Exprs(body) => {
                    assert_eq!(body.len(), 1);
                    assert_eq!(int_of(&body[0]), 123);
                }
                _ => panic!("{:?}", then_),
            }
            assert!(else_.is_none());
        }
        _ => panic!("{:?}", n),
    }
}

#[test]
fn if_with_else() {
    let n = parse_str("if x == 1: 2 ;; else: 3 4 ;;").expect("fail to parse");
    match n.kind() {
        Kind::If(_, _, Some(e)) => match e.kind() {
            Kind::Exprs(body) => {
                assert_eq!(body.len(), 2);
                assert_eq!(int_of(&body[1]), 4);
            }
            _ => panic!("{:?}", e),
        },
        _ => panic!("{:?}", n),
    }
}

#[test]
fn subtraction_is_left_associative() {
    let n = parse_str("10 - 3 - 2").expect("fail to parse");
    match n.kind() {
        Kind::BinOp(BinOpKind::Sub, l, r) => {
            assert!(matches!(l.kind(), Kind::BinOp(BinOpKind::Sub, _, _)));
            assert_eq!(int_of(r), 2);
        }
        _ => panic!("{:?}", n),
    }
}

#[test]
fn function_parse1() {
    let source = Source::String(r#"func f(): ;;"#.to_string());
    let mut ctx = Context::new(tokenize(&source));
    let f = function::parse(&mut ctx).expect("fail to parse");
    assert_eq!(f.name(), "f");
    assert!(f.params().is_empty());
    assert!(f.body().is_empty());
}

#[test]
fn function_parse3() {
    let source = Source::String(r#"func f(x, y): ;;"#.to_string());
    let mut ctx = Context::new(tokenize(&source));
    let f = function::parse(&mut ctx).expect("fail to parse");
    let names: Vec<&str> = f.params().iter().map(|p| p.name().as_str()).collect();
    assert_eq!(names, vec!["x", "y"]);
}

#[test]
fn function_parse4() {
    let source = Source::String(r#"func f(x): x;;"#.to_string());
    let mut ctx = Context::new(tokenize(&source));
    let f = function::parse(&mut ctx).expect("fail to parse");
    assert_eq!(f.body().len(), 1);
    assert_eq!(name_of(&f.body()[0]), "x");
}

#[test]
fn function_parse6() {
    let source = Source::String(
        r#"
            func fact(x): 
                if x == 1:
                    return 1 ;;
                x * fact(x - 1) ;;
                "#
        .to_string(),
    );
    let mut ctx = Context::new(tokenize(&source));
    let f = function::parse(&mut ctx).expect("fail to parse");
    assert_eq!(f.name(), "fact");
    assert_eq!(f.body().len(), 2);
    assert!(matches!(f.body()[0].kind(), Kind::If(_, _, None)));
    assert!(matches!(f.body()[1].kind(), Kind::BinOp(BinOpKind::Mul, _, _)));
}

#[test]
fn parse_errors() {
    assert_eq!(parse_str("").unwrap_err(), Error::EOF);
    assert_eq!(
        parse_str(")").unwrap_err(),
        Error::ExpectedAny(Location(0), "integer value or identifier")
    );
    assert_eq!(parse_str("99999999999999999999").unwrap_err(), Error::IntTooLarge(Location(0)));
    assert_eq!(
        parse_str("f(1 2)").unwrap_err(),
        Error::ExpectedCloseDelim(Location(4), DelimKind::Paren)
    );
    let source = Source::String("func (x): ;;".to_string());
    let mut ctx = Context::new(tokenize(&source));
    assert_eq!(function::parse(&mut ctx).unwrap_err(), Error::ExpectedAnyIdent(Location(5)));
    let source = Source::String("fun f(): ;;".to_string());
    let mut ctx = Context::new(tokenize(&source));
    assert_eq!(
        function::parse(&mut ctx).unwrap_err(),
        Error::ExpectedKeyword(Location(0), "func")
    );
    let source = Source::String("func f[: ;;".to_string());
    let mut ctx = Context::new(tokenize(&source));
    assert_eq!(
        function::parse(&mut ctx).unwrap_err(),
        Error::ExpectedOpenDelim(Location(6), DelimKind::Paren)
    );
    let source = Source::String("func f() ;;".to_string());
    let mut ctx = Context::new(tokenize(&source));
    assert_eq!(
        function::parse(&mut ctx).unwrap_err(),
        Error::ExpectedPunct(Location(9), PunctKind::Colon)
    );
}

#[test]
fn body_and_context_helpers() {
    let source = Source::String("1 2 ;; x".to_string());
    let mut ctx = Context::new(tokenize(&source));
    let body = parse_body(&mut ctx).expect("fail to parse");
    assert_eq!(body.len(), 2);
    assert_eq!(ctx.cur_loc(), Ok(Location(7)));
    assert!(ctx.peek().is_some());
    assert!(ctx.skip_ident("x"));
    assert!(ctx.next().is_none());
    assert_eq!(ctx.cur_loc(), Err(Error::EOF));
    assert_eq!(parse_decimal("007"), Some(7));
    assert_eq!(parse_decimal("9223372036854775807"), Some(i64::MAX));
    assert_eq!(parse_decimal("9223372036854775808"), None);
    assert_eq!(parse_decimal("1a"), None);
    assert_eq!(parse_decimal(""), None);
    assert!(str_eq("abc", "abc"));
    assert!(!str_eq("abc", "abd"));
    assert!(!str_eq("ab", "abc"));
}

#[test]
fn mod_parse1() {
    let source = Source::String(r#"func f(): ;;"#.to_string());
    let mut ctx = Context::new(tokenize(&source));
    let f = function::parse(&mut ctx).expect("fail to parse");
    assert_eq!(f.name(), "f");
    assert!(f.params().is_empty() && f.body().is_empty());
}
