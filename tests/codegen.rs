use eb_core::ast::expr::{BinOpKind, Kind, Node};
use eb_core::ast::function::{Node as FuncNode, Param};
use eb_core::codegen::expr::visit;
use eb_core::codegen::function::{self, compile_program, Context};
use eb_core::inst::Inst;
use eb_core::lexer::location::Location;
use eb_core::lexer::token::PunctKind;

fn lit(i: i64) -> Node {
    Node::new(Kind::Int(i), Location(0))
}

fn ident(s: &str) -> Node {
    Node::new(Kind::Ident(s.to_string()), Location(0))
}

fn exprs(body: Vec<Node>) -> Node {
    Node::new(Kind::Exprs(body), Location(0))
}

fn code_of(node: &Node) -> Vec<Inst> {
    let mut ctx = Context::default();
    visit(&mut ctx, node);
    ctx.code.0
}

fn offsets(code: &[Inst]) -> Vec<(usize, String)> {
    code.iter().enumerate().map(|(i, c)| (i, format!("{:?}", c))).collect()
}

#[test]
fn backpatch_lands_after_then_body() {
    for n in [0usize, 1, 5] {
        let then_body: Vec<Node> = (0..n).map(|i| lit(i as i64)).collect();
        let node = Node::new(
            Kind::If(Box::new(ident("c")), Box::new(exprs(then_body)), None),
            Location(0),
        );
        let code = code_of(&node);
        assert_eq!(code.len(), 2 + n);
        match code[1] {
            Inst::Jne(off) => assert_eq!(1 + off, code.len()),
            _ => panic!("expected a branch: {:?}", offsets(&code)),
        }
    }
}

#[test]
fn else_uses_two_jumps() {
    let node = Node::new(
        Kind::If(
            Box::new(ident("c")),
            Box::new(exprs(vec![lit(1), lit(2)])),
            Some(Box::new(exprs(vec![lit(3)]))),
        ),
        Location(0),
    );
    let code = code_of(&node);
    // Get c, Jne, PushInt 1, PushInt 2, Jmp, PushInt 3
    assert_eq!(code.len(), 6);
    assert!(matches!(code[1], Inst::Jne(4)));
    assert!(matches!(code[4], Inst::Jmp(2)));
    assert!(matches!(code[5], Inst::PushInt(3)));
}

#[test]
fn call_emits_arguments_then_callee() {
    let node = Node::new(
        Kind::Call(Box::new(ident("f")), vec![lit(1), ident("x")]),
        Location(0),
    );
    let code = code_of(&node);
    assert_eq!(code.len(), 4);
    assert!(matches!(code[0], Inst::PushInt(1)));
    assert!(matches!(&code[1], Inst::Get(s) if s == "x"));
    assert!(matches!(&code[2], Inst::Get(s) if s == "f"));
    assert!(matches!(code[3], Inst::Call(2)));
}

#[test]
fn binop_emits_left_right_operator() {
    let node = Node::new(
        Kind::BinOp(BinOpKind::Mul, Box::new(ident("x")), Box::new(lit(3))),
        Location(0),
    );
    let code = code_of(&node);
    assert_eq!(code.len(), 3);
    assert!(matches!(&code[0], Inst::Get(s) if s == "x"));
    assert!(matches!(code[1], Inst::PushInt(3)));
    assert!(matches!(code[2], Inst::Mul));
}

#[test]
fn return_emits_value_then_ret() {
    let node = Node::new(Kind::Return(Box::new(lit(4))), Location(0));
    let code = code_of(&node);
    assert!(matches!(code.as_slice(), [Inst::PushInt(4), Inst::Ret]));
}

#[test]
fn codegen1() {
    // func f(): ;;
    let f = FuncNode::new("f".to_string(), vec![], vec![]);
    let mut ctx = Context::default();
    function::visit(&mut ctx, &f);
    assert_eq!(ctx.name, "f");
    assert!(ctx.param_names.is_empty());
    assert_eq!(ctx.code.len(), 0);
    assert!(ctx.children.is_empty());
}

#[test]
fn codegen2() {
    // func f(x): x;;
    let f = FuncNode::new("f".to_string(), vec![Param::new("x".to_string())], vec![ident("x")]);
    let mut ctx = Context::default();
    function::visit(&mut ctx, &f);
    assert_eq!(ctx.name, "f");
    assert_eq!(ctx.param_names, vec!["x".to_string()]);
    assert_eq!(ctx.code.len(), 1);
    assert!(matches!(&ctx.code.0[0], Inst::Get(s) if s == "x"));
}

#[test]
fn function_literal_becomes_a_child_and_emits_nothing() {
    let inner = FuncNode::new("g".to_string(), vec![Param::new("y".to_string())], vec![ident("y")]);
    let body = vec![
        Node::new(Kind::Function(Box::new(inner)), Location(0)),
        lit(1),
    ];
    let unit = compile_program(&body);
    assert_eq!(unit.name, "");
    assert_eq!(unit.code.len(), 1);
    assert_eq!(unit.children.len(), 1);
    assert_eq!(unit.children[0].name, "g");
    assert_eq!(unit.children[0].param_names, vec!["y".to_string()]);
    let f = FuncNode::new("h".to_string(), vec![], vec![lit(2)]);
    let compiled = function::compile(&f);
    assert_eq!(compiled.name, "h");
    assert!(matches!(compiled.code.0.as_slice(), [Inst::PushInt(2)]));
}

#[test]
fn code_access() {
    let mut ctx = Context::default();
    ctx.push(Inst::Jne(0));
    ctx.push(Inst::Ret);
    assert_eq!(ctx.code.len(), 2);
    assert!(matches!(ctx.code.get(1), Some(Inst::Ret)));
    assert!(ctx.code.get(2).is_none());
    if let Some(slot) = ctx.code.get_mut(0) {
        *slot = Inst::Jne(2);
    }
    assert!(matches!(ctx.code.0[0], Inst::Jne(2)));
    assert!(ctx.code.get_mut(5).is_none());
    ctx.add_child(Context::default());
    assert_eq!(ctx.children.len(), 1);
}

#[test]
fn ast_accessors() {
    let p = Param::new("x".to_string());
    assert_eq!(p.name(), "x");
    let f = FuncNode::new("f".to_string(), vec![p], vec![lit(1)]);
    assert_eq!(f.name(), "f");
    assert_eq!(f.params().len(), 1);
    assert_eq!(f.body().len(), 1);
    assert!(matches!(lit(3).kind(), Kind::Int(3)));
}

#[test]
fn operators_from_text() {
    assert_eq!(BinOpKind::from_punct(PunctKind::Plus), Some(BinOpKind::Add));
    assert_eq!(BinOpKind::from_punct(PunctKind::Minus), Some(BinOpKind::Sub));
    assert_eq!(BinOpKind::from_punct(PunctKind::Eq), Some(BinOpKind::Eq));
    assert_eq!(BinOpKind::from_punct(PunctKind::Colon), None);
    assert_eq!(BinOpKind::from_str("*"), Some(BinOpKind::Mul));
    assert_eq!(BinOpKind::from_str("/"), Some(BinOpKind::Div));
    assert_eq!(BinOpKind::from_str("=="), Some(BinOpKind::Eq));
    assert_eq!(BinOpKind::from_str("("), None);
    assert_eq!(BinOpKind::from_str("x"), None);
}

#[test]
fn codegen3() {
    // func f(x): if x == 1: return 1 ;; x * f(x - 1) ;;
    let cond = Node::new(
        Kind::BinOp(BinOpKind::Eq, Box::new(ident("x")), Box::new(lit(1))),
        Location(0),
    );
    let then_ = exprs(vec![Node::new(Kind::Return(Box::new(lit(1))), Location(0))]);
    let if_ = Node::new(Kind::If(Box::new(cond), Box::new(then_), None), Location(0));
    let arg = Node::new(
        Kind::BinOp(BinOpKind::Sub, Box::new(ident("x")), Box::new(lit(1))),
        Location(0),
    );
    let rec = Node::new(Kind::Call(Box::new(ident("f")), vec![arg]), Location(0));
    let mul = Node::new(
        Kind::BinOp(BinOpKind::Mul, Box::new(ident("x")), Box::new(rec)),
        Location(0),
    );
    let f = FuncNode::new("f".to_string(), vec![Param::new("x".to_string())], vec![if_, mul]);
    let mut ctx = Context::default();
    function::visit(&mut ctx, &f);
    let expected = vec![
        "Get(\"x\")",
        "PushInt(1)",
        "Eq",
        "Jne(3)",
        "PushInt(1)",
        "Ret",
        "Get(\"x\")",
        "Get(\"x\")",
        "PushInt(1)",
        "Sub",
        "Get(\"f\")",
        "Call(1)",
        "Mul",
    ];
    let got: Vec<String> = ctx.code.0.iter().map(|i| format!("{:?}", i)).collect();
    assert_eq!(got, expected);
    assert_eq!(ctx.name, "f");
    assert_eq!(ctx.param_names, vec!["x".to_string()]);
    assert!(ctx.children.is_empty());
}
