use eb_core::ast::expr::{BinOpKind, Kind, Node};
use eb_core::ast::function::{Node as FuncNode, Param};
use eb_core::codegen::function::compile_program;
use eb_core::inst::Inst;
use eb_core::lexer::location::Location;
use eb_core::lexer::source::Source;
use eb_core::lexer::tokenize;
use eb_core::parser::expr::parse_body;
use eb_core::parser::Context as ParserContext;
use eb_core::value::Value;
use eb_core::vm::{RuntimeError, VM};

fn lit(i: i64) -> Node {
    Node::new(Kind::Int(i), Location(0))
}

fn ident(s: &str) -> Node {
    Node::new(Kind::Ident(s.to_string()), Location(0))
}

fn binop(op: BinOpKind, l: Node, r: Node) -> Node {
    Node::new(Kind::BinOp(op, Box::new(l), Box::new(r)), Location(0))
}

fn call(name: &str, args: Vec<Node>) -> Node {
    Node::new(Kind::Call(Box::new(ident(name)), args), Location(0))
}

fn func(name: &str, params: &[&str], body: Vec<Node>) -> Node {
    let params = params.iter().map(|p| Param::new(p.to_string())).collect();
    Node::new(
        Kind::Function(Box::new(FuncNode::new(name.to_string(), params, body))),
        Location(0),
    )
}

fn exprs(body: Vec<Node>) -> Node {
    Node::new(Kind::Exprs(body), Location(0))
}

fn ret(v: Node) -> Node {
    Node::new(Kind::Return(Box::new(v)), Location(0))
}

fn if_(c: Node, t: Vec<Node>, e: Option<Vec<Node>>) -> Node {
    Node::new(
        Kind::If(Box::new(c), Box::new(exprs(t)), e.map(|e| Box::new(exprs(e)))),
        Location(0),
    )
}

fn run_body(body: Vec<Node>) -> (Vec<i64>, Result<(), RuntimeError>) {
    let unit = compile_program(&body);
    let mut vm = VM::new();
    let r = vm.run(&unit, 1_000_000);
    let ints = vm
        .stack
        .iter()
        .map(|v| match v {
            Value::Int(i) => *i,
            Value::Bool(b) => {
                if *b {
                    1
                } else {
                    0
                }
            }
            _ => -999,
        })
        .collect();
    (ints, r)
}

fn factorial_program() -> Vec<Node> {
    // func f(x): if x == 1: return 1;; x * f(x - 1) ;; f(10) ;;
    vec![
        func(
            "f",
            &["x"],
            vec![
                if_(binop(BinOpKind::Eq, ident("x"), lit(1)), vec![ret(lit(1))], None),
                binop(
                    BinOpKind::Mul,
                    ident("x"),
                    call("f", vec![binop(BinOpKind::Sub, ident("x"), lit(1))]),
                ),
            ],
        ),
        call("f", vec![lit(10)]),
    ]
}

#[test]
fn vm1() {
    let source = Source::String(
        r#"
            func f(x): 
                if x == 1:
                    return 1 ;;
                x * f(x - 1) ;;
            f(10) ;;"#
            .to_string(),
    );
    let mut ctx = ParserContext::new(tokenize(&source));
    let node = parse_body(&mut ctx).expect("fail to parse");
    let ctx_ = compile_program(&node);
    let mut vm = VM::default();
    assert!(vm.run(&ctx_, 1_000_000).is_ok());
    assert!(matches!(vm.stack.pop().unwrap(), Value::Int(3628800)));
}

#[test]
fn factorial_from_a_built_tree() {
    let body = factorial_program();
    let unit = compile_program(&body);
    let mut vm = VM::new();
    assert!(vm.run(&unit, 1_000_000).is_ok());
    assert!(matches!(vm.stack.as_slice(), [Value::Int(3628800)]));
}

#[test]
fn literal_alone_leaves_one_entry() {
    for n in [0i64, 42, -17, i64::MAX, i64::MIN] {
        let (stack, r) = run_body(vec![lit(n)]);
        assert!(r.is_ok());
        assert_eq!(stack, vec![n]);
    }
}

#[test]
fn subtraction_multiplication_equality() {
    let (s, r) = run_body(vec![binop(BinOpKind::Sub, lit(10), lit(3))]);
    assert!(r.is_ok());
    assert_eq!(s, vec![7]);
    let (s, _) = run_body(vec![binop(BinOpKind::Mul, lit(-6), lit(7))]);
    assert_eq!(s, vec![-42]);
    let body = vec![binop(BinOpKind::Eq, lit(4), lit(4))];
    let unit = compile_program(&body);
    let mut vm = VM::new();
    assert!(vm.run(&unit, 100).is_ok());
    assert!(matches!(vm.stack.as_slice(), [Value::Bool(true)]));
    let body = vec![binop(BinOpKind::Eq, lit(4), lit(5))];
    let unit = compile_program(&body);
    let mut vm = VM::new();
    assert!(vm.run(&unit, 100).is_ok());
    assert!(matches!(vm.stack.as_slice(), [Value::Bool(false)]));
}

#[test]
fn left_operand_is_evaluated_first() {
    // (20 - 5) - 3 and 20 - (5 - 3)
    let (s, _) = run_body(vec![binop(
        BinOpKind::Sub,
        binop(BinOpKind::Sub, lit(20), lit(5)),
        lit(3),
    )]);
    assert_eq!(s, vec![12]);
    let (s, _) = run_body(vec![binop(
        BinOpKind::Sub,
        lit(20),
        binop(BinOpKind::Sub, lit(5), lit(3)),
    )]);
    assert_eq!(s, vec![18]);
}

#[test]
fn add_div_ne() {
    let (s, _) = run_body(vec![binop(BinOpKind::Add, lit(2), lit(3))]);
    assert_eq!(s, vec![5]);
    let (s, _) = run_body(vec![binop(BinOpKind::Div, lit(-7), lit(2))]);
    assert_eq!(s, vec![-3]);
    let (s, _) = run_body(vec![binop(BinOpKind::Neq, lit(1), lit(2))]);
    assert_eq!(s, vec![1]);
}

#[test]
fn zero_parameter_call_restores_caller() {
    // func g(): 7;;  func f(x): g() ; x ;;  f(5)
    let body = vec![
        func("g", &[], vec![lit(7)]),
        func("f", &["x"], vec![call("g", vec![]), ident("x")]),
        call("f", vec![lit(5)]),
    ];
    let (s, r) = run_body(body);
    assert!(r.is_ok());
    assert_eq!(s, vec![7, 5]);
}

#[test]
fn false_condition_skips_then_body() {
    // if 1 == 2: 99 ;; 5
    let body = vec![
        if_(binop(BinOpKind::Eq, lit(1), lit(2)), vec![lit(99), lit(98)], None),
        lit(5),
    ];
    let (s, r) = run_body(body);
    assert!(r.is_ok());
    assert_eq!(s, vec![5]);
    let body = vec![
        if_(binop(BinOpKind::Eq, lit(2), lit(2)), vec![lit(99)], None),
        lit(5),
    ];
    let (s, _) = run_body(body);
    assert_eq!(s, vec![99, 5]);
}

#[test]
fn conditional_with_else() {
    let body = vec![if_(
        binop(BinOpKind::Eq, lit(1), lit(1)),
        vec![lit(10)],
        Some(vec![lit(20)]),
    )];
    let (s, _) = run_body(body);
    assert_eq!(s, vec![10]);
    let body = vec![
        if_(binop(BinOpKind::Eq, lit(1), lit(2)), vec![lit(10)], Some(vec![lit(20), lit(21)])),
        lit(3),
    ];
    let (s, _) = run_body(body);
    assert_eq!(s, vec![20, 21, 3]);
}

#[test]
fn calls_do_not_see_each_others_parameters() {
    // func f(x): x;;  func g(x): x * 10;;  f(1) ; g(2)
    let body = vec![
        func("f", &["x"], vec![ident("x")]),
        func("g", &["x"], vec![binop(BinOpKind::Mul, ident("x"), lit(10))]),
        call("f", vec![lit(1)]),
        call("g", vec![lit(2)]),
    ];
    let (s, _) = run_body(body);
    assert_eq!(s, vec![1, 20]);
    // func h(x): x;;  func k(x): h(x - 1) ; x ;;  k(5)
    let body = vec![
        func("h", &["x"], vec![ident("x")]),
        func(
            "k",
            &["x"],
            vec![call("h", vec![binop(BinOpKind::Sub, ident("x"), lit(1))]), ident("x")],
        ),
        call("k", vec![lit(5)]),
    ];
    let (s, _) = run_body(body);
    assert_eq!(s, vec![4, 5]);
}

#[test]
fn arguments_bind_left_to_right() {
    // func d(a, b): a - b ;; d(10, 4)
    let body = vec![
        func("d", &["a", "b"], vec![binop(BinOpKind::Sub, ident("a"), ident("b"))]),
        call("d", vec![lit(10), lit(4)]),
    ];
    let (s, _) = run_body(body);
    assert_eq!(s, vec![6]);
}

#[test]
fn nested_function_is_visible_inside_its_parent() {
    // func outer(): func inner(y): y * 2;; inner(21) ;;  outer()
    let body = vec![
        func(
            "outer",
            &[],
            vec![func("inner", &["y"], vec![binop(BinOpKind::Mul, ident("y"), lit(2))]), call("inner", vec![lit(21)])],
        ),
        call("outer", vec![]),
    ];
    let (s, _) = run_body(body);
    assert_eq!(s, vec![42]);
}

#[test]
fn return_leaves_the_function() {
    // func f(): return 1 ; 2 ;; f()
    let body = vec![func("f", &[], vec![ret(lit(1)), lit(2)]), call("f", vec![])];
    let (s, _) = run_body(body);
    assert_eq!(s, vec![1]);
}

#[test]
fn runtime_errors() {
    let (_, r) = run_body(vec![ident("y")]);
    assert_eq!(r, Err(RuntimeError::UnresolvedSymbol));
    let (_, r) = run_body(vec![Node::new(Kind::Call(Box::new(lit(1)), vec![]), Location(0))]);
    assert_eq!(r, Err(RuntimeError::NotAFunction));
    let (_, r) = run_body(vec![func("f", &["x"], vec![ident("x")]), call("f", vec![])]);
    assert_eq!(r, Err(RuntimeError::ArityMismatch));
    let (_, r) = run_body(vec![binop(BinOpKind::Add, lit(1), binop(BinOpKind::Eq, lit(1), lit(1)))]);
    assert_eq!(r, Err(RuntimeError::TypeMismatch));
    let (_, r) = run_body(vec![if_(lit(1), vec![lit(2)], None)]);
    assert_eq!(r, Err(RuntimeError::NotABool));
    let (_, r) = run_body(vec![binop(BinOpKind::Add, lit(i64::MAX), lit(1))]);
    assert_eq!(r, Err(RuntimeError::Overflow));
    let (_, r) = run_body(vec![binop(BinOpKind::Div, lit(i64::MIN), lit(-1))]);
    assert_eq!(r, Err(RuntimeError::Overflow));
    let (_, r) = run_body(vec![binop(BinOpKind::Div, lit(1), lit(0))]);
    assert_eq!(r, Err(RuntimeError::DivisionByZero));
    let body = vec![func("f", &[], vec![call("f", vec![])]), call("f", vec![])];
    let unit = compile_program(&body);
    let mut vm = VM::new();
    assert_eq!(vm.run(&unit, 10_000), Err(RuntimeError::OutOfFuel));
    assert!(vm.frames.len() > 1000);
}

#[test]
fn stack_underflow_and_state_kept_on_error() {
    let mut unit = eb_core::unit::FunctionContext::new();
    unit.push(Inst::PushInt(3));
    unit.push(Inst::Add);
    let mut vm = VM::default();
    assert_eq!(vm.run(&unit, 10), Err(RuntimeError::StackUnderflow));
    assert_eq!(vm.stack.len(), 1);
    assert_eq!(vm.frames.len(), 1);
    assert_eq!(vm.frames[0].pc, 1);
}

#[test]
fn strings_and_nil_compare_by_kind() {
    let mut unit = eb_core::unit::FunctionContext::new();
    unit.push(Inst::PushStr("ab".to_string()));
    unit.push(Inst::PushStr("ab".to_string()));
    unit.push(Inst::Eq);
    let mut vm = VM::new();
    assert!(vm.run(&unit, 10).is_ok());
    assert!(matches!(vm.stack.as_slice(), [Value::Bool(true)]));
    vm.stack.push(Value::Nil);
    vm.stack.push(Value::Int(1));
    let mut eq = eb_core::unit::FunctionContext::new();
    eq.push(Inst::Ne);
    assert_eq!(vm.run(&eq, 10), Err(RuntimeError::TypeMismatch));
}

#[test]
fn step_by_step() {
    let body = vec![lit(1), lit(2)];
    let unit = compile_program(&body);
    let mut vm = VM::new();
    assert_eq!(vm.run(&unit, 1), Err(RuntimeError::OutOfFuel));
    assert_eq!(vm.stack.len(), 1);
    assert!(vm.step().is_ok());
    assert!(vm.step().is_ok());
    assert!(vm.frames.is_empty());
    assert!(matches!(vm.stack.as_slice(), [Value::Int(1), Value::Int(2)]));
    let v = vm.stack[1].duplicate();
    assert!(matches!(v, Value::Int(2)));
}

#[test]
fn callee_does_not_see_callers_parameters() {
    // func g(): x;;  func f(x): g();;  f(1)
    let body = vec![
        func("g", &[], vec![ident("x")]),
        func("f", &["x"], vec![call("g", vec![])]),
        call("f", vec![lit(1)]),
    ];
    let (s, r) = run_body(body);
    assert_eq!(r, Err(RuntimeError::UnresolvedSymbol));
    assert!(s.is_empty());
}

#[test]
fn too_many_arguments_is_an_arity_error() {
    // func f(x): ;;  f(1, 2)
    let body = vec![func("f", &["x"], vec![]), call("f", vec![lit(1), lit(2)])];
    let (s, r) = run_body(body);
    assert_eq!(r, Err(RuntimeError::ArityMismatch));
    assert_eq!(s, vec![1, 2, -999]);
}

#[test]
fn call_with_missing_operands_underflows() {
    let mut g = eb_core::unit::FunctionContext::new();
    g.param_names.push("a".to_string());
    g.name = "g".to_string();
    let mut unit = eb_core::unit::FunctionContext::new();
    unit.add_child(g);
    unit.push(Inst::Get("g".to_string()));
    unit.push(Inst::Call(1));
    let mut vm = VM::new();
    assert_eq!(vm.run(&unit, 10), Err(RuntimeError::StackUnderflow));
}

fn run_text(text: &str) -> Result<(), RuntimeError> {
    let source = Source::String(text.to_string());
    let mut ctx = ParserContext::new(tokenize(&source));
    let body = parse_body(&mut ctx).expect("fail to parse");
    let unit = compile_program(&body);
    let mut vm = VM::default();
    vm.run(&unit, 10_000)
}

#[test]
fn scoping_and_arity_from_text() {
    assert_eq!(
        run_text("func g(): x;; func f(x): g();; f(1);;"),
        Err(RuntimeError::UnresolvedSymbol)
    );
    assert_eq!(run_text("func f(x): ;; f(1, 2);;"), Err(RuntimeError::ArityMismatch));
    assert_eq!(run_text("func f(x): ;; f();;"), Err(RuntimeError::ArityMismatch));
    assert_eq!(run_text("func f(x): x;; f(3);;"), Ok(()));
}
