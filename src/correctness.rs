use vstd::prelude::*;
use crate::ast::expr::{BinOpKind, Kind, Node};
use crate::codegen::expr::{code_of, code_of_list, op_inst};
use crate::codegen::function::program_from;
use crate::inst::Inst;
use crate::unit::FunctionContext;
use crate::value::Value;
use crate::vm::{
    apply_binop, at_pc, entry_state, env_lookup, lookup, param_bindings, run_spec, unit_lookup,
    step_spec, unit_bindings, Binding, FrameState,
    RuntimeError, State,
};

verus! {

/// The state reached from `s` after exactly `k` steps, each taken from a
/// non-empty frame stack without error.
pub open spec fn steps<'a>(s: State<'a>, k: nat) -> Option<State<'a>>
    decreases k,
{
    if k == 0 {
        Some(s)
    } else if s.frames.len() > 0 && step_spec(s) is Ok {
        steps(step_spec(s)->Ok_0, (k - 1) as nat)
    } else {
        None
    }
}

/// Taking `a` steps and then `b` steps is taking `a + b` steps.
pub proof fn lemma_steps_compose<'a>(s: State<'a>, a: nat, b: nat)
    requires
        steps(s, a) is Some,
    ensures
        steps(s, a + b) == steps(steps(s, a)->Some_0, b),
    decreases a,
{
    if a > 0 {
        lemma_steps_compose(step_spec(s)->Ok_0, (a - 1) as nat, b);
        assert((a + b - 1) as nat == (a - 1) as nat + b);
    }
}

/// A run spends its first `k` steps as `steps` does.
pub proof fn lemma_run_steps<'a>(s: State<'a>, k: nat, fuel: nat)
    requires
        steps(s, k) is Some,
        fuel >= k,
    ensures
        run_spec(s, fuel) == run_spec(steps(s, k)->Some_0, (fuel - k) as nat),
    decreases k,
{
    if k > 0 {
        lemma_run_steps(step_spec(s)->Ok_0, (k - 1) as nat, (fuel - 1) as nat);
    }
}

/// The frame that runs `s`'s innermost unit holds `c` at its counter.
pub open spec fn code_at<'a>(s: State<'a>, c: Seq<Inst>) -> bool {
    &&& s.frames.len() > 0
    &&& 0 <= s.frames.last().pc
    &&& s.frames.last().pc + c.len() <= s.frames.last().unit.code.0@.len()
    &&& s.frames.last().unit.code.0@.subrange(
        s.frames.last().pc,
        s.frames.last().pc + c.len(),
    ) == c
}

/// `s` with its innermost frame moved forward by `d`, and `pushed` on its stack.
pub open spec fn advanced<'a>(s: State<'a>, d: int, pushed: Seq<Value<'a>>) -> State<'a> {
    State {
        stack: s.stack + pushed,
        frames: s.frames.drop_last().push(at_pc(s.frames.last(), s.frames.last().pc + d)),
    }
}

/// An arithmetic expression: integer literals under binary operators.
pub open spec fn arith(e: Node) -> bool
    decreases e,
{
    match e.kind {
        Kind::Int(_) => true,
        Kind::BinOp(_, l, r) => arith(*l) && arith(*r),
        _ => false,
    }
}

/// The value of an arithmetic expression, the left operand before the right.
pub open spec fn eval<'a>(e: Node) -> Result<Value<'a>, RuntimeError>
    decreases e,
{
    match e.kind {
        Kind::Int(i) => Ok(Value::Int(i)),
        Kind::BinOp(op, l, r) => match eval(*l) {
            Ok(a) => match eval(*r) {
                Ok(b) => apply_binop(op_inst(op), a, b),
                Err(x) => Err(x),
            },
            Err(x) => Err(x),
        },
        _ => Err(RuntimeError::TypeMismatch),
    }
}

/// Running `k` steps from `s` moves the innermost frame `d` instructions on
/// and pushes `v` on the operand stack, and changes nothing else.
pub open spec fn pushes<'a>(s: State<'a>, d: int, k: nat, v: Value<'a>) -> bool {
    steps(s, k) == Some(advanced(s, d, seq![v]))
}

/// A binary operation whose operands' code each pushes one value (whatever
/// that code is: literals, names, calls) runs as the left operand's code,
/// then the right one's, then the operator, and pushes the operator's result.
pub proof fn lemma_binop_code<'a>(
    s: State<'a>,
    e: Node,
    kl: nat,
    kr: nat,
    a: Value<'a>,
    b: Value<'a>,
)
    requires
        e.kind is BinOp,
        code_at(s, code_of(e)),
        pushes(s, code_of(*e.kind->BinOp_1).len() as int, kl, a),
        pushes(
            advanced(s, code_of(*e.kind->BinOp_1).len() as int, seq![a]),
            code_of(*e.kind->BinOp_2).len() as int,
            kr,
            b,
        ),
        apply_binop(op_inst(e.kind->BinOp_0), a, b) is Ok,
    ensures
        pushes(
            s,
            code_of(e).len() as int,
            kl + kr + 1,
            apply_binop(op_inst(e.kind->BinOp_0), a, b)->Ok_0,
        ),
{
    let top = s.frames.last();
    let code = top.unit.code.0@;
    let op = e.kind->BinOp_0;
    let cl = code_of(*e.kind->BinOp_1);
    let cr = code_of(*e.kind->BinOp_2);
    assert(code_of(e) == cl + cr + seq![op_inst(op)]);
    let v = apply_binop(op_inst(op), a, b)->Ok_0;
    let s1 = advanced(s, cl.len() as int, seq![a]);
    let s2 = advanced(s1, cr.len() as int, seq![b]);
    lemma_steps_compose(s, kl, kr);
    assert(code.subrange(top.pc, top.pc + code_of(e).len())[(cl.len() + cr.len()) as int]
        == code_of(e)[(cl.len() + cr.len()) as int]);
    assert(code[top.pc + cl.len() + cr.len()] == op_inst(op));
    assert(s2.stack =~= s.stack + seq![a, b]);
    let s3 = advanced(s, code_of(e).len() as int, seq![v]);
    assert(step_spec(s2) == Ok::<State<'a>, RuntimeError>(s3)) by {
        assert(s2.stack.take(s2.stack.len() - 2) =~= s.stack);
        assert(s2.stack[s2.stack.len() - 2] == a);
        assert(s2.stack[s2.stack.len() - 1] == b);
        assert(s.stack.push(v) =~= s.stack + seq![v]);
        assert(s2.frames.drop_last() =~= s.frames.drop_last());
    }
    assert(steps(s3, 0) == Some(s3));
    lemma_steps_compose(s, kl + kr, 1);
}

/// Running the code of an arithmetic expression that evaluates without error
/// pushes its value and nothing else, and moves past that code.
pub proof fn lemma_arith_code<'a>(s: State<'a>, e: Node)
    requires
        arith(e),
        eval::<'a>(e) is Ok,
        code_at(s, code_of(e)),
    ensures
        pushes(s, code_of(e).len() as int, code_of(e).len(), eval::<'a>(e)->Ok_0),
    decreases e,
{
    let top = s.frames.last();
    let code = top.unit.code.0@;
    match e.kind {
        Kind::Int(i) => {
            assert(code[top.pc] == code_of(e)[0]);
            assert(steps(step_spec(s)->Ok_0, 0) == Some(step_spec(s)->Ok_0));
            assert(s.stack.push(Value::Int(i)) =~= s.stack + seq![Value::Int(i)]);
        },
        Kind::BinOp(op, l, r) => {
            let cl = code_of(*l);
            let cr = code_of(*r);
            assert(code_of(e) == cl + cr + seq![op_inst(op)]);
            let a = eval::<'a>(*l)->Ok_0;
            let b = eval::<'a>(*r)->Ok_0;
            assert(code.subrange(top.pc, top.pc + cl.len()) =~= cl) by {
                assert(code.subrange(top.pc, top.pc + code_of(e).len()).subrange(0, cl.len() as int)
                    =~= cl);
            }
            lemma_arith_code(s, *l);
            let s1 = advanced(s, cl.len() as int, seq![a]);
            assert(code_at(s1, cr)) by {
                assert(code.subrange(top.pc, top.pc + code_of(e).len()).subrange(
                    cl.len() as int,
                    (cl.len() + cr.len()) as int,
                ) =~= cr);
                assert(code.subrange(top.pc + cl.len(), top.pc + cl.len() + cr.len()) =~= cr);
            }
            lemma_arith_code(s1, *r);
            lemma_binop_code(s, e, cl.len(), cr.len(), a, b);
        },
        _ => {},
    }
}

} // verus!

verus! {

/// A program whose code, run from its entry, reaches the end of that code in
/// `k` steps having pushed exactly `v`, leaves exactly `v` and ends normally.
pub proof fn lemma_program_leaves<'a>(u: &'a FunctionContext, k: nat, v: Value<'a>, fuel: nat)
    requires
        pushes(entry_state(Seq::empty(), u), u.code.0@.len() as int, k, v),
        fuel > k,
    ensures
        run_spec(entry_state(Seq::empty(), u), fuel) == (
            State::<'a> { stack: seq![v], frames: Seq::empty() },
            Ok::<(), RuntimeError>(()),
        ),
{
    let s = entry_state(Seq::<Value<'a>>::empty(), u);
    lemma_run_steps(s, k, fuel);
    let t = advanced(s, u.code.0@.len() as int, seq![v]);
    assert(t.stack =~= seq![v]);
    let done = State::<'a> { stack: t.stack, frames: Seq::empty() };
    assert(step_spec(t) == Ok::<State<'a>, RuntimeError>(done)) by {
        assert(t.frames.drop_last() =~= Seq::<FrameState<'a>>::empty());
    }
    assert(run_spec(done, (fuel - k - 1) as nat) == (done, Ok::<(), RuntimeError>(())));
}

/// A program whose body is one arithmetic expression that evaluates without
/// error leaves exactly its value on an empty operand stack.
pub proof fn lemma_arith_program<'a>(u: &'a FunctionContext, e: Node, fuel: nat)
    requires
        program_from(*u, seq![e]),
        arith(e),
        eval::<'a>(e) is Ok,
        fuel > code_of(e).len(),
    ensures
        run_spec(entry_state(Seq::empty(), u), fuel) == (
            State::<'a> { stack: seq![eval::<'a>(e)->Ok_0], frames: Seq::empty() },
            Ok::<(), RuntimeError>(()),
        ),
{
    let s = entry_state(Seq::<Value<'a>>::empty(), u);
    let body = seq![e];
    assert(code_of_list(body, 1) == code_of_list(body, 0) + code_of(body[0]));
    assert(u.code.0@ =~= code_of(e));
    assert(u.code.0@.subrange(0, code_of(e).len() as int) =~= code_of(e));
    lemma_arith_code(s, e);
    lemma_program_leaves(u, code_of(e).len(), eval::<'a>(e)->Ok_0, fuel);
}

/// An integer literal compiled and run alone leaves exactly one entry on the
/// operand stack, equal to that integer.
pub proof fn lemma_literal_program<'a>(
    u: &'a FunctionContext,
    n: i64,
    loc: crate::lexer::location::Location,
    fuel: nat,
)
    requires
        program_from(*u, seq![Node { kind: Kind::Int(n), loc }]),
        fuel >= 2,
    ensures
        run_spec(entry_state(Seq::empty(), u), fuel) == (
            State::<'a> { stack: seq![Value::Int(n)], frames: Seq::empty() },
            Ok::<(), RuntimeError>(()),
        ),
{
    let e = Node { kind: Kind::Int(n), loc };
    assert(code_of(e).len() == 1);
    lemma_arith_program(u, e, fuel);
}

/// For integer-producing operands `l` and `r` (any expressions whose code,
/// run where it stands, pushes one integer: `a` for `l`, then `b` for `r`),
/// the program `l op r` is compiled with the code of `l` before that of `r`,
/// and run alone it leaves exactly `Int(a - b)` for subtraction,
/// `Int(a * b)` for multiplication and `Bool(a == b)` for equality (where
/// the result fits in 64 bits).
pub proof fn lemma_binop_program<'a>(
    u: &'a FunctionContext,
    op: BinOpKind,
    l: Box<Node>,
    r: Box<Node>,
    loc: crate::lexer::location::Location,
    a: i64,
    b: i64,
    kl: nat,
    kr: nat,
    fuel: nat,
)
    requires
        program_from(*u, seq![Node { kind: Kind::BinOp(op, l, r), loc }]),
        pushes(entry_state(Seq::empty(), u), code_of(*l).len() as int, kl, Value::Int(a)),
        pushes(
            advanced(entry_state(Seq::empty(), u), code_of(*l).len() as int, seq![Value::Int(a)]),
            code_of(*r).len() as int,
            kr,
            Value::Int(b),
        ),
        fuel > kl + kr + 1,
    ensures
        u.code.0@ == code_of(*l) + code_of(*r) + seq![op_inst(op)],
        op == BinOpKind::Sub && i64::MIN <= a - b <= i64::MAX ==> run_spec(
            entry_state(Seq::empty(), u),
            fuel,
        ) == (
            State::<'a> { stack: seq![Value::Int((a - b) as i64)], frames: Seq::empty() },
            Ok::<(), RuntimeError>(()),
        ),
        op == BinOpKind::Mul && i64::MIN <= a * b <= i64::MAX ==> run_spec(
            entry_state(Seq::empty(), u),
            fuel,
        ) == (
            State::<'a> { stack: seq![Value::Int((a * b) as i64)], frames: Seq::empty() },
            Ok::<(), RuntimeError>(()),
        ),
        op == BinOpKind::Eq ==> run_spec(entry_state(Seq::empty(), u), fuel) == (
            State::<'a> { stack: seq![Value::Bool(a == b)], frames: Seq::empty() },
            Ok::<(), RuntimeError>(()),
        ),
{
    let e = Node { kind: Kind::BinOp(op, l, r), loc };
    let s = entry_state(Seq::<Value<'a>>::empty(), u);
    let body = seq![e];
    assert(code_of_list(body, 1) == code_of_list(body, 0) + code_of(body[0]));
    assert(u.code.0@ =~= code_of(*l) + code_of(*r) + seq![op_inst(op)]);
    assert(u.code.0@.subrange(0, code_of(e).len() as int) =~= code_of(e));
    let x = Value::<'a>::Int(a);
    let y = Value::<'a>::Int(b);
    if apply_binop(op_inst(op), x, y) is Ok {
        lemma_binop_code(s, e, kl, kr, x, y);
        lemma_program_leaves(u, kl + kr + 1, apply_binop(op_inst(op), x, y)->Ok_0, fuel);
    }
}

} // verus!

verus! {

/// In the code of a conditional, each patched jump lands exactly on the first
/// instruction after what it skips, whatever the length of the bodies
/// (empty, one instruction, or more). Without "else", the branch lands right
/// after the "then" body. With "else", the branch lands on the first
/// instruction of the "else" body, and the jump that ends the "then" body
/// lands right after the "else" body.
pub proof fn lemma_branch_targets(e: Node)
    requires
        e.kind is If,
        code_of(e).len() <= usize::MAX,
    ensures
        match e.kind {
            Kind::If(c, t, None) => {
                let p = code_of(*c).len() as int;
                let merge = p + 1 + code_of(*t).len();
                &&& merge == code_of(e).len()
                &&& code_of(e)[p] is Jne
                &&& p + code_of(e)[p]->Jne_0 == merge
                &&& code_of(e).subrange(p + 1, merge) == code_of(*t)
            },
            Kind::If(c, t, Some(f)) => {
                let p = code_of(*c).len() as int;
                let q = p + 1 + code_of(*t).len();
                let merge = q + 1 + code_of(*f).len();
                &&& merge == code_of(e).len()
                &&& code_of(e)[p] is Jne
                &&& p + code_of(e)[p]->Jne_0 == q + 1
                &&& code_of(e).subrange(p + 1, q) == code_of(*t)
                &&& code_of(e)[q] is Jmp
                &&& q + code_of(e)[q]->Jmp_0 == merge
                &&& code_of(e).subrange(q + 1, merge) == code_of(*f)
            },
            _ => true,
        },
{
    match e.kind {
        Kind::If(c, t, None) => {
            let p = code_of(*c).len() as int;
            assert(code_of(e).subrange(p + 1, p + 1 + code_of(*t).len()) =~= code_of(*t));
        },
        Kind::If(c, t, Some(f)) => {
            let p = code_of(*c).len() as int;
            let q = p + 1 + code_of(*t).len();
            assert(code_of(e).subrange(p + 1, q) =~= code_of(*t));
            assert(code_of(e).subrange(q + 1, q + 1 + code_of(*f).len()) =~= code_of(*f));
        },
        _ => {},
    }
}

} // verus!

verus! {

/// A conditional without "else" whose condition's code pushes `false`
/// skips its "then" body entirely: once the condition and the branch have
/// run, nothing has been pushed and the frame stands exactly at the merge
/// point, the first instruction after the conditional.
pub proof fn lemma_false_condition_skips_then<'a>(
    s: State<'a>,
    e: Node,
    c: Box<Node>,
    t: Box<Node>,
    kc: nat,
)
    requires
        e.kind == Kind::If(c, t, None),
        code_at(s, code_of(e)),
        pushes(s, code_of(*c).len() as int, kc, Value::Bool(false)),
        code_of(e).len() <= usize::MAX,
    ensures
        steps(s, kc + 1) == Some(advanced(s, code_of(e).len() as int, seq![])),
{
    let top = s.frames.last();
    let code = top.unit.code.0@;
    let lc = code_of(*c).len();
    let s1 = advanced(s, lc as int, seq![Value::Bool(false)]);
    assert(code.subrange(top.pc, top.pc + code_of(e).len())[lc as int] == code_of(e)[lc as int]);
    assert(code[top.pc + lc] == code_of(e)[lc as int]);
    let s2 = advanced(s, code_of(e).len() as int, seq![]);
    assert(step_spec(s1) == Ok::<State<'a>, RuntimeError>(s2)) by {
        assert(s1.stack.drop_last() =~= s.stack + seq![]);
        assert(s1.frames.drop_last() =~= s.frames.drop_last());
    }
    assert(steps(s2, 0) == Some(s2));
    lemma_steps_compose(s, kc, 1);
}

/// The last binding of `env` that names `name` decides its value.
pub proof fn lemma_env_lookup_at<'a>(env: Seq<Binding<'a>>, idx: int, name: Seq<char>)
    requires
        0 <= idx < env.len(),
        env[idx].name@ == name,
        forall|j: int| idx < j < env.len() ==> #[trigger] env[j].name@ != name,
    ensures
        env_lookup(env, name) == Some(env[idx].value),
    decreases env.len(),
{
    if idx < env.len() - 1 {
        assert(env.last().name@ != name);
        lemma_env_lookup_at(env.drop_last(), idx, name);
    }
}

/// Frames whose nested-unit bindings agree resolve nested units alike:
/// parameters play no part.
pub proof fn lemma_unit_lookup_env_only<'a>(
    fs: Seq<FrameState<'a>>,
    gs: Seq<FrameState<'a>>,
    name: Seq<char>,
)
    requires
        fs.len() == gs.len(),
        forall|i: int| 0 <= i < fs.len() ==> #[trigger] fs[i].env == gs[i].env,
    ensures
        unit_lookup(fs, name) == unit_lookup(gs, name),
    decreases fs.len(),
{
    if fs.len() > 0 {
        assert(fs.last().env == gs.last().env);
        lemma_unit_lookup_env_only(fs.drop_last(), gs.drop_last(), name);
    }
}

/// The parameters of any frame but the innermost are never visible: giving
/// such a frame other parameter bindings changes no lookup.
pub proof fn lemma_outer_params_invisible<'a>(
    fs: Seq<FrameState<'a>>,
    j: int,
    q: Seq<Binding<'a>>,
    name: Seq<char>,
)
    requires
        0 <= j < fs.len() - 1,
    ensures
        lookup(
            fs.update(j, FrameState { pc: fs[j].pc, unit: fs[j].unit, env: fs[j].env, params: q }),
            name,
        ) == lookup(fs, name),
{
    let gs = fs.update(j, FrameState { pc: fs[j].pc, unit: fs[j].unit, env: fs[j].env, params: q });
    lemma_unit_lookup_env_only(gs, fs, name);
    assert(gs.last() == fs.last());
}

/// Moving the innermost frame's counter changes no lookup.
pub proof fn lemma_lookup_ignores_pc<'a>(fs: Seq<FrameState<'a>>, p: int, name: Seq<char>)
    requires
        fs.len() > 0,
    ensures
        lookup(fs.drop_last().push(at_pc(fs.last(), p)), name) == lookup(fs, name),
{
    let gs = fs.drop_last().push(at_pc(fs.last(), p));
    assert forall|i: int| 0 <= i < gs.len() implies #[trigger] gs[i].env == fs[i].env by {}
    lemma_unit_lookup_env_only(gs, fs, name);
}

/// At `s` the innermost frame calls the function `u` (top of the stack)
/// with `k` arguments, which is its number of parameters, all on the stack.
pub open spec fn calls<'a>(s: State<'a>, u: &'a FunctionContext, k: nat) -> bool {
    &&& s.frames.len() > 0
    &&& 0 <= s.frames.last().pc < s.frames.last().unit.code.0@.len()
    &&& s.frames.last().unit.code.0@[s.frames.last().pc] == Inst::Call(k as usize)
    &&& k <= usize::MAX
    &&& s.stack.len() > k
    &&& s.stack.last() == Value::Func(u)
    &&& u.param_names@.len() == k
}

/// The caller's frames once the call at `s` is over: as they were, the
/// innermost one just past the call.
pub open spec fn after_call<'a>(s: State<'a>) -> Seq<FrameState<'a>> {
    s.frames.drop_last().push(at_pc(s.frames.last(), s.frames.last().pc + 1))
}

/// The state in which the call at `s` has just entered `u`: the callee and
/// its `k` arguments are off the stack, and the new frame binds `u`'s nested
/// units and its parameters to the arguments, left to right.
pub open spec fn entered<'a>(s: State<'a>, u: &'a FunctionContext, k: nat) -> State<'a> {
    let n = s.stack.len();
    State {
        stack: s.stack.take(n - 1 - k),
        frames: after_call(s).push(
            FrameState {
                pc: 0,
                unit: u,
                env: unit_bindings(u),
                params: param_bindings(u, s.stack.subrange(n - 1 - k, n - 1)),
            },
        ),
    }
}

/// In `done` the activation entered in `t` is about to leave (it stands at a
/// return or past the end of its code) with every frame beneath untouched.
pub open spec fn leaving<'a>(t: State<'a>, done: State<'a>) -> bool {
    &&& done.frames.len() == t.frames.len()
    &&& done.frames.drop_last() == t.frames.drop_last()
    &&& done.frames.last().unit == t.frames.last().unit
    &&& (done.frames.last().pc >= done.frames.last().unit.code.0@.len()
        || done.frames.last().unit.code.0@[done.frames.last().pc] is Ret)
}

/// A whole call: entering the callee, running its body for `m` steps, and
/// leaving it. The caller resumes just past the call with its frames, and
/// so everything it can resolve, exactly as before the call.
pub proof fn lemma_whole_call<'a>(
    s: State<'a>,
    u: &'a FunctionContext,
    k: nat,
    m: nat,
    done: State<'a>,
)
    requires
        calls(s, u, k),
        steps(entered(s, u, k), m) == Some(done),
        leaving(entered(s, u, k), done),
    ensures
        step_spec(s) == Ok::<State<'a>, RuntimeError>(entered(s, u, k)),
        steps(s, m + 2) == Some(State { stack: done.stack, frames: after_call(s) }),
        forall|name: Seq<char>| #[trigger] lookup(after_call(s), name) == lookup(s.frames, name),
{
    let n = s.stack.len();
    let t = entered(s, u, k);
    assert(s.stack.subrange(n - 1 - k, n - 1).len() == k);
    assert(step_spec(s) == Ok::<State<'a>, RuntimeError>(t));
    let fin = State { stack: done.stack, frames: after_call(s) };
    assert(step_spec(done) == Ok::<State<'a>, RuntimeError>(fin)) by {
        assert(done.frames.drop_last() == t.frames.drop_last());
        assert(t.frames.drop_last() =~= after_call(s));
    }
    assert(steps(fin, 0) == Some(fin));
    assert(steps(t, 0) == Some(t));
    assert(steps(s, 1) == Some(t));
    lemma_steps_compose(s, 1, m);
    lemma_steps_compose(s, 1 + m, 1);
    assert forall|name: Seq<char>| #[trigger] lookup(after_call(s), name) == lookup(s.frames, name) by {
        lemma_lookup_ignores_pc(s.frames, s.frames.last().pc + 1, name);
    }
}

/// Calling a function without parameters takes no operand for binding (only
/// the callee leaves the stack) and binds no parameter; once its body has run
/// and it returns, the caller's frame and environment are exactly as they
/// were, its counter just past the call.
pub proof fn lemma_zero_param_call<'a>(
    s: State<'a>,
    u: &'a FunctionContext,
    m: nat,
    done: State<'a>,
)
    requires
        calls(s, u, 0),
        steps(entered(s, u, 0), m) == Some(done),
        leaving(entered(s, u, 0), done),
    ensures
        entered(s, u, 0).stack == s.stack.drop_last(),
        entered(s, u, 0).frames.last().params.len() == 0,
        entered(s, u, 0).frames.last().env == unit_bindings(u),
        steps(s, m + 2) == Some(State { stack: done.stack, frames: after_call(s) }),
        forall|name: Seq<char>| #[trigger] lookup(after_call(s), name) == lookup(s.frames, name),
{
    assert(s.stack.take(s.stack.len() - 1) =~= s.stack.drop_last());
    lemma_whole_call(s, u, 0, m, done);
}

/// Frame isolation over a whole call. While the callee is the innermost
/// activation (whatever its body has done so far), a parameter name that its
/// parameter list binds once resolves to this call's own argument, whatever
/// any other frame, a caller or an earlier call with a parameter of the same
/// name, binds to it. Once it returns, the caller resolves every name as
/// before the call: nothing of the finished call remains visible.
pub proof fn lemma_frame_isolation<'a>(
    s: State<'a>,
    u: &'a FunctionContext,
    k: nat,
    i: int,
    m: nat,
    done: State<'a>,
)
    requires
        calls(s, u, k),
        0 <= i < k,
        forall|j: int|
            0 <= j < k && j != i ==> #[trigger] u.param_names@[j]@ != u.param_names@[i]@,
        steps(entered(s, u, k), m) == Some(done),
        leaving(entered(s, u, k), done),
    ensures
        forall|mid: State<'a>|
            mid.frames.len() > 0 && mid.frames.last().params == entered(s, u, k).frames.last().params
                ==> #[trigger] lookup(mid.frames, u.param_names@[i]@) == Some(
                s.stack[s.stack.len() - 1 - k + i],
            ),
        steps(s, m + 2) == Some(State { stack: done.stack, frames: after_call(s) }),
        forall|name: Seq<char>| #[trigger] lookup(after_call(s), name) == lookup(s.frames, name),
{
    let n = s.stack.len();
    let args = s.stack.subrange(n - 1 - k, n - 1);
    let ps = param_bindings(u, args);
    let name = u.param_names@[i]@;
    assert forall|j: int| i < j < ps.len() implies #[trigger] ps[j].name@ != name by {}
    lemma_env_lookup_at(ps, i, name);
    lemma_whole_call(s, u, k, m, done);
}

} // verus!
