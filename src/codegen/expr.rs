use vstd::prelude::*;
use crate::ast::expr::{BinOpKind, Kind, Node};
use crate::ast::function as ast_function;
use crate::codegen::function::{self, compiled_from};
use crate::inst::Inst;
use crate::unit::FunctionContext;

verus! {

/// The instruction that applies a binary operator.
pub open spec fn op_inst(op: BinOpKind) -> Inst {
    match op {
        BinOpKind::Add => Inst::Add,
        BinOpKind::Sub => Inst::Sub,
        BinOpKind::Mul => Inst::Mul,
        BinOpKind::Div => Inst::Div,
        BinOpKind::Eq => Inst::Eq,
        BinOpKind::Neq => Inst::Ne,
    }
}

/// The code emitted for an expression.
///
/// A function literal emits nothing where it stands: it becomes a nested
/// unit. A conditional without "else" branches over its "then" body; with
/// "else" it branches to the "else" body and the "then" body ends with a jump
/// over it. Every expression of a sequence keeps what it pushes.
pub open spec fn code_of(e: Node) -> Seq<Inst>
    decreases e, 0nat,
{
    match e.kind {
        Kind::Int(i) => seq![Inst::PushInt(i)],
        Kind::Ident(s) => seq![Inst::Get(s)],
        Kind::Function(_) => seq![],
        Kind::BinOp(op, l, r) => code_of(*l) + code_of(*r) + seq![op_inst(op)],
        Kind::Call(callee, args) => code_of_list(args@, args@.len()) + code_of(*callee) + seq![
            Inst::Call(args@.len() as usize),
        ],
        Kind::If(c, t, None) => code_of(*c) + seq![Inst::Jne((code_of(*t).len() + 1) as usize)]
            + code_of(*t),
        Kind::If(c, t, Some(f)) => code_of(*c) + seq![
            Inst::Jne((code_of(*t).len() + 2) as usize),
        ] + code_of(*t) + seq![Inst::Jmp((code_of(*f).len() + 1) as usize)] + code_of(*f),
        Kind::Return(v) => code_of(*v) + seq![Inst::Ret],
        Kind::Exprs(es) => code_of_list(es@, es@.len()),
    }
}

/// The code of the first `n` expressions of `es`, in order.
pub open spec fn code_of_list(es: Seq<Node>, n: nat) -> Seq<Inst>
    decreases es, n,
{
    if n == 0 || n > es.len() {
        seq![]
    } else {
        code_of_list(es, (n - 1) as nat) + code_of(es[n - 1])
    }
}

/// The function literals that an expression declares directly (not those
/// inside another literal), in the order in which they are compiled.
pub open spec fn lits_of(e: Node) -> Seq<ast_function::Node>
    decreases e, 0nat,
{
    match e.kind {
        Kind::Int(_) => seq![],
        Kind::Ident(_) => seq![],
        Kind::Function(f) => seq![*f],
        Kind::BinOp(_, l, r) => lits_of(*l) + lits_of(*r),
        Kind::Call(callee, args) => lits_of_list(args@, args@.len()) + lits_of(*callee),
        Kind::If(c, t, None) => lits_of(*c) + lits_of(*t),
        Kind::If(c, t, Some(f)) => lits_of(*c) + lits_of(*t) + lits_of(*f),
        Kind::Return(v) => lits_of(*v),
        Kind::Exprs(es) => lits_of_list(es@, es@.len()),
    }
}

/// The function literals of the first `n` expressions of `es`, in order.
pub open spec fn lits_of_list(es: Seq<Node>, n: nat) -> Seq<ast_function::Node>
    decreases es, n,
{
    if n == 0 || n > es.len() {
        seq![]
    } else {
        lits_of_list(es, (n - 1) as nat) + lits_of(es[n - 1])
    }
}

/// `new` is `old` followed by one unit compiled from each of `lits`.
pub open spec fn children_extended(
    old: Seq<FunctionContext>,
    new: Seq<FunctionContext>,
    lits: Seq<ast_function::Node>,
) -> bool {
    &&& new.len() == old.len() + lits.len()
    &&& forall|j: int| 0 <= j < old.len() ==> new[j] == old[j]
    &&& forall|j: int| 0 <= j < lits.len() ==> compiled_from(#[trigger] new[old.len() + j], lits[j])
}

} // verus!

verus! {

/// Appending `l1` then `l2` is appending `l1 + l2`.
pub proof fn lemma_children_extended_trans(
    a: Seq<FunctionContext>,
    b: Seq<FunctionContext>,
    c: Seq<FunctionContext>,
    l1: Seq<ast_function::Node>,
    l2: Seq<ast_function::Node>,
)
    requires
        children_extended(a, b, l1),
        children_extended(b, c, l2),
    ensures
        children_extended(a, c, l1 + l2),
{
    assert forall|j: int| 0 <= j < (l1 + l2).len() implies compiled_from(
        #[trigger] c[a.len() + j],
        (l1 + l2)[j],
    ) by {
        if j < l1.len() {
            assert(b[a.len() + j] == c[a.len() + j]);
        } else {
            assert(c[b.len() + (j - l1.len())] == c[a.len() + j]);
        }
    }
}

/// Overwrites the placeholder at `at`, once its jump target is known.
fn patch(ctx: &mut FunctionContext, at: usize, inst: Inst)
    requires
        at < old(ctx).code.0@.len(),
    ensures
        final(ctx).code.0@ == old(ctx).code.0@.update(at as int, inst),
        final(ctx).children == old(ctx).children,
        final(ctx).name == old(ctx).name,
        final(ctx).param_names == old(ctx).param_names,
{
    match ctx.code.get_mut(at) {
        Some(slot) => {
            *slot = inst;
        },
        None => {},
    }
}

/// Appends the code of `expr` to the unit being compiled, and one nested unit
/// for each function literal that `expr` declares.
pub fn visit(ctx: &mut FunctionContext, expr: &Node)
    ensures
        final(ctx).code.0@ == old(ctx).code.0@ + code_of(*expr),
        children_extended(old(ctx).children@, final(ctx).children@, lits_of(*expr)),
        final(ctx).name == old(ctx).name,
        final(ctx).param_names == old(ctx).param_names,
    decreases expr, 1nat,
{
    let ghost c0 = ctx.code.0@;
    let ghost k0 = ctx.children@;
    match &expr.kind {
        Kind::Int(i) => {
            ctx.push(Inst::PushInt(*i));
            assert(children_extended(k0, ctx.children@, lits_of(*expr)));
        },
        Kind::Ident(s) => {
            ctx.push(Inst::Get(s.clone()));
            assert(children_extended(k0, ctx.children@, lits_of(*expr)));
        },
        Kind::Function(f) => {
            let unit = function::compile(f);
            ctx.add_child(unit);
            assert(ctx.code.0@ =~= c0 + code_of(*expr));
            assert(compiled_from(ctx.children@[k0.len() as int + 0], **f));
            assert(children_extended(k0, ctx.children@, lits_of(*expr)));
        },
        Kind::BinOp(..) => visit_binop(ctx, expr),
        Kind::Call(..) => visit_call(ctx, expr),
        Kind::If(..) => visit_if(ctx, expr),
        Kind::Return(val) => {
            visit(ctx, val);
            ctx.push(Inst::Ret);
            assert(ctx.code.0@ =~= c0 + code_of(*expr));
        },
        Kind::Exprs(exprs) => {
            visit_list(ctx, exprs);
        },
    }
}

/// Left operand, right operand, then the operator.
fn visit_binop(ctx: &mut FunctionContext, expr: &Node)
    requires
        expr.kind is BinOp,
    ensures
        final(ctx).code.0@ == old(ctx).code.0@ + code_of(*expr),
        children_extended(old(ctx).children@, final(ctx).children@, lits_of(*expr)),
        final(ctx).name == old(ctx).name,
        final(ctx).param_names == old(ctx).param_names,
    decreases expr, 0nat,
{
    let ghost c0 = ctx.code.0@;
    let ghost k0 = ctx.children@;
    if let Kind::BinOp(op, lhs, rhs) = &expr.kind {
        visit(ctx, lhs);
        let ghost k1 = ctx.children@;
        visit(ctx, rhs);
        let ghost k2 = ctx.children@;
        let inst = match op {
            BinOpKind::Add => Inst::Add,
            BinOpKind::Sub => Inst::Sub,
            BinOpKind::Mul => Inst::Mul,
            BinOpKind::Div => Inst::Div,
            BinOpKind::Eq => Inst::Eq,
            BinOpKind::Neq => Inst::Ne,
        };
        ctx.push(inst);
        assert(ctx.code.0@ =~= c0 + code_of(*expr));
        proof {
            lemma_children_extended_trans(k0, k1, k2, lits_of(**lhs), lits_of(**rhs));
        }
    }
}

/// The arguments left to right, the callee, then the call.
fn visit_call(ctx: &mut FunctionContext, expr: &Node)
    requires
        expr.kind is Call,
    ensures
        final(ctx).code.0@ == old(ctx).code.0@ + code_of(*expr),
        children_extended(old(ctx).children@, final(ctx).children@, lits_of(*expr)),
        final(ctx).name == old(ctx).name,
        final(ctx).param_names == old(ctx).param_names,
    decreases expr, 0nat,
{
    let ghost c0 = ctx.code.0@;
    let ghost k0 = ctx.children@;
    if let Kind::Call(callee, args) = &expr.kind {
        visit_list(ctx, args);
        let ghost k1 = ctx.children@;
        visit(ctx, callee);
        let ghost k2 = ctx.children@;
        ctx.push(Inst::Call(args.len()));
        assert(ctx.code.0@ =~= c0 + code_of(*expr));
        proof {
            lemma_children_extended_trans(
                k0,
                k1,
                k2,
                lits_of_list(args@, args@.len()),
                lits_of(**callee),
            );
        }
    }
}

/// The condition, a branch over the "then" body patched once the body is
/// compiled, and with an "else" body a jump over it at the end of "then".
fn visit_if(ctx: &mut FunctionContext, expr: &Node)
    requires
        expr.kind is If,
    ensures
        final(ctx).code.0@ == old(ctx).code.0@ + code_of(*expr),
        children_extended(old(ctx).children@, final(ctx).children@, lits_of(*expr)),
        final(ctx).name == old(ctx).name,
        final(ctx).param_names == old(ctx).param_names,
    decreases expr, 0nat,
{
    let ghost c0 = ctx.code.0@;
    let ghost k0 = ctx.children@;
    if let Kind::If(cond, then_, else_) = &expr.kind {
        visit(ctx, cond);
        let ghost k1 = ctx.children@;
        let cur = ctx.code.len();
        ctx.push(Inst::Jne(0));
        visit(ctx, then_);
        let ghost k2 = ctx.children@;
        proof {
            lemma_children_extended_trans(k0, k1, k2, lits_of(**cond), lits_of(**then_));
        }
        match else_ {
            None => {
                let merge = ctx.code.len();
                patch(ctx, cur, Inst::Jne(merge - cur));
                assert(ctx.code.0@ =~= c0 + code_of(*expr));
            },
            Some(else_) => {
                let skip = ctx.code.len();
                ctx.push(Inst::Jmp(0));
                let start = ctx.code.len();
                patch(ctx, cur, Inst::Jne(start - cur));
                visit(ctx, else_);
                let ghost k3 = ctx.children@;
                let merge = ctx.code.len();
                patch(ctx, skip, Inst::Jmp(merge - skip));
                assert(ctx.code.0@ =~= c0 + code_of(*expr));
                proof {
                    lemma_children_extended_trans(
                        k0,
                        k2,
                        k3,
                        lits_of(**cond) + lits_of(**then_),
                        lits_of(**else_),
                    );
                }
            },
        }
    }
}

/// Compiles each expression of `exprs` in order into the unit.
pub fn visit_list(ctx: &mut FunctionContext, exprs: &Vec<Node>)
    ensures
        final(ctx).code.0@ == old(ctx).code.0@ + code_of_list(exprs@, exprs@.len()),
        children_extended(
            old(ctx).children@,
            final(ctx).children@,
            lits_of_list(exprs@, exprs@.len()),
        ),
        final(ctx).name == old(ctx).name,
        final(ctx).param_names == old(ctx).param_names,
    decreases exprs, 0nat,
{
    let ghost c0 = ctx.code.0@;
    let ghost k0 = ctx.children@;
    let mut i: usize = 0;
    assert(ctx.code.0@ =~= c0 + code_of_list(exprs@, 0));
    assert(children_extended(k0, ctx.children@, lits_of_list(exprs@, 0)));
    while i < exprs.len()
        invariant
            i <= exprs@.len(),
            ctx.code.0@ == c0 + code_of_list(exprs@, i as nat),
            children_extended(k0, ctx.children@, lits_of_list(exprs@, i as nat)),
            ctx.name == old(ctx).name,
            ctx.param_names == old(ctx).param_names,
        decreases exprs@.len() - i,
    {
        let ghost k1 = ctx.children@;
        visit(ctx, &exprs[i]);
        proof {
            lemma_children_extended_trans(
                k0,
                k1,
                ctx.children@,
                lits_of_list(exprs@, i as nat),
                lits_of(exprs@[i as int]),
            );
        }
        i = i + 1;
        assert(ctx.code.0@ =~= c0 + code_of_list(exprs@, i as nat));
    }
}

} // verus!
