use vstd::prelude::*;
use crate::ast::function::Node;
use crate::codegen::expr::{children_extended, code_of_list, lits_of_list, visit_list};
use crate::unit::FunctionContext;

verus! {

/// The unit that the compiler fills.
pub type Context = FunctionContext;

/// `u` is the unit compiled from the function literal `f`.
pub open spec fn compiled_from(u: FunctionContext, f: Node) -> bool
    decreases u,
{
    &&& u.name == f.name
    &&& u.param_names@.len() == f.params@.len()
    &&& forall|i: int| 0 <= i < f.params@.len() ==> #[trigger] u.param_names@[i] == f.params@[i].name
    &&& u.code.0@ == code_of_list(f.body@, f.body@.len())
    &&& u.children@.len() == lits_of_list(f.body@, f.body@.len()).len()
    &&& forall|j: int|
        0 <= j < u.children@.len() ==> compiled_from(
            #[trigger] u.children@[j],
            lits_of_list(f.body@, f.body@.len())[j],
        )
}

} // verus!

verus! {

/// Compiles the function literal `func` into `ctx`: sets its name and
/// parameters and appends the code and nested units of the body.
pub fn visit(ctx: &mut FunctionContext, func: &Node)
    ensures
        final(ctx).name == func.name,
        final(ctx).param_names@.len() == func.params@.len(),
        forall|i: int|
            0 <= i < func.params@.len() ==> #[trigger] final(ctx).param_names@[i]
                == func.params@[i].name,
        final(ctx).code.0@ == old(ctx).code.0@ + code_of_list(func.body@, func.body@.len()),
        children_extended(
            old(ctx).children@,
            final(ctx).children@,
            lits_of_list(func.body@, func.body@.len()),
        ),
    decreases func, 0nat,
{
    ctx.name = func.name.clone();
    let mut names: Vec<String> = Vec::new();
    let mut i: usize = 0;
    while i < func.params.len()
        invariant
            i <= func.params@.len(),
            names@.len() == i,
            forall|k: int| 0 <= k < i ==> #[trigger] names@[k] == func.params@[k].name,
        decreases func.params@.len() - i,
    {
        names.push(func.params[i].name.clone());
        i = i + 1;
    }
    ctx.param_names = names;
    visit_list(ctx, &func.body);
}

/// The unit compiled from the function literal `func`.
pub fn compile(func: &Node) -> (r: FunctionContext)
    ensures
        compiled_from(r, *func),
    decreases func, 1nat,
{
    let mut ctx = FunctionContext::new();
    visit(&mut ctx, func);
    assert(ctx.code.0@ =~= code_of_list(func.body@, func.body@.len()));
    assert forall|j: int| 0 <= j < ctx.children@.len() implies compiled_from(
        #[trigger] ctx.children@[j],
        lits_of_list(func.body@, func.body@.len())[j],
    ) by {
        assert(ctx.children@[0 + j] == ctx.children@[j]);
    }
    ctx
}

} // verus!

verus! {

/// `u` is the top-level unit compiled from the program body `body`: no name,
/// no parameters, the body's code, and one nested unit per function literal
/// that the body declares.
pub open spec fn program_from(u: FunctionContext, body: Seq<crate::ast::expr::Node>) -> bool {
    &&& u.name@ == Seq::<char>::empty()
    &&& u.param_names@.len() == 0
    &&& u.code.0@ == code_of_list(body, body.len())
    &&& u.children@.len() == lits_of_list(body, body.len()).len()
    &&& forall|j: int|
        0 <= j < u.children@.len() ==> compiled_from(
            #[trigger] u.children@[j],
            lits_of_list(body, body.len())[j],
        )
}

/// Compiles a program body into its top-level unit.
pub fn compile_program(body: &Vec<crate::ast::expr::Node>) -> (r: FunctionContext)
    ensures
        program_from(r, body@),
{
    let mut ctx = FunctionContext::new();
    visit_list(&mut ctx, body);
    assert(ctx.code.0@ =~= code_of_list(body@, body@.len()));
    assert forall|j: int| 0 <= j < ctx.children@.len() implies compiled_from(
        #[trigger] ctx.children@[j],
        lits_of_list(body@, body@.len())[j],
    ) by {
        assert(ctx.children@[0 + j] == ctx.children@[j]);
    }
    ctx
}

} // verus!
