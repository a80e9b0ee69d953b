use vstd::prelude::*;
use crate::inst::Inst;
use crate::unit::FunctionContext;
use crate::value::Value;

verus! {

/// A fatal condition that halts execution.
#[derive(Debug, Clone, Copy, PartialEq, Eq, Structural)]
pub enum RuntimeError {
    /// An instruction needed more operands than the stack held.
    StackUnderflow,
    /// A name resolved in no frame of the environment.
    UnresolvedSymbol,
    /// The callee of a call is not a function.
    NotAFunction,
    /// A call passes a number of arguments other than the callee's number
    /// of parameters.
    ArityMismatch,
    /// An operator was applied to operands of the wrong kinds.
    TypeMismatch,
    /// A conditional branch popped a value that is not a boolean.
    NotABool,
    /// An integer result does not fit in 64 bits.
    Overflow,
    DivisionByZero,
    /// The instruction budget given to `run` was used up.
    OutOfFuel,
}

/// A name bound to a value in an environment frame.
#[derive(Debug)]
pub struct Binding<'a> {
    pub name: String,
    pub value: Value<'a>,
}

/// One activation: the program counter, the unit whose code runs, and the
/// environment frame built when it was entered: the unit's nested units,
/// each bound to its own name, and its parameters bound to the arguments.
/// Only the innermost activation's parameters are visible; nested units are
/// visible from every frame.
#[derive(Debug)]
pub struct Frame<'a> {
    pub pc: usize,
    pub unit: &'a FunctionContext,
    pub env: Vec<Binding<'a>>,
    pub params: Vec<Binding<'a>>,
}

/// The abstract state of a frame.
pub struct FrameState<'a> {
    pub pc: int,
    pub unit: &'a FunctionContext,
    pub env: Seq<Binding<'a>>,
    pub params: Seq<Binding<'a>>,
}

/// The abstract state of the machine: the operand stack and the frame stack,
/// innermost frame last.
pub struct State<'a> {
    pub stack: Seq<Value<'a>>,
    pub frames: Seq<FrameState<'a>>,
}

impl<'a> Frame<'a> {
    pub open spec fn view(&self) -> FrameState<'a> {
        FrameState { pc: self.pc as int, unit: self.unit, env: self.env@, params: self.params@ }
    }
}

/// The value bound to `name` by the last binding of `env` that names it.
pub open spec fn env_lookup<'a>(env: Seq<Binding<'a>>, name: Seq<char>) -> Option<Value<'a>>
    decreases env.len(),
{
    if env.len() == 0 {
        None
    } else if env.last().name@ == name {
        Some(env.last().value)
    } else {
        env_lookup(env.drop_last(), name)
    }
}

/// Resolution of `name` among the nested units bound by the frames, from
/// the innermost frame outward.
pub open spec fn unit_lookup<'a>(frames: Seq<FrameState<'a>>, name: Seq<char>) -> Option<Value<'a>>
    decreases frames.len(),
{
    if frames.len() == 0 {
        None
    } else {
        match env_lookup(frames.last().env, name) {
            Some(v) => Some(v),
            None => unit_lookup(frames.drop_last(), name),
        }
    }
}

/// Resolution of `name`: a parameter of the innermost activation, else a
/// nested unit bound by some frame, innermost first. Parameters of other
/// activations are never visible.
pub open spec fn lookup<'a>(frames: Seq<FrameState<'a>>, name: Seq<char>) -> Option<Value<'a>> {
    if frames.len() == 0 {
        None
    } else {
        match env_lookup(frames.last().params, name) {
            Some(v) => Some(v),
            None => unit_lookup(frames, name),
        }
    }
}

/// Each nested unit of `u` bound to its own name as a function value.
pub open spec fn unit_bindings<'a>(u: &'a FunctionContext) -> Seq<Binding<'a>> {
    Seq::new(
        u.children@.len(),
        |j: int| Binding { name: u.children@[j].name, value: Value::Func(&u.children@[j]) },
    )
}

/// Each parameter of `u` bound to the argument in the same position.
pub open spec fn param_bindings<'a>(u: &'a FunctionContext, args: Seq<Value<'a>>) -> Seq<
    Binding<'a>,
> {
    Seq::new(
        u.param_names@.len(),
        |i: int| Binding { name: u.param_names@[i], value: args[i] },
    )
}

/// The state in which `u` is entered as the program, over `stack`.
pub open spec fn entry_state<'a>(stack: Seq<Value<'a>>, u: &'a FunctionContext) -> State<'a> {
    State {
        stack,
        frames: seq![FrameState { pc: 0, unit: u, env: unit_bindings(u), params: seq![] }],
    }
}

pub open spec fn is_binop(inst: Inst) -> bool {
    inst is Add || inst is Sub || inst is Mul || inst is Div || inst is Eq || inst is Ne
}

pub open spec fn int_result<'a>(r: Option<i64>) -> Result<Value<'a>, RuntimeError> {
    match r {
        Some(v) => Ok(Value::Int(v)),
        None => Err(RuntimeError::Overflow),
    }
}

/// The result of the binary operator `op` on `l` and `r`. Arithmetic takes two
/// integers; equality takes two operands of one kind (functions are not
/// comparable).
pub open spec fn apply_binop<'a>(op: Inst, l: Value<'a>, r: Value<'a>) -> Result<
    Value<'a>,
    RuntimeError,
> {
    match (l, r) {
        (Value::Int(a), Value::Int(b)) => match op {
            Inst::Add => int_result(a.checked_add(b)),
            Inst::Sub => int_result(a.checked_sub(b)),
            Inst::Mul => int_result(a.checked_mul(b)),
            Inst::Div => if b == 0 {
                Err(RuntimeError::DivisionByZero)
            } else {
                int_result(a.checked_div(b))
            },
            Inst::Eq => Ok(Value::Bool(a == b)),
            Inst::Ne => Ok(Value::Bool(a != b)),
            _ => Err(RuntimeError::TypeMismatch),
        },
        (Value::Bool(a), Value::Bool(b)) => match op {
            Inst::Eq => Ok(Value::Bool(a == b)),
            Inst::Ne => Ok(Value::Bool(a != b)),
            _ => Err(RuntimeError::TypeMismatch),
        },
        (Value::String(a), Value::String(b)) => match op {
            Inst::Eq => Ok(Value::Bool(a@ == b@)),
            Inst::Ne => Ok(Value::Bool(a@ != b@)),
            _ => Err(RuntimeError::TypeMismatch),
        },
        (Value::Nil, Value::Nil) => match op {
            Inst::Eq => Ok(Value::Bool(true)),
            Inst::Ne => Ok(Value::Bool(false)),
            _ => Err(RuntimeError::TypeMismatch),
        },
        _ => Err(RuntimeError::TypeMismatch),
    }
}

/// Where a forward jump of `off` from `pc` lands; a jump past the end of the
/// code lands on its end.
pub open spec fn jump_target(pc: int, off: int, len: int) -> int {
    if pc + off > len {
        len
    } else {
        pc + off
    }
}

/// The frame `f` moved to `pc`.
pub open spec fn at_pc<'a>(f: FrameState<'a>, pc: int) -> FrameState<'a> {
    FrameState { pc, unit: f.unit, env: f.env, params: f.params }
}

/// One step of the machine: the instruction at the top frame's program
/// counter, or leaving the frame when the counter has passed the end of its
/// code. On an error the state stays as it was.
pub open spec fn step_spec<'a>(s: State<'a>) -> Result<State<'a>, RuntimeError>
    recommends
        s.frames.len() > 0,
{
    let top = s.frames.last();
    let code = top.unit.code.0@;
    let rest = s.frames.drop_last();
    let n = s.stack.len();
    if top.pc >= code.len() {
        Ok(State { stack: s.stack, frames: rest })
    } else {
        let next = rest.push(at_pc(top, top.pc + 1));
        match code[top.pc] {
            Inst::PushInt(i) => Ok(State { stack: s.stack.push(Value::Int(i)), frames: next }),
            Inst::PushStr(t) => Ok(State { stack: s.stack.push(Value::String(t)), frames: next }),
            Inst::Get(name) => match lookup(s.frames, name@) {
                Some(v) => Ok(State { stack: s.stack.push(v), frames: next }),
                None => Err(RuntimeError::UnresolvedSymbol),
            },
            Inst::Call(argc) => if n == 0 {
                Err(RuntimeError::StackUnderflow)
            } else {
                match s.stack.last() {
                    Value::Func(u) => {
                        let k = u.param_names@.len();
                        if argc != k {
                            Err(RuntimeError::ArityMismatch)
                        } else if n - 1 < k {
                            Err(RuntimeError::StackUnderflow)
                        } else {
                            let base = n - 1 - k;
                            Ok(
                                State {
                                    stack: s.stack.take(base),
                                    frames: next.push(
                                        FrameState {
                                            pc: 0,
                                            unit: u,
                                            env: unit_bindings(u),
                                            params: param_bindings(
                                                u,
                                                s.stack.subrange(base, n - 1),
                                            ),
                                        },
                                    ),
                                },
                            )
                        }
                    },
                    _ => Err(RuntimeError::NotAFunction),
                }
            },
            Inst::Jne(off) => if n == 0 {
                Err(RuntimeError::StackUnderflow)
            } else {
                match s.stack.last() {
                    Value::Bool(false) => Ok(
                        State {
                            stack: s.stack.drop_last(),
                            frames: rest.push(
                                at_pc(top, jump_target(top.pc, off as int, code.len() as int)),
                            ),
                        },
                    ),
                    Value::Bool(true) => Ok(State { stack: s.stack.drop_last(), frames: next }),
                    _ => Err(RuntimeError::NotABool),
                }
            },
            Inst::Jmp(off) => Ok(
                State {
                    stack: s.stack,
                    frames: rest.push(
                        at_pc(top, jump_target(top.pc, off as int, code.len() as int)),
                    ),
                },
            ),
            Inst::Ret => Ok(State { stack: s.stack, frames: rest }),
            op => if n < 2 {
                Err(RuntimeError::StackUnderflow)
            } else {
                match apply_binop(op, s.stack[n - 2], s.stack[n - 1]) {
                    Ok(v) => Ok(State { stack: s.stack.take(n - 2).push(v), frames: next }),
                    Err(e) => Err(e),
                }
            },
        }
    }
}

/// Runs from `s` for at most `fuel` steps: the final state and how it ended.
/// Execution ends normally when the frame stack is empty.
pub open spec fn run_spec<'a>(s: State<'a>, fuel: nat) -> (State<'a>, Result<(), RuntimeError>)
    decreases fuel,
{
    if s.frames.len() == 0 {
        (s, Ok(()))
    } else if fuel == 0 {
        (s, Err(RuntimeError::OutOfFuel))
    } else {
        match step_spec(s) {
            Ok(t) => run_spec(t, (fuel - 1) as nat),
            Err(e) => (s, Err(e)),
        }
    }
}

} // verus!

verus! {

/// The virtual machine: one operand stack shared by all frames, and an
/// explicit frame stack (no call recurses on the host stack).
pub struct VM<'a> {
    pub stack: Vec<Value<'a>>,
    pub frames: Vec<Frame<'a>>,
}

impl<'a> Default for VM<'a> {
    fn default() -> (r: Self)
        ensures
            r@.stack.len() == 0,
            r@.frames.len() == 0,
    {
        Self::new()
    }
}

impl<'a> VM<'a> {
    pub open spec fn view(&self) -> State<'a> {
        State { stack: self.stack@, frames: self.frames@.map_values(|f: Frame<'a>| f@) }
    }

    /// A machine with an empty operand stack and no frames.
    pub fn new() -> (r: Self)
        ensures
            r@.stack.len() == 0,
            r@.frames.len() == 0,
    {
        VM { stack: Vec::new(), frames: Vec::new() }
    }

    /// The parameters of `u` bound to `self.stack[base..base + arity]`.
    fn param_env(&self, u: &'a FunctionContext, base: usize) -> (r: Vec<Binding<'a>>)
        requires
            base + u.param_names@.len() <= self.stack@.len(),
        ensures
            r@ == param_bindings(u, self.stack@.subrange(base as int, base + u.param_names@.len())),
    {
        let mut env: Vec<Binding<'a>> = Vec::new();
        let ghost args = self.stack@.subrange(base as int, base + u.param_names@.len());
        let mut i: usize = 0;
        while i < u.param_names.len()
            invariant
                i <= u.param_names@.len(),
                base + u.param_names@.len() <= self.stack@.len(),
                args == self.stack@.subrange(base as int, base + u.param_names@.len()),
                env@ == param_bindings(u, args).take(i as int),
            decreases u.param_names@.len() - i,
        {
            assert(base + i < self.stack.len());
            env.push(
                Binding { name: u.param_names[i].clone(), value: self.stack[base + i].duplicate() },
            );
            i = i + 1;
            assert(env@ =~= param_bindings(u, args).take(i as int));
        }
        assert(param_bindings(u, args).take(i as int) =~= param_bindings(u, args));
        env
    }
}

/// Each nested unit of `u` bound to its own name.
fn unit_env<'a>(u: &'a FunctionContext) -> (r: Vec<Binding<'a>>)
    ensures
        r@ == unit_bindings(u),
{
    let mut env: Vec<Binding<'a>> = Vec::new();
    let mut j: usize = 0;
    while j < u.children.len()
        invariant
            j <= u.children@.len(),
            env@ == unit_bindings(u).take(j as int),
        decreases u.children@.len() - j,
    {
        env.push(Binding { name: u.children[j].name.clone(), value: Value::Func(&u.children[j]) });
        j = j + 1;
        assert(env@ =~= unit_bindings(u).take(j as int));
    }
    assert(env@ =~= unit_bindings(u));
    env
}

/// The value bound to `name` in `env` by its last binding of that name.
fn env_get<'a>(env: &Vec<Binding<'a>>, name: &String) -> (r: Option<Value<'a>>)
    ensures
        r == env_lookup(env@, name@),
{
    let mut j: usize = env.len();
    assert(env@.take(j as int) =~= env@);
    while j > 0
        invariant
            j <= env@.len(),
            env_lookup(env@, name@) == env_lookup(env@.take(j as int), name@),
        decreases j,
    {
        assert(env@.take(j as int).drop_last() =~= env@.take(j - 1));
        if env[j - 1].name == *name {
            return Some(env[j - 1].value.duplicate());
        }
        j = j - 1;
    }
    None
}

} // verus!

verus! {

/// The result of the binary operator `op` on `l` and `r`.
fn binop<'a>(op: &Inst, l: &Value<'a>, r: &Value<'a>) -> (res: Result<Value<'a>, RuntimeError>)
    requires
        is_binop(*op),
    ensures
        res == apply_binop(*op, *l, *r),
{
    match (l, r) {
        (Value::Int(a), Value::Int(b)) => {
            let v = match op {
                Inst::Add => a.checked_add(*b),
                Inst::Sub => a.checked_sub(*b),
                Inst::Mul => a.checked_mul(*b),
                Inst::Div => {
                    if *b == 0 {
                        return Err(RuntimeError::DivisionByZero);
                    }
                    a.checked_div(*b)
                },
                Inst::Eq => return Ok(Value::Bool(*a == *b)),
                _ => return Ok(Value::Bool(*a != *b)),
            };
            match v {
                Some(v) => Ok(Value::Int(v)),
                None => Err(RuntimeError::Overflow),
            }
        },
        (Value::Bool(a), Value::Bool(b)) => match op {
            Inst::Eq => Ok(Value::Bool(*a == *b)),
            Inst::Ne => Ok(Value::Bool(*a != *b)),
            _ => Err(RuntimeError::TypeMismatch),
        },
        (Value::String(a), Value::String(b)) => match op {
            Inst::Eq => Ok(Value::Bool(*a == *b)),
            Inst::Ne => Ok(Value::Bool(!(*a == *b))),
            _ => Err(RuntimeError::TypeMismatch),
        },
        (Value::Nil, Value::Nil) => match op {
            Inst::Eq => Ok(Value::Bool(true)),
            Inst::Ne => Ok(Value::Bool(false)),
            _ => Err(RuntimeError::TypeMismatch),
        },
        _ => Err(RuntimeError::TypeMismatch),
    }
}

impl<'a> VM<'a> {
    /// Resolves `s`: a parameter of the innermost frame, else a nested unit
    /// bound by a frame, innermost first.
    fn lookup(&self, s: &String) -> (r: Option<Value<'a>>)
        ensures
            r == lookup(self@.frames, s@),
    {
        let n = self.frames.len();
        if n == 0 {
            return None;
        }
        assert(self@.frames.last() == self.frames@[n - 1]@);
        let found = env_get(&self.frames[n - 1].params, s);
        if found.is_some() {
            return found;
        }
        let mut k: usize = n;
        assert(self@.frames.take(k as int) =~= self@.frames);
        while k > 0
            invariant
                k <= self.frames@.len(),
                lookup(self@.frames, s@) == unit_lookup(self@.frames.take(k as int), s@),
            decreases k,
        {
            assert(self@.frames.take(k as int).drop_last() =~= self@.frames.take(k - 1));
            assert(self@.frames.take(k as int).last() == self.frames@[k - 1]@);
            let found = env_get(&self.frames[k - 1].env, s);
            if found.is_some() {
                return found;
            }
            k = k - 1;
        }
        None
    }

    /// Moves the innermost frame to `pc`.
    fn set_pc(&mut self, pc: usize)
        requires
            old(self).frames@.len() > 0,
        ensures
            final(self).stack == old(self).stack,
            final(self)@.frames == old(self)@.frames.drop_last().push(
                at_pc(old(self)@.frames.last(), pc as int),
            ),
    {
        let mut f = self.frames.pop().unwrap();
        f.pc = pc;
        self.frames.push(f);
        assert(self@.frames =~= old(self)@.frames.drop_last().push(
            at_pc(old(self)@.frames.last(), pc as int),
        ));
    }

    /// Executes one step of the innermost frame.
    pub fn step(&mut self) -> (r: Result<(), RuntimeError>)
        requires
            old(self)@.frames.len() > 0,
        ensures
            match step_spec(old(self)@) {
                Ok(t) => r == Ok::<(), RuntimeError>(()) && final(self)@ == t,
                Err(e) => r == Err::<(), RuntimeError>(e) && final(self)@ == old(self)@,
            },
    {
        let last = self.frames.len() - 1;
        let unit: &'a FunctionContext = self.frames[last].unit;
        let pc = self.frames[last].pc;
        assert(old(self)@.frames.last() == self.frames@[last as int]@);
        let len = unit.code.0.len();
        if pc >= len {
            self.frames.pop();
            assert(self@.frames =~= old(self)@.frames.drop_last());
            return Ok(());
        }
        let n = self.stack.len();
        match &unit.code.0[pc] {
            Inst::PushInt(i) => {
                self.stack.push(Value::Int(*i));
                self.set_pc(pc + 1);
            },
            Inst::PushStr(t) => {
                self.stack.push(Value::String(t.clone()));
                self.set_pc(pc + 1);
            },
            Inst::Get(name) => {
                match self.lookup(name) {
                    Some(v) => {
                        self.stack.push(v);
                        self.set_pc(pc + 1);
                    },
                    None => {
                        return Err(RuntimeError::UnresolvedSymbol);
                    },
                }
            },
            Inst::Call(argc) => {
                if n == 0 {
                    return Err(RuntimeError::StackUnderflow);
                }
                let callee: &'a FunctionContext = match &self.stack[n - 1] {
                    Value::Func(u) => *u,
                    _ => {
                        return Err(RuntimeError::NotAFunction);
                    },
                };
                let k = callee.param_names.len();
                if *argc != k {
                    return Err(RuntimeError::ArityMismatch);
                }
                if n - 1 < k {
                    return Err(RuntimeError::StackUnderflow);
                }
                let base = n - 1 - k;
                let params = self.param_env(callee, base);
                let env = unit_env(callee);
                self.stack.truncate(base);
                self.set_pc(pc + 1);
                self.frames.push(Frame { pc: 0, unit: callee, env, params });
                assert(self@.stack =~= old(self)@.stack.take(base as int));
                assert(self@.frames =~= old(self)@.frames.drop_last().push(
                    at_pc(old(self)@.frames.last(), pc + 1),
                ).push(
                    FrameState {
                        pc: 0,
                        unit: callee,
                        env: unit_bindings(callee),
                        params: param_bindings(
                            callee,
                            old(self)@.stack.subrange(base as int, n - 1),
                        ),
                    },
                ));
            },
            Inst::Jne(off) => {
                if n == 0 {
                    return Err(RuntimeError::StackUnderflow);
                }
                let cond = match &self.stack[n - 1] {
                    Value::Bool(b) => *b,
                    _ => {
                        return Err(RuntimeError::NotABool);
                    },
                };
                self.stack.pop();
                if cond {
                    self.set_pc(pc + 1);
                } else if *off > len - pc {
                    self.set_pc(len);
                } else {
                    self.set_pc(pc + *off);
                }
            },
            Inst::Jmp(off) => {
                if *off > len - pc {
                    self.set_pc(len);
                } else {
                    self.set_pc(pc + *off);
                }
            },
            Inst::Ret => {
                self.frames.pop();
                assert(self@.frames =~= old(self)@.frames.drop_last());
            },
            op => {
                if n < 2 {
                    return Err(RuntimeError::StackUnderflow);
                }
                match binop(op, &self.stack[n - 2], &self.stack[n - 1]) {
                    Ok(v) => {
                        self.stack.truncate(n - 2);
                        self.stack.push(v);
                        self.set_pc(pc + 1);
                        assert(self@.stack =~= old(self)@.stack.take(n - 2).push(v));
                    },
                    Err(e) => {
                        return Err(e);
                    },
                }
            },
        }
        Ok(())
    }

    /// Executes `ctx` as the program over the current operand stack, for at
    /// most `fuel` steps. Any frames left from an earlier run are dropped.
    pub fn run(&mut self, ctx: &'a FunctionContext, fuel: u64) -> (r: Result<(), RuntimeError>)
        ensures
            ({
                let (s, res) = run_spec(entry_state(old(self)@.stack, ctx), fuel as nat);
                r == res && final(self)@ == s
            }),
    {
        let env = unit_env(ctx);
        self.frames = Vec::new();
        self.frames.push(Frame { pc: 0, unit: ctx, env, params: Vec::new() });
        assert(self@ == entry_state(old(self)@.stack, ctx)) by {
            assert(self@.frames =~= entry_state(old(self)@.stack, ctx).frames);
        }
        let mut left = fuel;
        loop
            invariant
                run_spec(self@, left as nat) == run_spec(
                    entry_state(old(self)@.stack, ctx),
                    fuel as nat,
                ),
            decreases left,
        {
            if self.frames.len() == 0 {
                return Ok(());
            }
            if left == 0 {
                return Err(RuntimeError::OutOfFuel);
            }
            match self.step() {
                Ok(()) => {},
                Err(e) => {
                    return Err(e);
                },
            }
            left = left - 1;
        }
    }
}

} // verus!
