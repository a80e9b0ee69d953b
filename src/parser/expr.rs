use vstd::prelude::*;
use vstd::string::*;
use crate::ast::expr::{BinOpKind, Kind, Node};
use crate::lexer::token::{DelimKind, PunctKind, TokenKind};
use crate::parser::function;
use crate::parser::{is_word, str_eq, Context, Error};
use crate::parser::spelling::{
    args_spell, body_spell, consumed, is_tok, width, lemma_args_len, lemma_args_push, lemma_body_len,
    lemma_list_len, lemma_list_push, lemma_spells_binop, lemma_split, list_spell, spells,
};
use crate::lexer::location::Location;

verus! {

/// The value of the decimal numeral `s` (ASCII digits, at least one).
pub open spec fn decimal(s: Seq<char>) -> Option<int>
    decreases s.len(),
{
    if s.len() == 0 || !('0' <= s.last() && s.last() <= '9') {
        None
    } else if s.len() == 1 {
        Some(s.last() as int - '0' as int)
    } else {
        match decimal(s.drop_last()) {
            Some(v) => Some(v * 10 + (s.last() as int - '0' as int)),
            None => None,
        }
    }
}

pub proof fn lemma_decimal_nonneg(s: Seq<char>)
    ensures
        decimal(s) matches Some(v) ==> v >= 0,
    decreases s.len(),
{
    if s.len() > 1 {
        lemma_decimal_nonneg(s.drop_last());
    }
}

/// The value of the decimal numeral `s`, if it is one and fits in 64 bits.
pub fn parse_decimal(s: &str) -> (r: Option<i64>)
    ensures
        r == match decimal(s@) {
            Some(v) => if v <= i64::MAX {
                Some(v as i64)
            } else {
                None
            },
            None => None,
        },
{
    let n = s.unicode_len();
    if n == 0 {
        return None;
    }
    let mut v: i64 = 0;
    let mut i: usize = 0;
    while i < n
        invariant
            0 <= i <= n == s@.len(),
            n > 0,
            i == 0 ==> v == 0,
            i > 0 ==> decimal(s@.take(i as int)) == Some(v as int),
        decreases n - i,
    {
        let c = s.get_char(i);
        proof {
            assert(s@.take(i + 1).drop_last() =~= s@.take(i as int));
            assert(s@.take(i + 1).last() == c);
            lemma_decimal_nonneg(s@.take(i as int));
        }
        if !('0' <= c && c <= '9') {
            proof {
                lemma_decimal_prefix_none(s@, i + 1);
            }
            return None;
        }
        let d = (c as u32 - '0' as u32) as i64;
        if v > (i64::MAX - d) / 10 {
            proof {
                lemma_decimal_prefix_large(s@, i + 1);
            }
            return None;
        }
        v = v * 10 + d;
        i = i + 1;
    }
    assert(s@.take(n as int) =~= s@);
    Some(v)
}

/// A numeral whose prefix is no numeral is none either.
proof fn lemma_decimal_prefix_none(s: Seq<char>, k: int)
    requires
        0 < k <= s.len(),
        decimal(s.take(k)) is None,
    ensures
        decimal(s) is None,
    decreases s.len() - k,
{
    if k < s.len() {
        assert(s.take(k + 1).drop_last() =~= s.take(k));
        lemma_decimal_prefix_none(s, k + 1);
    } else {
        assert(s.take(k) =~= s);
    }
}

/// A numeral whose prefix is too large for 64 bits is too large too.
proof fn lemma_decimal_prefix_large(s: Seq<char>, k: int)
    requires
        0 < k <= s.len(),
        decimal(s.take(k)) matches Some(v) && v > i64::MAX,
    ensures
        decimal(s) is None || decimal(s)->Some_0 > i64::MAX,
    decreases s.len() - k,
{
    if k < s.len() {
        assert(s.take(k + 1).drop_last() =~= s.take(k));
        if decimal(s.take(k + 1)) is Some {
            lemma_decimal_prefix_large(s, k + 1);
        } else {
            lemma_decimal_prefix_none(s, k + 1);
        }
    } else {
        assert(s.take(k) =~= s);
    }
}

} // verus!

verus! {

/// The precedence level of a binary operator: products bind tightest.
pub open spec fn op_level(op: BinOpKind) -> nat {
    match op {
        BinOpKind::Mul | BinOpKind::Div => 1,
        BinOpKind::Add | BinOpKind::Sub => 2,
        BinOpKind::Eq | BinOpKind::Neq => 3,
    }
}

/// `n` is an expression of precedence level at most `k` as the parser builds
/// it: operators of one level associate to the left, and an operand of a
/// level-`k` operator is of level `k` on the left and below `k` on the
/// right. Level 0 holds no binary operation at the top.
pub open spec fn shaped(n: Node, k: nat) -> bool
    decreases n, k,
{
    if k == 0 {
        !(n.kind is BinOp)
    } else {
        match n.kind {
            Kind::BinOp(op, l, r) => if op_level(op) == k {
                shaped(*l, k) && shaped(*r, (k - 1) as nat)
            } else {
                shaped(n, (k - 1) as nat)
            },
            _ => shaped(n, (k - 1) as nat),
        }
    }
}

proof fn lemma_shaped_level(n: Node, j: nat)
    requires
        shaped(n, j),
    ensures
        n.kind matches Kind::BinOp(op, _, _) ==> op_level(op) <= j,
    decreases j,
{
    if j > 0 {
        if let Kind::BinOp(op, _, _) = n.kind {
            if op_level(op) != j {
                lemma_shaped_level(n, (j - 1) as nat);
            }
        }
    }
}

/// An expression of a level is one of every higher level.
proof fn lemma_shaped_lift(n: Node, j: nat, k: nat)
    requires
        shaped(n, j),
        j <= k,
    ensures
        shaped(n, k),
    decreases k - j,
{
    if j < k {
        lemma_shaped_lift(n, j, (k - 1) as nat);
        lemma_shaped_level(n, (k - 1) as nat);
    }
}

/// Parses one expression: comparisons over sums over products over calls.
pub fn parse(ctx: &mut Context) -> (r: Result<Node, Error>)
    requires
        old(ctx).wf(),
    ensures
        final(ctx).advanced(*old(ctx), r is Ok),
        r matches Ok(n) ==> shaped(n, 3),
        r matches Ok(n) ==> spells(consumed(*old(ctx), *final(ctx)), n),
    decreases old(ctx).remaining(), 7nat,
{
    parse_binop_eq_ne(ctx)
}

/// `a == b == c`, left-associative.
fn parse_binop_eq_ne(ctx: &mut Context) -> (r: Result<Node, Error>)
    requires
        old(ctx).wf(),
    ensures
        final(ctx).advanced(*old(ctx), r is Ok),
        r matches Ok(n) ==> shaped(n, 3),
        r matches Ok(n) ==> spells(consumed(*old(ctx), *final(ctx)), n),
    decreases old(ctx).remaining(), 6nat,
{
    let mut lhs = parse_binop_add_sub(ctx)?;
    proof {
        lemma_shaped_lift(lhs, 2, 3);
    }
    loop
        invariant
            ctx.advanced(*old(ctx), true),
            spells(consumed(*old(ctx), *ctx), lhs),
            shaped(lhs, 3),
        decreases ctx.remaining(),
    {
        let ghost opos = ctx.pos_spec();
        let loc = ctx.cur_loc();
        if !ctx.skip_punct(PunctKind::Eq) {
            break;
        }
        let loc = loc?;
        let rhs = parse_binop_add_sub(ctx)?;
        let ghost prev = lhs;
        lhs = Node::new(Kind::BinOp(BinOpKind::Eq, Box::new(lhs), Box::new(rhs)), loc);
        proof {
            lemma_spells_binop(ctx.tokens_spec(), old(ctx).pos_spec(), opos, ctx.pos_spec(), lhs);
        }
    }
    Ok(lhs)
}

/// `a + b - c`, left-associative.
fn parse_binop_add_sub(ctx: &mut Context) -> (r: Result<Node, Error>)
    requires
        old(ctx).wf(),
    ensures
        final(ctx).advanced(*old(ctx), r is Ok),
        r matches Ok(n) ==> shaped(n, 2),
        r matches Ok(n) ==> spells(consumed(*old(ctx), *final(ctx)), n),
    decreases old(ctx).remaining(), 5nat,
{
    let mut lhs = parse_binop_mul_div(ctx)?;
    proof {
        lemma_shaped_lift(lhs, 1, 2);
    }
    loop
        invariant
            ctx.advanced(*old(ctx), true),
            spells(consumed(*old(ctx), *ctx), lhs),
            shaped(lhs, 2),
        decreases ctx.remaining(),
    {
        let ghost opos = ctx.pos_spec();
        let loc = ctx.cur_loc();
        let plus = ctx.skip_punct(PunctKind::Plus);
        let minus = !plus && ctx.skip_punct(PunctKind::Minus);
        if !plus && !minus {
            break;
        }
        let loc = loc?;
        let rhs = parse_binop_mul_div(ctx)?;
        let op = if plus {
            BinOpKind::Add
        } else {
            BinOpKind::Sub
        };
        let ghost prev = lhs;
        lhs = Node::new(Kind::BinOp(op, Box::new(lhs), Box::new(rhs)), loc);
        proof {
            lemma_spells_binop(ctx.tokens_spec(), old(ctx).pos_spec(), opos, ctx.pos_spec(), lhs);
        }
    }
    Ok(lhs)
}

/// `a * b / c`, left-associative.
fn parse_binop_mul_div(ctx: &mut Context) -> (r: Result<Node, Error>)
    requires
        old(ctx).wf(),
    ensures
        final(ctx).advanced(*old(ctx), r is Ok),
        r matches Ok(n) ==> shaped(n, 1),
        r matches Ok(n) ==> spells(consumed(*old(ctx), *final(ctx)), n),
    decreases old(ctx).remaining(), 4nat,
{
    let mut lhs = parse_postfix(ctx)?;
    proof {
        lemma_shaped_lift(lhs, 0, 1);
    }
    loop
        invariant
            ctx.advanced(*old(ctx), true),
            spells(consumed(*old(ctx), *ctx), lhs),
            shaped(lhs, 1),
        decreases ctx.remaining(),
    {
        let ghost opos = ctx.pos_spec();
        let loc = ctx.cur_loc();
        let star = ctx.skip_punct(PunctKind::Star);
        let slash = !star && ctx.skip_punct(PunctKind::Slash);
        if !star && !slash {
            break;
        }
        let loc = loc?;
        let rhs = parse_postfix(ctx)?;
        let op = if star {
            BinOpKind::Mul
        } else {
            BinOpKind::Div
        };
        let ghost prev = lhs;
        lhs = Node::new(Kind::BinOp(op, Box::new(lhs), Box::new(rhs)), loc);
        proof {
            lemma_spells_binop(ctx.tokens_spec(), old(ctx).pos_spec(), opos, ctx.pos_spec(), lhs);
        }
    }
    Ok(lhs)
}

/// A primary expression, called when an opening parenthesis follows.
fn parse_postfix(ctx: &mut Context) -> (r: Result<Node, Error>)
    requires
        old(ctx).wf(),
    ensures
        final(ctx).advanced(*old(ctx), r is Ok),
        r matches Ok(n) ==> shaped(n, 0),
        r matches Ok(n) ==> spells(consumed(*old(ctx), *final(ctx)), n),
    decreases old(ctx).remaining(), 3nat,
{
    let base = parse_primary(ctx)?;
    let ghost p1 = ctx.pos_spec();
    let loc = match ctx.peek() {
        Some(peek) => match peek.kind() {
            TokenKind::OpenDelim(DelimKind::Paren) => *peek.loc(),
            _ => {
                return Ok(base);
            },
        },
        None => {
            return Ok(base);
        },
    };
    ctx.next();
    let args = parse_call_args(ctx)?;
    let n = Node::new(Kind::Call(Box::new(base), args), loc);
    proof {
        let toks = ctx.tokens_spec();
        let p0 = old(ctx).pos_spec();
        let p2 = ctx.pos_spec();
        let ts = toks.subrange(p0, p2);
        let w = p1 - p0;
        lemma_split(toks, p0, p1, p2);
        assert(ts[w] == toks[p1]);
        assert(ts.subrange(w + 1, ts.len() - 1) =~= toks.subrange(p1 + 1, p2).drop_last());
        assert(ts.last() == toks.subrange(p1 + 1, p2).last());
        lemma_args_len(toks.subrange(p1 + 1, p2).drop_last(), args@, args@.len());
    }
    Ok(n)
}

/// The arguments of a call after its opening parenthesis, through the
/// closing one.
fn parse_call_args(ctx: &mut Context) -> (r: Result<Vec<Node>, Error>)
    requires
        old(ctx).wf(),
    ensures
        final(ctx).advanced(*old(ctx), r is Ok),
        r matches Ok(args) ==> {
            let ts = consumed(*old(ctx), *final(ctx));
            &&& ts.len() >= 1
            &&& args_spell(ts.drop_last(), args@, args@.len())
            &&& is_tok(ts.last(), TokenKind::CloseDelim(DelimKind::Paren))
        },
    decreases old(ctx).remaining(), 8nat,
{
    if ctx.skip_close_delim(DelimKind::Paren) {
        assert(consumed(*old(ctx), *ctx).drop_last().len() == 0);
        return Ok(Vec::new());
    }
    let mut args: Vec<Node> = Vec::new();
    loop
        invariant
            ctx.advanced(*old(ctx), false),
            args@.len() == 0 ==> ctx.pos_spec() == old(ctx).pos_spec(),
            args@.len() > 0 ==> {
                &&& ctx.pos_spec() > old(ctx).pos_spec()
                &&& is_tok(ctx.tokens_spec()[ctx.pos_spec() - 1], TokenKind::Punct(PunctKind::Comma))
                &&& args_spell(
                    ctx.tokens_spec().subrange(old(ctx).pos_spec(), ctx.pos_spec() - 1),
                    args@,
                    args@.len(),
                )
            },
        decreases ctx.remaining(),
    {
        let ghost p1 = ctx.pos_spec();
        let ghost prev = args@;
        let arg = parse(ctx)?;
        args.push(arg);
        proof {
            let toks = ctx.tokens_spec();
            if prev.len() == 0 {
                assert(args@[0] == arg);
            } else {
                lemma_args_push(toks, old(ctx).pos_spec(), p1 - 1, ctx.pos_spec(), prev, arg);
            }
        }
        let ghost p2 = ctx.pos_spec();
        if !ctx.skip_punct(PunctKind::Comma) {
            ctx.expect_close_delim(DelimKind::Paren)?;
            assert(consumed(*old(ctx), *ctx).drop_last() =~= ctx.tokens_spec().subrange(
                old(ctx).pos_spec(),
                p2,
            ));
            return Ok(args);
        }
    }
}

/// An integer, an identifier, a function literal, a conditional or a
/// return.
fn parse_primary(ctx: &mut Context) -> (r: Result<Node, Error>)
    requires
        old(ctx).wf(),
    ensures
        final(ctx).advanced(*old(ctx), r is Ok),
        match old(ctx).current() {
            None => r == Err::<Node, Error>(Error::EOF),
            Some(t) => match t.kind_spec() {
                TokenKind::Int(x) => match decimal(x@) {
                    Some(v) if v <= i64::MAX => r == Ok::<Node, Error>(
                        Node { kind: Kind::Int(v as i64), loc: t.loc_spec() },
                    ),
                    _ => r == Err::<Node, Error>(Error::IntTooLarge(t.loc_spec())),
                },
                TokenKind::Ident(i) => if i@ == "func"@ {
                    r matches Ok(n) ==> n.kind is Function
                } else if i@ == "if"@ {
                    r matches Ok(n) ==> n.kind is If
                } else if i@ == "return"@ {
                    r matches Ok(n) ==> n.kind is Return
                } else {
                    r matches Ok(n) && n.kind matches Kind::Ident(name) && name@ == i@
                        && n.loc == t.loc_spec()
                },
                _ => r == Err::<Node, Error>(
                    Error::ExpectedAny(t.loc_spec(), "integer value or identifier"),
                ),
            },
        },
        r matches Ok(n) ==> spells(consumed(*old(ctx), *final(ctx)), n),
    decreases old(ctx).remaining(), 2nat,
{
    let peek = match ctx.peek() {
        Some(t) => *t,
        None => {
            return Err(Error::EOF);
        },
    };
    let ghost p0 = ctx.pos_spec();
    let loc = *peek.loc();
    match peek.kind() {
        TokenKind::Int(digits) => {
            proof {
                lemma_decimal_nonneg(digits@);
            }
            match parse_decimal(digits) {
                Some(v) => {
                    ctx.next();
                    let n = Node::new(Kind::Int(v), loc);
                    assert(consumed(*old(ctx), *ctx)[0] == peek);
                    Ok(n)
                },
                None => Err(Error::IntTooLarge(loc)),
            }
        },
        TokenKind::Ident(ident) => {
            let ident: &str = *ident;
            if str_eq(ident, "func") {
                let f = function::parse(ctx)?;
                let n = Node::new(Kind::Function(Box::new(f)), loc);
                assert(spells(consumed(*old(ctx), *ctx), n));
                Ok(n)
            } else if str_eq(ident, "if") {
                let k = parse_if(ctx)?;
                let n = Node::new(k, loc);
                proof {
                    let ts = consumed(*old(ctx), *ctx);
                    let n0 = Node { kind: k, loc: Location(0) };
                    assert(spells(ts, n0));
                    assert(spells(ts, n) == spells(ts, n0));
                }
                Ok(n)
            } else if str_eq(ident, "return") {
                ctx.next();
                let val = parse(ctx)?;
                let n = Node::new(Kind::Return(Box::new(val)), loc);
                proof {
                    let toks = ctx.tokens_spec();
                    lemma_split(toks, p0, p0 + 1, ctx.pos_spec());
                    assert(consumed(*old(ctx), *ctx)[0] == peek);
                }
                Ok(n)
            } else {
                let ident = ident.to_string();
                ctx.next();
                let n = Node::new(Kind::Ident(ident), loc);
                assert(consumed(*old(ctx), *ctx)[0] == peek);
                Ok(n)
            }
        },
        _ => Err(Error::ExpectedAny(loc, "integer value or identifier")),
    }
}

/// `if cond: then-body` with an optional `else: else-body`.
fn parse_if(ctx: &mut Context) -> (r: Result<Kind, Error>)
    requires
        old(ctx).wf(),
    ensures
        final(ctx).advanced(*old(ctx), r is Ok),
        r matches Ok(k) ==> k is If,
        r matches Ok(k) ==> spells(
            consumed(*old(ctx), *final(ctx)),
            Node { kind: k, loc: Location(0) },
        ),
    decreases old(ctx).remaining(), 1nat,
{
    let ghost p0 = ctx.pos_spec();
    ctx.expect_keyword("if")?;
    let cond = parse(ctx)?;
    let ghost p1 = ctx.pos_spec();
    ctx.expect_punct(PunctKind::Colon)?;
    let loc = ctx.cur_loc()?;
    let then_body = parse_body(ctx)?;
    let ghost p2 = ctx.pos_spec();
    let then_expr = Node::new(Kind::Exprs(then_body), loc);
    proof {
        lemma_body_len(ctx.tokens_spec().subrange(p1 + 1, p2), then_body@);
    }
    let else_expr;
    let ghost p3;
    if ctx.skip_ident("else") {
        ctx.expect_punct(PunctKind::Colon)?;
        let loc = ctx.cur_loc()?;
        let else_body = parse_body(ctx)?;
        proof {
            p3 = ctx.pos_spec();
            lemma_body_len(ctx.tokens_spec().subrange(p2 + 2, p3), else_body@);
        }
        else_expr = Some(Box::new(Node::new(Kind::Exprs(else_body), loc)));
    } else {
        proof {
            p3 = p2;
        }
        else_expr = None;
    }
    let k = Kind::If(Box::new(cond), Box::new(then_expr), else_expr);
    proof {
        let toks = ctx.tokens_spec();
        let ts = toks.subrange(p0, ctx.pos_spec());
        let wc = p1 - (p0 + 1);
        let wt = p2 - (p1 + 1);
        assert(ts[0] == toks[p0]);
        assert(width(cond) == wc);
        assert(width(then_expr) == wt);
        assert(ts.subrange(1, 1 + wc) =~= toks.subrange(p0 + 1, p1));
        assert(ts[1 + wc] == toks[p1]);
        assert(ts.subrange(2 + wc, 2 + wc + wt) =~= toks.subrange(p1 + 1, p2));
        if else_expr is Some {
            assert(width(*else_expr->Some_0) == p3 - (p2 + 2));
            assert(ts[2 + wc + wt] == toks[p2]);
            assert(ts[3 + wc + wt] == toks[p2 + 1]);
            assert(ts.skip(4 + wc + wt) =~= toks.subrange(p2 + 2, p3));
            assert(is_word(ts[2 + wc + wt], "else"@));
            assert(is_tok(ts[3 + wc + wt], TokenKind::Punct(PunctKind::Colon)));
            assert(spells(ts.skip(4 + wc + wt), *else_expr->Some_0));
        }
        assert(is_word(ts[0], "if"@));
        assert(spells(ts.subrange(1, 1 + wc), cond));
        assert(is_tok(ts[1 + wc], TokenKind::Punct(PunctKind::Colon)));
        assert(spells(ts.subrange(2 + wc, 2 + wc + wt), then_expr));
    }
    Ok(k)
}

/// A body: expressions up to `;;`. An empty body is `;;` alone.
pub fn parse_body(ctx: &mut Context) -> (r: Result<Vec<Node>, Error>)
    requires
        old(ctx).wf(),
    ensures
        final(ctx).advanced(*old(ctx), r is Ok),
        r matches Ok(b) ==> body_spell(consumed(*old(ctx), *final(ctx)), b@),
    decreases old(ctx).remaining(), 8nat,
{
    if ctx.skip_punct(PunctKind::DoubleSemicolon) {
        let b: Vec<Node> = Vec::new();
        assert(consumed(*old(ctx), *ctx).take(0) =~= Seq::<crate::lexer::token::Token>::empty());
        return Ok(b);
    }
    let mut body: Vec<Node> = Vec::new();
    assert(ctx.tokens_spec().subrange(old(ctx).pos_spec(), ctx.pos_spec()).len() == 0);
    loop
        invariant
            ctx.advanced(*old(ctx), false),
            list_spell(
                ctx.tokens_spec().subrange(old(ctx).pos_spec(), ctx.pos_spec()),
                body@,
                body@.len(),
            ),
        decreases ctx.remaining(),
    {
        let ghost p1 = ctx.pos_spec();
        let ghost prev = body@;
        let e = parse(ctx)?;
        body.push(e);
        proof {
            lemma_list_push(ctx.tokens_spec(), old(ctx).pos_spec(), p1, ctx.pos_spec(), prev, e);
        }
        let ghost p2 = ctx.pos_spec();
        if ctx.skip_punct(PunctKind::DoubleSemicolon) {
            let ghost ts = consumed(*old(ctx), *ctx);
            assert(ts.take(ts.len() - 1) =~= ctx.tokens_spec().subrange(old(ctx).pos_spec(), p2));
            return Ok(body);
        }
    }
}

} // verus!
