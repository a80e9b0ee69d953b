use vstd::prelude::*;
use crate::ast::expr::{punct_op, Kind, Node};
use crate::ast::function;
use crate::lexer::token::{DelimKind, PunctKind, Token, TokenKind};
use crate::parser::expr::decimal;
use crate::parser::{is_word, Context};

verus! {

/// How many tokens spell `n`.
pub open spec fn width(n: Node) -> int
    decreases n, 0nat,
{
    match n.kind {
        Kind::Int(_) => 1,
        Kind::Ident(_) => 1,
        Kind::Function(f) => 6 + params_width(f.params@.len()) + list_width(f.body@, f.body@.len()),
        Kind::BinOp(_, l, r) => width(*l) + 1 + width(*r),
        Kind::Call(c, args) => width(*c) + 2 + args_width(args@, args@.len()),
        Kind::If(c, t, None) => 2 + width(*c) + width(*t),
        Kind::If(c, t, Some(f)) => 4 + width(*c) + width(*t) + width(*f),
        Kind::Return(v) => 1 + width(*v),
        Kind::Exprs(es) => list_width(es@, es@.len()) + 1,
    }
}

/// How many tokens spell the first `n` expressions of `es`, one after another.
pub open spec fn list_width(es: Seq<Node>, n: nat) -> int
    decreases es, n,
{
    if n == 0 || n > es.len() {
        0
    } else {
        list_width(es, (n - 1) as nat) + width(es[n - 1])
    }
}

/// How many tokens spell the first `n` of `es` separated by commas.
pub open spec fn args_width(es: Seq<Node>, n: nat) -> int
    decreases es, n,
{
    if n == 0 || n > es.len() {
        0
    } else if n == 1 {
        width(es[0])
    } else {
        args_width(es, (n - 1) as nat) + 1 + width(es[n - 1])
    }
}

/// How many tokens spell `k` parameter names separated by commas.
pub open spec fn params_width(k: nat) -> int {
    if k == 0 {
        0
    } else {
        2 * k - 1
    }
}

pub open spec fn is_tok<'a>(t: Token<'a>, k: TokenKind<'a>) -> bool {
    t.kind_spec() == k
}

/// The tokens `ts` spell the expression `n`, as the parser reads it.
pub open spec fn spells<'a>(ts: Seq<Token<'a>>, n: Node) -> bool
    decreases n, 0nat,
{
    &&& ts.len() == width(n)
    &&& match n.kind {
        Kind::Int(v) => ts[0].kind_spec() matches TokenKind::Int(x) && decimal(x@) == Some(v as int),
        Kind::Ident(name) => ts[0].kind_spec() matches TokenKind::Ident(x) && x@ == name@,
        Kind::BinOp(op, l, r) => {
            let w = width(*l);
            &&& spells(ts.take(w), *l)
            &&& ts[w].kind_spec() matches TokenKind::Punct(p) && punct_op(p) == Some(op)
            &&& spells(ts.skip(w + 1), *r)
        },
        Kind::Call(c, args) => {
            let w = width(*c);
            &&& spells(ts.take(w), *c)
            &&& is_tok(ts[w], TokenKind::OpenDelim(DelimKind::Paren))
            &&& args_spell(ts.subrange(w + 1, ts.len() - 1), args@, args@.len())
            &&& is_tok(ts.last(), TokenKind::CloseDelim(DelimKind::Paren))
        },
        Kind::Return(v) => is_word(ts[0], "return"@) && spells(ts.skip(1), *v),
        Kind::If(c, t, e) => {
            let wc = width(*c);
            let wt = width(*t);
            &&& is_word(ts[0], "if"@)
            &&& spells(ts.subrange(1, 1 + wc), *c)
            &&& is_tok(ts[1 + wc], TokenKind::Punct(PunctKind::Colon))
            &&& spells(ts.subrange(2 + wc, 2 + wc + wt), *t)
            &&& match e {
                None => true,
                Some(f) => {
                    &&& is_word(ts[2 + wc + wt], "else"@)
                    &&& is_tok(ts[3 + wc + wt], TokenKind::Punct(PunctKind::Colon))
                    &&& spells(ts.skip(4 + wc + wt), *f)
                },
            }
        },
        Kind::Exprs(es) => body_spell(ts, es@),
        Kind::Function(f) => func_spell(ts, *f),
    }
}

/// A function literal: `func`, its name, `(`, its parameters, `)`, `:` and
/// its body.
pub open spec fn func_spell<'a>(ts: Seq<Token<'a>>, f: function::Node) -> bool
    decreases f, 0nat,
{
    let pw = params_width(f.params@.len());
    &&& ts.len() == 6 + pw + list_width(f.body@, f.body@.len())
    &&& is_word(ts[0], "func"@)
    &&& (ts[1].kind_spec() matches TokenKind::Ident(x) && x@ == f.name@)
    &&& is_tok(ts[2], TokenKind::OpenDelim(DelimKind::Paren))
    &&& params_spell(ts.subrange(3, 3 + pw), f.params@)
    &&& is_tok(ts[3 + pw], TokenKind::CloseDelim(DelimKind::Paren))
    &&& is_tok(ts[4 + pw], TokenKind::Punct(PunctKind::Colon))
    &&& body_spell(ts.skip(5 + pw), f.body@)
}

/// A body: its expressions one after another, then `;;`.
pub open spec fn body_spell<'a>(ts: Seq<Token<'a>>, es: Seq<Node>) -> bool
    decreases es, es.len() + 1,
{
    &&& ts.len() >= 1
    &&& list_spell(ts.take(ts.len() - 1), es, es.len())
    &&& is_tok(ts.last(), TokenKind::Punct(PunctKind::DoubleSemicolon))
}

/// The tokens `ts` spell the first `n` expressions of `es`, one after another.
pub open spec fn list_spell<'a>(ts: Seq<Token<'a>>, es: Seq<Node>, n: nat) -> bool
    decreases es, n,
{
    if n > es.len() {
        false
    } else if n == 0 {
        ts.len() == 0
    } else {
        let w = list_width(es, (n - 1) as nat);
        0 <= w <= ts.len() && list_spell(ts.take(w), es, (n - 1) as nat) && spells(ts.skip(w), es[n - 1])
    }
}

/// The tokens `ts` spell the first `n` of `es` separated by commas.
pub open spec fn args_spell<'a>(ts: Seq<Token<'a>>, es: Seq<Node>, n: nat) -> bool
    decreases es, n,
{
    if n > es.len() {
        false
    } else if n == 0 {
        ts.len() == 0
    } else if n == 1 {
        spells(ts, es[0])
    } else {
        let w = args_width(es, (n - 1) as nat);
        &&& 0 <= w < ts.len()
        &&& args_spell(ts.take(w), es, (n - 1) as nat)
        &&& is_tok(ts[w], TokenKind::Punct(PunctKind::Comma))
        &&& spells(ts.skip(w + 1), es[n - 1])
    }
}

/// The tokens `ts` spell the parameter names `ps` separated by commas.
pub open spec fn params_spell<'a>(ts: Seq<Token<'a>>, ps: Seq<function::Param>) -> bool {
    &&& ts.len() == params_width(ps.len())
    &&& forall|i: int|
        0 <= i < ps.len() ==> ((#[trigger] ts[2 * i]).kind_spec() matches TokenKind::Ident(x) && x@
            == ps[i].name@)
    &&& forall|i: int| 0 < i < ps.len() ==> is_tok(#[trigger] ts[2 * i - 1], TokenKind::Punct(PunctKind::Comma))
}

/// The tokens read between the positions of `old` and `new`.
pub open spec fn consumed<'a>(old: Context<'a>, new: Context<'a>) -> Seq<Token<'a>> {
    new.tokens_spec().subrange(old.pos_spec(), new.pos_spec())
}

pub proof fn lemma_split<'a>(toks: Seq<Token<'a>>, p0: int, p1: int, p2: int)
    requires
        0 <= p0 <= p1 <= p2 <= toks.len(),
    ensures
        toks.subrange(p0, p2).take(p1 - p0) == toks.subrange(p0, p1),
        toks.subrange(p0, p2).skip(p1 - p0) == toks.subrange(p1, p2),
{
    assert(toks.subrange(p0, p2).take(p1 - p0) =~= toks.subrange(p0, p1));
    assert(toks.subrange(p0, p2).skip(p1 - p0) =~= toks.subrange(p1, p2));
}

pub proof fn lemma_args_ext<'a>(ts: Seq<Token<'a>>, a: Seq<Node>, b: Seq<Node>, n: nat)
    requires
        n <= a.len(),
        n <= b.len(),
        forall|k: int| 0 <= k < n ==> a[k] == b[k],
    ensures
        args_spell(ts, a, n) == args_spell(ts, b, n),
        args_width(a, n) == args_width(b, n),
    decreases n,
{
    if n > 1 {
        lemma_args_ext(ts.take(args_width(a, (n - 1) as nat)), a, b, (n - 1) as nat);
    }
}

pub proof fn lemma_list_ext<'a>(ts: Seq<Token<'a>>, a: Seq<Node>, b: Seq<Node>, n: nat)
    requires
        n <= a.len(),
        n <= b.len(),
        forall|k: int| 0 <= k < n ==> a[k] == b[k],
    ensures
        list_spell(ts, a, n) == list_spell(ts, b, n),
        list_width(a, n) == list_width(b, n),
    decreases n,
{
    if n > 0 {
        lemma_list_ext(ts.take(list_width(a, (n - 1) as nat)), a, b, (n - 1) as nat);
    }
}

pub proof fn lemma_args_len<'a>(ts: Seq<Token<'a>>, es: Seq<Node>, n: nat)
    requires
        args_spell(ts, es, n),
    ensures
        ts.len() == args_width(es, n),
    decreases n,
{
    if n == 1 {
        assert(spells(ts, es[0]));
    } else if n > 1 {
        let w = args_width(es, (n - 1) as nat);
        lemma_args_len(ts.take(w), es, (n - 1) as nat);
        assert(spells(ts.skip(w + 1), es[n - 1]));
        assert(ts.skip(w + 1).len() == width(es[n - 1]));
    }
}

pub proof fn lemma_list_len<'a>(ts: Seq<Token<'a>>, es: Seq<Node>, n: nat)
    requires
        list_spell(ts, es, n),
    ensures
        ts.len() == list_width(es, n),
    decreases n,
{
    if n > 0 {
        let w = list_width(es, (n - 1) as nat);
        lemma_list_len(ts.take(w), es, (n - 1) as nat);
        assert(spells(ts.skip(w), es[n - 1]));
        assert(ts.skip(w).len() == width(es[n - 1]));
    }
}

/// Appending one more spelled item to a spelled list.
pub proof fn lemma_list_push<'a>(
    toks: Seq<Token<'a>>,
    start: int,
    pos: int,
    end: int,
    es: Seq<Node>,
    e: Node,
)
    requires
        0 <= start <= pos <= end <= toks.len(),
        list_spell(toks.subrange(start, pos), es, es.len()),
        spells(toks.subrange(pos, end), e),
    ensures
        list_spell(toks.subrange(start, end), es.push(e), es.len() + 1),
{
    let ne = es.push(e);
    let n = es.len();
    lemma_list_ext(toks.subrange(start, pos), es, ne, n);
    lemma_list_len(toks.subrange(start, pos), es, n);
    lemma_split(toks, start, pos, end);
    assert(ne[n as int] == e);
}

/// Appending one more spelled argument, after a comma, to a spelled list.
pub proof fn lemma_args_push<'a>(
    toks: Seq<Token<'a>>,
    start: int,
    cpos: int,
    end: int,
    es: Seq<Node>,
    e: Node,
)
    requires
        0 <= start <= cpos < end <= toks.len(),
        es.len() > 0,
        args_spell(toks.subrange(start, cpos), es, es.len()),
        is_tok(toks[cpos], TokenKind::Punct(PunctKind::Comma)),
        spells(toks.subrange(cpos + 1, end), e),
    ensures
        args_spell(toks.subrange(start, end), es.push(e), es.len() + 1),
{
    let ne = es.push(e);
    let n = es.len();
    lemma_args_ext(toks.subrange(start, cpos), es, ne, n);
    lemma_args_len(toks.subrange(start, cpos), es, n);
    lemma_split(toks, start, cpos, end);
    lemma_split(toks, cpos, cpos + 1, end);
    assert(toks.subrange(start, end).skip(cpos - start + 1) =~= toks.subrange(cpos + 1, end));
    assert(toks.subrange(start, end)[cpos - start] == toks[cpos]);
    assert(ne[n as int] == e);
}

/// Joining the spellings of two operands around an operator token.
pub proof fn lemma_spells_binop<'a>(toks: Seq<Token<'a>>, p0: int, opos: int, p2: int, n: Node)
    requires
        n.kind is BinOp,
        0 <= p0 <= opos < p2 <= toks.len(),
        spells(toks.subrange(p0, opos), *n.kind->BinOp_1),
        toks[opos].kind_spec() matches TokenKind::Punct(p) && punct_op(p) == Some(n.kind->BinOp_0),
        spells(toks.subrange(opos + 1, p2), *n.kind->BinOp_2),
    ensures
        spells(toks.subrange(p0, p2), n),
{
    lemma_split(toks, p0, opos, p2);
    let ts = toks.subrange(p0, p2);
    assert(ts.skip(opos - p0 + 1) =~= toks.subrange(opos + 1, p2));
    assert(ts[opos - p0] == toks[opos]);
}

/// A body's spelling is as long as its width.
pub proof fn lemma_body_len<'a>(ts: Seq<Token<'a>>, es: Seq<Node>)
    requires
        body_spell(ts, es),
    ensures
        ts.len() == list_width(es, es.len()) + 1,
{
    lemma_list_len(ts.take(ts.len() - 1), es, es.len());
}

} // verus!
