use vstd::prelude::*;
use crate::ast::function::{Node, Param};
use crate::lexer::token::{DelimKind, PunctKind, TokenKind};
use crate::parser::expr;
use crate::parser::spelling::{
    consumed, func_spell, is_tok, lemma_body_len, params_spell, params_width,
};
use crate::parser::{is_word, Context, Error};

verus! {

/// `func name(params): body`.
pub fn parse(ctx: &mut Context) -> (r: Result<Node, Error>)
    requires
        old(ctx).wf(),
    ensures
        final(ctx).advanced(*old(ctx), r is Ok),
        r is Ok ==> (old(ctx).current() matches Some(t) && is_word(t, "func"@)),
        r matches Ok(f) ==> func_spell(consumed(*old(ctx), *final(ctx)), f),
    decreases old(ctx).remaining(), 1nat,
{
    let ghost p0 = ctx.pos_spec();
    ctx.expect_keyword("func")?;
    let name_tok = ctx.expect_any_ident()?;
    let ident = match name_tok.kind().as_ident() {
        Some(i) => i.to_string(),
        None => String::new(),
    };
    ctx.expect_open_delim(DelimKind::Paren)?;
    let params = parse_parameters(ctx)?;
    let ghost p1 = ctx.pos_spec();
    ctx.expect_punct(PunctKind::Colon)?;
    let body = expr::parse_body(ctx)?;
    let f = Node::new(ident, params, body);
    proof {
        let toks = ctx.tokens_spec();
        let p2 = ctx.pos_spec();
        let ts = toks.subrange(p0, p2);
        let pw = params_width(f.params@.len());
        lemma_body_len(toks.subrange(p1 + 1, p2), f.body@);
        assert(toks.subrange(p0 + 3, p1).drop_last() =~= ts.subrange(3, 3 + pw));
        assert(ts[0] == toks[p0]);
        assert(ts[1] == toks[p0 + 1]);
        assert(ts[2] == toks[p0 + 2]);
        assert(ts[3 + pw] == toks[p1 - 1]);
        assert(ts[4 + pw] == toks[p1]);
        assert(ts.skip(5 + pw) =~= toks.subrange(p1 + 1, p2));
    }
    Ok(f)
}

/// Parameter names after the opening parenthesis, through the closing one.
fn parse_parameters(ctx: &mut Context) -> (r: Result<Vec<Param>, Error>)
    requires
        old(ctx).wf(),
    ensures
        final(ctx).advanced(*old(ctx), r is Ok),
        r matches Ok(ps) ==> {
            let ts = consumed(*old(ctx), *final(ctx));
            &&& ts.len() >= 1
            &&& params_spell(ts.drop_last(), ps@)
            &&& is_tok(ts.last(), TokenKind::CloseDelim(DelimKind::Paren))
        },
{
    let ghost start = ctx.pos_spec();
    if ctx.skip_close_delim(DelimKind::Paren) {
        let ps: Vec<Param> = Vec::new();
        assert(consumed(*old(ctx), *ctx).drop_last().len() == 0);
        return Ok(ps);
    }
    let mut params: Vec<Param> = Vec::new();
    loop
        invariant
            ctx.advanced(*old(ctx), false),
            start == old(ctx).pos_spec(),
            ctx.pos_spec() == start + 2 * params@.len(),
            params@.len() > 0 ==> is_tok(
                ctx.tokens_spec()[ctx.pos_spec() - 1],
                TokenKind::Punct(PunctKind::Comma),
            ),
            params@.len() > 0 ==> params_spell(
                ctx.tokens_spec().subrange(start, ctx.pos_spec() - 1),
                params@,
            ),
        decreases ctx.remaining(),
    {
        let ghost k = params@.len() as int;
        let ghost prev = params@;
        let tok = ctx.expect_any_ident()?;
        let name = match tok.kind().as_ident() {
            Some(i) => i.to_string(),
            None => String::new(),
        };
        params.push(Param::new(name));
        proof {
            let toks = ctx.tokens_spec();
            let ts = toks.subrange(start, start + 2 * k + 1);
            assert forall|i: int| 0 <= i < params@.len() implies ((#[trigger] ts[2 * i]).kind_spec() matches TokenKind::Ident(x) && x@
                == params@[i].name@) by {
                if i < k {
                    assert(ts[2 * i] == toks.subrange(start, start + 2 * k - 1)[2 * i]);
                } else {
                    assert(ts[2 * i] == toks[start + 2 * k]);
                }
            }
            assert forall|i: int| 0 < i < params@.len() implies is_tok(#[trigger] ts[2 * i - 1], TokenKind::Punct(PunctKind::Comma)) by {
                if i < k {
                    assert(ts[2 * i - 1] == toks.subrange(start, start + 2 * k - 1)[2 * i - 1]);
                } else {
                    assert(ts[2 * i - 1] == toks[start + 2 * k - 1]);
                }
            }
            assert(params_spell(ts, params@));
        }
        if !ctx.skip_punct(PunctKind::Comma) {
            ctx.expect_close_delim(DelimKind::Paren)?;
            assert(consumed(*old(ctx), *ctx).drop_last() =~= ctx.tokens_spec().subrange(
                start,
                start + 2 * k + 1,
            ));
            return Ok(params);
        }
    }
}

} // verus!
