pub mod expr;
pub mod function;
pub mod spelling;

use vstd::prelude::*;
use vstd::string::*;
use crate::lexer::location::Location;
use crate::lexer::token::{
    lex_all, token_matches, utf8_offset, DelimKind, PunctKind, Token, TokenKind, TokenStream,
};

verus! {

/// Why a token sequence does not parse.
#[derive(Debug, Clone, Copy, PartialEq, Eq)]
pub enum Error {
    ExpectedKeyword(Location, &'static str),
    ExpectedAnyIdent(Location),
    ExpectedOpenDelim(Location, DelimKind),
    ExpectedCloseDelim(Location, DelimKind),
    ExpectedPunct(Location, PunctKind),
    /// A token that starts no expression.
    ExpectedAny(Location, &'static str),
    /// An integer literal that does not fit in 64 bits.
    IntTooLarge(Location),
    EOF,
}

/// The tokens of a source and the position of the next one to read.
pub struct Context<'a> {
    tokens: Vec<Token<'a>>,
    pos: usize,
}

/// Whether `a` and `b` hold the same characters.
pub fn str_eq(a: &str, b: &str) -> (r: bool)
    ensures
        r == (a@ == b@),
{
    let n = a.unicode_len();
    if n != b.unicode_len() {
        return false;
    }
    let mut i: usize = 0;
    while i < n
        invariant
            i <= n == a@.len() == b@.len(),
            a@.take(i as int) == b@.take(i as int),
        decreases n - i,
    {
        if a.get_char(i) != b.get_char(i) {
            assert(a@[i as int] != b@[i as int]);
            return false;
        }
        i = i + 1;
        assert(a@.take(i as int) =~= a@.take(i as int - 1).push(a@[i as int - 1]));
        assert(b@.take(i as int) =~= b@.take(i as int - 1).push(b@[i as int - 1]));
    }
    assert(a@ =~= a@.take(n as int));
    assert(b@ =~= b@.take(n as int));
    true
}

/// `t` is the identifier `kw`.
pub open spec fn is_word<'a>(t: Token<'a>, kw: Seq<char>) -> bool {
    t.kind_spec() matches TokenKind::Ident(i) && i@ == kw
}

impl<'a> Context<'a> {
    pub closed spec fn tokens_spec(&self) -> Seq<Token<'a>> {
        self.tokens@
    }

    pub closed spec fn pos_spec(&self) -> int {
        self.pos as int
    }

    pub closed spec fn wf(&self) -> bool {
        self.pos <= self.tokens@.len()
    }

    /// How many tokens are left to read.
    pub open spec fn remaining(&self) -> int {
        self.tokens_spec().len() - self.pos_spec()
    }

    /// The token at the current position, if any.
    pub open spec fn current(&self) -> Option<Token<'a>> {
        if self.pos_spec() < self.tokens_spec().len() {
            Some(self.tokens_spec()[self.pos_spec()])
        } else {
            None
        }
    }

    /// `self` is `old` with the position moved forward by `n` tokens.
    pub open spec fn moved(&self, old: Context<'a>, n: int) -> bool {
        &&& self.wf()
        &&& self.tokens_spec() == old.tokens_spec()
        &&& self.pos_spec() == old.pos_spec() + n
    }

    /// `self` is `old` with the position moved forward (by at least one token
    /// where `progress`).
    pub open spec fn advanced(&self, old: Context<'a>, progress: bool) -> bool {
        &&& self.wf()
        &&& self.tokens_spec() == old.tokens_spec()
        &&& old.pos_spec() <= self.pos_spec()
        &&& progress ==> old.pos_spec() < self.pos_spec()
    }

    /// A context over all the tokens of `tokens`, at the first.
    pub fn new(tokens: TokenStream<'a>) -> (r: Self)
        requires
            tokens.wf(),
        ensures
            r.wf(),
            r.pos_spec() == 0,
            ({
                let s = tokens.text_spec();
                let all = lex_all(s, tokens.pos_spec());
                &&& r.tokens_spec().len() == all.len()
                &&& forall|k: int|
                    0 <= k < all.len() ==> token_matches(
                        #[trigger] r.tokens_spec()[k],
                        all[k].0,
                        s.subrange(all[k].1, all[k].2),
                        utf8_offset(s, all[k].1),
                    )
            }),
    {
        Context { tokens: tokens.collect_tokens(), pos: 0 }
    }

    pub fn peek(&self) -> (r: Option<&Token<'a>>)
        requires
            self.wf(),
        ensures
            match self.current() {
                Some(t) => r == Some(&t),
                None => r.is_none(),
            },
    {
        if self.pos < self.tokens.len() {
            Some(&self.tokens[self.pos])
        } else {
            None
        }
    }

    pub fn next(&mut self) -> (r: Option<Token<'a>>)
        requires
            old(self).wf(),
        ensures
            r == old(self).current(),
            final(self).moved(*old(self), if r is Some { 1 } else { 0 }),
    {
        if self.pos < self.tokens.len() {
            let t = self.tokens[self.pos];
            self.pos = self.pos + 1;
            Some(t)
        } else {
            None
        }
    }

    /// The location of the current token.
    pub fn cur_loc(&self) -> (r: Result<Location, Error>)
        requires
            self.wf(),
        ensures
            match self.current() {
                Some(t) => r == Ok::<Location, Error>(t.loc_spec()),
                None => r == Err::<Location, Error>(Error::EOF),
            },
    {
        match self.peek() {
            Some(t) => Ok(*t.loc()),
            None => Err(Error::EOF),
        }
    }

    /// Consumes the current token if it is the punctuation `p`.
    pub fn skip_punct(&mut self, p: PunctKind) -> (r: bool)
        requires
            old(self).wf(),
        ensures
            r == (old(self).current() matches Some(t) && t.kind_spec() == TokenKind::Punct(p)),
            final(self).moved(*old(self), if r { 1 } else { 0 }),
    {
        if self.pos < self.tokens.len() {
            let t = self.tokens[self.pos];
            match t.kind() {
                TokenKind::Punct(q) => {
                    if *q == p {
                        self.pos = self.pos + 1;
                        true
                    } else {
                        false
                    }
                },
                _ => false,
            }
        } else {
            false
        }
    }

    /// Consumes the current token if it closes the delimiter `d`.
    pub fn skip_close_delim(&mut self, d: DelimKind) -> (r: bool)
        requires
            old(self).wf(),
        ensures
            r == (old(self).current() matches Some(t) && t.kind_spec() == TokenKind::CloseDelim(d)),
            final(self).moved(*old(self), if r { 1 } else { 0 }),
    {
        if self.pos < self.tokens.len() {
            let t = self.tokens[self.pos];
            match t.kind() {
                TokenKind::CloseDelim(e) => {
                    if *e == d {
                        self.pos = self.pos + 1;
                        true
                    } else {
                        false
                    }
                },
                _ => false,
            }
        } else {
            false
        }
    }

    /// Consumes the current token if it is the identifier `ident`.
    pub fn skip_ident(&mut self, ident: &str) -> (r: bool)
        requires
            old(self).wf(),
        ensures
            r == (old(self).current() matches Some(t) && is_word(t, ident@)),
            final(self).moved(*old(self), if r { 1 } else { 0 }),
    {
        if self.pos < self.tokens.len() {
            let t = self.tokens[self.pos];
            match t.kind() {
                TokenKind::Ident(i) => {
                    if str_eq(i, ident) {
                        self.pos = self.pos + 1;
                        true
                    } else {
                        false
                    }
                },
                _ => false,
            }
        } else {
            false
        }
    }

    /// Consumes the identifier `kwd`, or says what stands instead.
    pub fn expect_keyword(&mut self, kwd: &'static str) -> (r: Result<Token<'a>, Error>)
        requires
            old(self).wf(),
        ensures
            match old(self).current() {
                None => r == Err::<Token<'a>, Error>(Error::EOF) && *final(self) == *old(self),
                Some(t) => if is_word(t, kwd@) {
                    r == Ok::<Token<'a>, Error>(t) && final(self).moved(*old(self), 1)
                } else {
                    r == Err::<Token<'a>, Error>(Error::ExpectedKeyword(t.loc_spec(), kwd))
                        && *final(self) == *old(self)
                },
            },
    {
        if self.pos < self.tokens.len() {
            let tok = self.tokens[self.pos];
            match tok.kind() {
                TokenKind::Ident(i) => {
                    if str_eq(i, kwd) {
                        self.pos = self.pos + 1;
                        return Ok(tok);
                    }
                },
                _ => {},
            }
            Err(Error::ExpectedKeyword(*tok.loc(), kwd))
        } else {
            Err(Error::EOF)
        }
    }

    /// Consumes an identifier, or says what stands instead.
    pub fn expect_any_ident(&mut self) -> (r: Result<Token<'a>, Error>)
        requires
            old(self).wf(),
        ensures
            match old(self).current() {
                None => r == Err::<Token<'a>, Error>(Error::EOF) && *final(self) == *old(self),
                Some(t) => if t.kind_spec() is Ident {
                    r == Ok::<Token<'a>, Error>(t) && final(self).moved(*old(self), 1)
                } else {
                    r == Err::<Token<'a>, Error>(Error::ExpectedAnyIdent(t.loc_spec()))
                        && *final(self) == *old(self)
                },
            },
    {
        if self.pos < self.tokens.len() {
            let tok = self.tokens[self.pos];
            match tok.kind() {
                TokenKind::Ident(_) => {
                    self.pos = self.pos + 1;
                    Ok(tok)
                },
                _ => Err(Error::ExpectedAnyIdent(*tok.loc())),
            }
        } else {
            Err(Error::EOF)
        }
    }

    /// Consumes the opening delimiter `delim`, or says what stands instead.
    pub fn expect_open_delim(&mut self, delim: DelimKind) -> (r: Result<Token<'a>, Error>)
        requires
            old(self).wf(),
        ensures
            match old(self).current() {
                None => r == Err::<Token<'a>, Error>(Error::EOF) && *final(self) == *old(self),
                Some(t) => if t.kind_spec() == TokenKind::OpenDelim(delim) {
                    r == Ok::<Token<'a>, Error>(t) && final(self).moved(*old(self), 1)
                } else {
                    r == Err::<Token<'a>, Error>(Error::ExpectedOpenDelim(t.loc_spec(), delim))
                        && *final(self) == *old(self)
                },
            },
    {
        if self.pos < self.tokens.len() {
            let tok = self.tokens[self.pos];
            match tok.kind() {
                TokenKind::OpenDelim(d) => {
                    if *d == delim {
                        self.pos = self.pos + 1;
                        Ok(tok)
                    } else {
                        Err(Error::ExpectedOpenDelim(*tok.loc(), delim))
                    }
                },
                _ => Err(Error::ExpectedOpenDelim(*tok.loc(), delim)),
            }
        } else {
            Err(Error::EOF)
        }
    }

    /// Consumes the closing delimiter `delim`, or says what stands instead.
    pub fn expect_close_delim(&mut self, delim: DelimKind) -> (r: Result<Token<'a>, Error>)
        requires
            old(self).wf(),
        ensures
            match old(self).current() {
                None => r == Err::<Token<'a>, Error>(Error::EOF) && *final(self) == *old(self),
                Some(t) => if t.kind_spec() == TokenKind::CloseDelim(delim) {
                    r == Ok::<Token<'a>, Error>(t) && final(self).moved(*old(self), 1)
                } else {
                    r == Err::<Token<'a>, Error>(Error::ExpectedCloseDelim(t.loc_spec(), delim))
                        && *final(self) == *old(self)
                },
            },
    {
        if self.pos < self.tokens.len() {
            let tok = self.tokens[self.pos];
            match tok.kind() {
                TokenKind::CloseDelim(d) => {
                    if *d == delim {
                        self.pos = self.pos + 1;
                        Ok(tok)
                    } else {
                        Err(Error::ExpectedCloseDelim(*tok.loc(), delim))
                    }
                },
                _ => Err(Error::ExpectedCloseDelim(*tok.loc(), delim)),
            }
        } else {
            Err(Error::EOF)
        }
    }

    /// Consumes the punctuation `punct`, or says what stands instead.
    pub fn expect_punct(&mut self, punct: PunctKind) -> (r: Result<Token<'a>, Error>)
        requires
            old(self).wf(),
        ensures
            match old(self).current() {
                None => r == Err::<Token<'a>, Error>(Error::EOF) && *final(self) == *old(self),
                Some(t) => if t.kind_spec() == TokenKind::Punct(punct) {
                    r == Ok::<Token<'a>, Error>(t) && final(self).moved(*old(self), 1)
                } else {
                    r == Err::<Token<'a>, Error>(Error::ExpectedPunct(t.loc_spec(), punct))
                        && *final(self) == *old(self)
                },
            },
    {
        if self.pos < self.tokens.len() {
            let tok = self.tokens[self.pos];
            match tok.kind() {
                TokenKind::Punct(p) => {
                    if *p == punct {
                        self.pos = self.pos + 1;
                        Ok(tok)
                    } else {
                        Err(Error::ExpectedPunct(*tok.loc(), punct))
                    }
                },
                _ => Err(Error::ExpectedPunct(*tok.loc(), punct)),
            }
        } else {
            Err(Error::EOF)
        }
    }
}

} // verus!
