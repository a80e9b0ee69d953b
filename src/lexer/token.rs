use vstd::prelude::*;
use vstd::string::*;
use crate::lexer::location::Location;
use crate::lexer::source::Source;

verus! {

#[derive(Debug, Clone, Copy, PartialEq)]
pub struct Token<'a> {
    kind: TokenKind<'a>,
    loc: Location,
}

#[derive(Debug, Clone, Copy, PartialEq)]
pub enum TokenKind<'a> {
    Int(&'a str),
    Ident(&'a str),
    OpenDelim(DelimKind),
    CloseDelim(DelimKind),
    Punct(PunctKind),
}

#[derive(Debug, Clone, Copy, PartialEq, Eq, Structural)]
pub enum DelimKind {
    Paren,
    Bracket,
    Brace,
}

#[derive(Debug, Clone, Copy, PartialEq, Eq, Structural)]
pub enum PunctKind {
    Plus,
    Minus,
    Star,
    Slash,
    Eq,
    Colon,
    DoubleSemicolon,
    Comma,
}

/// The class of a lexeme, without its text.
#[derive(Debug, Clone, Copy, PartialEq, Eq, Structural)]
pub enum Lexeme {
    Int,
    Ident,
    OpenDelim(DelimKind),
    CloseDelim(DelimKind),
    Punct(PunctKind),
}

impl<'a> Token<'a> {
    pub closed spec fn kind_spec(&self) -> TokenKind<'a> {
        self.kind
    }

    pub closed spec fn loc_spec(&self) -> Location {
        self.loc
    }

    pub fn new(kind: TokenKind<'a>, loc: Location) -> (r: Self)
        ensures
            r.kind_spec() == kind,
            r.loc_spec() == loc,
    {
        Self { kind, loc }
    }

    pub fn kind(&self) -> (r: &TokenKind<'a>)
        ensures
            *r == self.kind_spec(),
    {
        &self.kind
    }

    pub fn loc(&self) -> (r: &Location)
        ensures
            *r == self.loc_spec(),
    {
        &self.loc
    }
}

/// The kind of the one-character delimiter or punctuation `c`, if it is one.
pub open spec fn single_kind<'a>(c: char) -> Option<TokenKind<'a>> {
    match c {
        ':' => Some(TokenKind::Punct(PunctKind::Colon)),
        ',' => Some(TokenKind::Punct(PunctKind::Comma)),
        '(' => Some(TokenKind::OpenDelim(DelimKind::Paren)),
        ')' => Some(TokenKind::CloseDelim(DelimKind::Paren)),
        '{' => Some(TokenKind::OpenDelim(DelimKind::Brace)),
        '}' => Some(TokenKind::CloseDelim(DelimKind::Brace)),
        '[' => Some(TokenKind::OpenDelim(DelimKind::Bracket)),
        ']' => Some(TokenKind::CloseDelim(DelimKind::Bracket)),
        '+' => Some(TokenKind::Punct(PunctKind::Plus)),
        '-' => Some(TokenKind::Punct(PunctKind::Minus)),
        '*' => Some(TokenKind::Punct(PunctKind::Star)),
        '/' => Some(TokenKind::Punct(PunctKind::Slash)),
        _ => None,
    }
}

/// The punctuation or delimiter token that the text `t` spells, if any.
pub open spec fn symbol_kind<'a>(t: Seq<char>) -> Option<TokenKind<'a>> {
    if t.len() == 1 {
        single_kind(t[0])
    } else if t.len() == 2 && t[0] == ';' && t[1] == ';' {
        Some(TokenKind::Punct(PunctKind::DoubleSemicolon))
    } else if t.len() == 2 && t[0] == '=' && t[1] == '=' {
        Some(TokenKind::Punct(PunctKind::Eq))
    } else {
        None
    }
}

impl<'a> TokenKind<'a> {
    pub fn as_ident(&self) -> (r: Option<&'a str>)
        ensures
            match self {
                TokenKind::Ident(i) => r == Some(*i),
                _ => r.is_none(),
            },
    {
        match self {
            TokenKind::Ident(i) => Some(*i),
            _ => None,
        }
    }

    /// The punctuation or delimiter token spelled by `s`.
    pub fn from_str(s: &str) -> (r: Option<Self>)
        ensures
            r == symbol_kind::<'a>(s@),
    {
        let n = s.unicode_len();
        if n == 1 {
            single(s.get_char(0))
        } else if n == 2 {
            let c0 = s.get_char(0);
            let c1 = s.get_char(1);
            if c0 == ';' && c1 == ';' {
                Some(TokenKind::Punct(PunctKind::DoubleSemicolon))
            } else if c0 == '=' && c1 == '=' {
                Some(TokenKind::Punct(PunctKind::Eq))
            } else {
                None
            }
        } else {
            None
        }
    }
}

/// The one-character delimiter or punctuation `c`.
fn single<'a>(c: char) -> (r: Option<TokenKind<'a>>)
    ensures
        r == single_kind::<'a>(c),
{
    match c {
        ':' => Some(TokenKind::Punct(PunctKind::Colon)),
        ',' => Some(TokenKind::Punct(PunctKind::Comma)),
        '(' => Some(TokenKind::OpenDelim(DelimKind::Paren)),
        ')' => Some(TokenKind::CloseDelim(DelimKind::Paren)),
        '{' => Some(TokenKind::OpenDelim(DelimKind::Brace)),
        '}' => Some(TokenKind::CloseDelim(DelimKind::Brace)),
        '[' => Some(TokenKind::OpenDelim(DelimKind::Bracket)),
        ']' => Some(TokenKind::CloseDelim(DelimKind::Bracket)),
        '+' => Some(TokenKind::Punct(PunctKind::Plus)),
        '-' => Some(TokenKind::Punct(PunctKind::Minus)),
        '*' => Some(TokenKind::Punct(PunctKind::Star)),
        '/' => Some(TokenKind::Punct(PunctKind::Slash)),
        _ => None,
    }
}

} // verus!

verus! {

/// What `char::is_alphanumeric` answers for `c`.
pub uninterp spec fn alphanumeric(c: char) -> bool;

/// Relies on `char::is_alphanumeric`: whether `c` is alphabetic or numeric in
/// Unicode's sense, which depends on `c` alone.
#[verifier::external_body]
fn is_alphanumeric(c: char) -> (r: bool)
    ensures
        r == alphanumeric(c),
{
    c.is_alphanumeric()
}

/// Whitespace between tokens: space, tab, carriage return, line feed.
pub open spec fn is_space(c: char) -> bool {
    c == ' ' || c == '\t' || c == '\n' || c == '\r'
}

pub open spec fn is_digit(c: char) -> bool {
    '0' <= c && c <= '9'
}

pub open spec fn is_ident_char(c: char) -> bool {
    c == '_' || alphanumeric(c)
}

/// The first position at or after `i` that holds a line feed, or the length
/// of `s` when there is none.
pub open spec fn find_newline(s: Seq<char>, i: int) -> int
    decreases s.len() - i,
{
    if 0 <= i < s.len() && s[i] != '\n' {
        find_newline(s, i + 1)
    } else {
        i
    }
}

/// A line comment starts at `i`: `//` and a line feed somewhere after it.
pub open spec fn comment_at(s: Seq<char>, i: int) -> bool {
    &&& 0 <= i
    &&& i + 1 < s.len()
    &&& s[i] == '/'
    &&& s[i + 1] == '/'
    &&& find_newline(s, i + 2) < s.len()
}

pub proof fn lemma_find_newline_bounds(s: Seq<char>, i: int)
    requires
        0 <= i,
    ensures
        i <= find_newline(s, i),
        i <= s.len() ==> find_newline(s, i) <= s.len(),
        find_newline(s, i) < s.len() ==> s[find_newline(s, i)] == '\n',
    decreases s.len() - i,
{
    if 0 <= i < s.len() && s[i] != '\n' {
        lemma_find_newline_bounds(s, i + 1);
    }
}

/// The position after the whitespace and complete line comments that start
/// at `i`.
pub open spec fn skip_trivia(s: Seq<char>, i: int) -> int
    decreases s.len() - i,
    via skip_trivia_decreases
{
    if 0 <= i < s.len() && is_space(s[i]) {
        skip_trivia(s, i + 1)
    } else if comment_at(s, i) {
        skip_trivia(s, find_newline(s, i + 2) + 1)
    } else {
        i
    }
}

#[via_fn]
proof fn skip_trivia_decreases(s: Seq<char>, i: int) {
    if !(0 <= i < s.len() && is_space(s[i])) && comment_at(s, i) {
        lemma_find_newline_bounds(s, i + 2);
    }
}

pub proof fn lemma_skip_trivia_bounds(s: Seq<char>, i: int)
    requires
        0 <= i <= s.len(),
    ensures
        i <= skip_trivia(s, i) <= s.len(),
    decreases s.len() - i,
{
    if 0 <= i < s.len() && is_space(s[i]) {
        lemma_skip_trivia_bounds(s, i + 1);
    } else if comment_at(s, i) {
        lemma_find_newline_bounds(s, i + 2);
        lemma_skip_trivia_bounds(s, find_newline(s, i + 2) + 1);
    }
}

/// The end of the run of ASCII digits that starts at `i`.
pub open spec fn digits_end(s: Seq<char>, i: int) -> int
    decreases s.len() - i,
{
    if 0 <= i < s.len() && is_digit(s[i]) {
        digits_end(s, i + 1)
    } else {
        i
    }
}

/// The end of the run of identifier characters that starts at `i`.
pub open spec fn ident_end(s: Seq<char>, i: int) -> int
    decreases s.len() - i,
{
    if 0 <= i < s.len() && is_ident_char(s[i]) {
        ident_end(s, i + 1)
    } else {
        i
    }
}

pub proof fn lemma_run_ends(s: Seq<char>, i: int)
    requires
        0 <= i <= s.len(),
    ensures
        i <= digits_end(s, i) <= s.len(),
        i <= ident_end(s, i) <= s.len(),
    decreases s.len() - i,
{
    if i < s.len() {
        lemma_run_ends(s, i + 1);
    }
}

/// The class of a token kind.
pub open spec fn lexeme_of<'a>(k: TokenKind<'a>) -> Lexeme {
    match k {
        TokenKind::Int(_) => Lexeme::Int,
        TokenKind::Ident(_) => Lexeme::Ident,
        TokenKind::OpenDelim(d) => Lexeme::OpenDelim(d),
        TokenKind::CloseDelim(d) => Lexeme::CloseDelim(d),
        TokenKind::Punct(p) => Lexeme::Punct(p),
    }
}

/// The lexeme that starts at `j` and where it ends. Tried in order: a run of
/// ASCII digits, a delimiter, a punctuation mark (`;;` and `==` take two
/// characters), a run of identifier characters.
pub open spec fn lex_at(s: Seq<char>, j: int) -> Option<(Lexeme, int)> {
    if !(0 <= j < s.len()) {
        None
    } else if is_digit(s[j]) {
        Some((Lexeme::Int, digits_end(s, j)))
    } else if single_kind(s[j]) is Some {
        Some((lexeme_of(single_kind(s[j])->Some_0), j + 1))
    } else if s[j] == ';' && j + 1 < s.len() && s[j + 1] == ';' {
        Some((Lexeme::Punct(PunctKind::DoubleSemicolon), j + 2))
    } else if s[j] == '=' && j + 1 < s.len() && s[j + 1] == '=' {
        Some((Lexeme::Punct(PunctKind::Eq), j + 2))
    } else if is_ident_char(s[j]) {
        Some((Lexeme::Ident, ident_end(s, j)))
    } else {
        None
    }
}

pub proof fn lemma_lex_at_bounds(s: Seq<char>, j: int)
    requires
        lex_at(s, j) is Some,
    ensures
        j < lex_at(s, j)->Some_0.1 <= s.len(),
{
    lemma_run_ends(s, j + 1);
}

/// The bytes that `c` takes in UTF-8.
pub open spec fn utf8_len(c: char) -> int {
    if (c as u32) < 0x80 {
        1
    } else if (c as u32) < 0x800 {
        2
    } else if (c as u32) < 0x10000 {
        3
    } else {
        4
    }
}

/// The byte offset in UTF-8 of the character at position `i`.
pub open spec fn utf8_offset(s: Seq<char>, i: int) -> int
    decreases i,
{
    if i <= 0 || i > s.len() {
        0
    } else {
        utf8_offset(s, i - 1) + utf8_len(s[i - 1])
    }
}

pub proof fn lemma_utf8_offset_bound(s: Seq<char>, i: int)
    ensures
        0 <= utf8_offset(s, i) <= 4 * i || i <= 0,
    decreases i,
{
    if i > 0 && i <= s.len() {
        lemma_utf8_offset_bound(s, i - 1);
    }
}

/// `t` is the token of class `l` with text `text` at byte offset `loc`
/// (truncated to 32 bits).
pub open spec fn token_matches<'a>(t: Token<'a>, l: Lexeme, text: Seq<char>, loc: int) -> bool {
    &&& t.loc_spec().0 == loc as u32
    &&& lexeme_of(t.kind_spec()) == l
    &&& match t.kind_spec() {
        TokenKind::Int(x) => x@ == text,
        TokenKind::Ident(x) => x@ == text,
        _ => true,
    }
}

/// The lexemes of `s` from position `i` on, as (class, start, end): the
/// stream stops at the first position where no lexeme starts.
pub open spec fn lex_all(s: Seq<char>, i: int) -> Seq<(Lexeme, int, int)>
    decreases s.len() - i,
{
    if i < 0 || i > s.len() {
        seq![]
    } else {
        let j = skip_trivia(s, i);
        match lex_at(s, j) {
            Some((l, e)) => if i < e <= s.len() {
                seq![(l, j, e)] + lex_all(s, e)
            } else {
                seq![]
            },
            None => seq![],
        }
    }
}

} // verus!

verus! {

/// The position after the whitespace and complete line comments at `i`.
fn skip_trivia_exec(s: &Vec<char>, start: usize) -> (r: usize)
    requires
        start <= s@.len(),
    ensures
        r == skip_trivia(s@, start as int),
{
    let n = s.len();
    let mut i = start;
    loop
        invariant
            i <= n == s@.len(),
            skip_trivia(s@, start as int) == skip_trivia(s@, i as int),
        decreases n - i,
    {
        if i < n && (s[i] == ' ' || s[i] == '\t' || s[i] == '\n' || s[i] == '\r') {
            i = i + 1;
        } else if i < n && i + 1 < n && s[i] == '/' && s[i + 1] == '/' {
            let mut k = i + 2;
            while k < n && s[k] != '\n'
                invariant
                    i + 2 <= k <= n == s@.len(),
                    find_newline(s@, i + 2) == find_newline(s@, k as int),
                decreases n - k,
            {
                k = k + 1;
            }
            if k < n {
                i = k + 1;
            } else {
                return i;
            }
        } else {
            return i;
        }
    }
}

} // verus!

verus! {

/// The end of the run of ASCII digits (or, with `ident`, of identifier
/// characters) that starts at `i`.
fn run_end(s: &Vec<char>, i: usize, ident: bool) -> (r: usize)
    requires
        i <= s@.len(),
    ensures
        r == if ident {
            ident_end(s@, i as int)
        } else {
            digits_end(s@, i as int)
        },
{
    let n = s.len();
    let mut k = i;
    loop
        invariant
            i <= k <= n == s@.len(),
            ident ==> ident_end(s@, i as int) == ident_end(s@, k as int),
            !ident ==> digits_end(s@, i as int) == digits_end(s@, k as int),
        decreases n - k,
    {
        if k >= n {
            return k;
        }
        let c = s[k];
        let more = if ident {
            c == '_' || is_alphanumeric(c)
        } else {
            '0' <= c && c <= '9'
        };
        if !more {
            return k;
        }
        k = k + 1;
    }
}

/// The bytes that `c` takes in UTF-8.
fn utf8_len_exec(c: char) -> (r: u128)
    ensures
        r == utf8_len(c),
{
    let v = c as u32;
    if v < 0x80 {
        1
    } else if v < 0x800 {
        2
    } else if v < 0x10000 {
        3
    } else {
        4
    }
}

/// A stream of tokens over the text of a source.
pub struct TokenStream<'a> {
    source: &'a Source,
    text: &'a str,
    chars: Vec<char>,
    pos: usize,
    byte: u128,
}

impl<'a> TokenStream<'a> {
    /// The characters of the text.
    pub closed spec fn text_spec(&self) -> Seq<char> {
        self.chars@
    }

    /// The position (in characters) where the next token is looked for.
    pub closed spec fn pos_spec(&self) -> int {
        self.pos as int
    }

    pub closed spec fn source_spec(&self) -> &'a Source {
        self.source
    }

    pub closed spec fn wf(&self) -> bool {
        &&& self.text@ == self.chars@
        &&& self.pos <= self.chars@.len()
        &&& self.byte == utf8_offset(self.chars@, self.pos as int)
    }

    pub fn new(source: &'a Source) -> (r: Self)
        ensures
            r.wf(),
            r.text_spec() == source.body_spec()@,
            r.pos_spec() == 0,
            r.source_spec() == source,
    {
        let body: &'a String = source.body();
        let text: &'a str = body.as_str();
        let n = text.unicode_len();
        let mut chars: Vec<char> = Vec::new();
        let mut i: usize = 0;
        while i < n
            invariant
                i <= n == text@.len(),
                chars@ == text@.take(i as int),
            decreases n - i,
        {
            chars.push(text.get_char(i));
            i = i + 1;
            assert(chars@ =~= text@.take(i as int));
        }
        assert(chars@ =~= text@);
        TokenStream { source, text, chars, pos: 0, byte: 0 }
    }

    pub fn source(&self) -> (r: &'a Source)
        ensures
            r == self.source_spec(),
    {
        self.source
    }

    /// The byte offset of character position `to`, counted on from `from`,
    /// whose offset is `byte`.
    fn offset_at(&self, from: usize, byte: u128, to: usize) -> (r: u128)
        requires
            from <= to <= self.chars@.len(),
            byte == utf8_offset(self.chars@, from as int),
        ensures
            r == utf8_offset(self.chars@, to as int),
    {
        let mut k = from;
        let mut b = byte;
        while k < to
            invariant
                from <= k <= to <= self.chars@.len(),
                b == utf8_offset(self.chars@, k as int),
            decreases to - k,
        {
            proof {
                lemma_utf8_offset_bound(self.chars@, k + 1);
            }
            b = b + utf8_len_exec(self.chars[k]);
            k = k + 1;
        }
        b
    }

    /// The next token, if one starts after the whitespace and comments at the
    /// current position; the position then moves past it. When none does, the
    /// position stays.
    pub fn next(&mut self) -> (r: Option<Token<'a>>)
        requires
            old(self).wf(),
        ensures
            final(self).wf(),
            final(self).text_spec() == old(self).text_spec(),
            final(self).source_spec() == old(self).source_spec(),
            ({
                let s = old(self).text_spec();
                let j = skip_trivia(s, old(self).pos_spec());
                match lex_at(s, j) {
                    None => r.is_none() && final(self).pos_spec() == old(self).pos_spec(),
                    Some((l, e)) => {
                        &&& r is Some
                        &&& token_matches(r->Some_0, l, s.subrange(j, e), utf8_offset(s, j))
                        &&& final(self).pos_spec() == e
                    },
                }
            }),
    {
        let ghost s = self.chars@;
        let n = self.chars.len();
        let j = skip_trivia_exec(&self.chars, self.pos);
        proof {
            lemma_skip_trivia_bounds(s, self.pos as int);
        }
        if j >= n {
            return None;
        }
        let bj = self.offset_at(self.pos, self.byte, j);
        let c = self.chars[j];
        let kind: TokenKind<'a>;
        let end: usize;
        if '0' <= c && c <= '9' {
            end = run_end(&self.chars, j, false);
            proof {
                lemma_run_ends(s, j as int);
            }
            kind = TokenKind::Int(self.text.substring_char(j, end));
        } else {
            match single(c) {
                Some(k) => {
                    kind = k;
                    end = j + 1;
                },
                None => {
                    if c == ';' && j + 1 < n && self.chars[j + 1] == ';' {
                        kind = TokenKind::Punct(PunctKind::DoubleSemicolon);
                        end = j + 2;
                    } else if c == '=' && j + 1 < n && self.chars[j + 1] == '=' {
                        kind = TokenKind::Punct(PunctKind::Eq);
                        end = j + 2;
                    } else if c == '_' || is_alphanumeric(c) {
                        end = run_end(&self.chars, j, true);
                        proof {
                            lemma_run_ends(s, j as int);
                        }
                        kind = TokenKind::Ident(self.text.substring_char(j, end));
                    } else {
                        return None;
                    }
                },
            }
        }
        let be = self.offset_at(j, bj, end);
        self.pos = end;
        self.byte = be;
        Some(Token::new(kind, Location(bj as u32)))
    }

    /// All the tokens from the current position on, in order.
    pub fn collect_tokens(self) -> (r: Vec<Token<'a>>)
        requires
            self.wf(),
        ensures
            r@.len() == lex_all(self.text_spec(), self.pos_spec()).len(),
            forall|k: int|
                0 <= k < r@.len() ==> token_matches(
                    #[trigger] r@[k],
                    lex_all(self.text_spec(), self.pos_spec())[k].0,
                    self.text_spec().subrange(
                        lex_all(self.text_spec(), self.pos_spec())[k].1,
                        lex_all(self.text_spec(), self.pos_spec())[k].2,
                    ),
                    utf8_offset(self.text_spec(), lex_all(self.text_spec(), self.pos_spec())[k].1),
                ),
    {
        let ghost s = self.text_spec();
        let ghost all = lex_all(s, self.pos_spec());
        let mut stream = self;
        let mut out: Vec<Token<'a>> = Vec::new();
        loop
            invariant
                s == self.text_spec(),
                all == lex_all(s, self.pos_spec()),
                stream.wf(),
                stream.text_spec() == s,
                out@.len() + lex_all(s, stream.pos_spec()).len() == all.len(),
                lex_all(s, stream.pos_spec()) == all.subrange(out@.len() as int, all.len() as int),
                forall|k: int|
                    0 <= k < out@.len() ==> token_matches(
                        #[trigger] out@[k],
                        all[k].0,
                        s.subrange(all[k].1, all[k].2),
                        utf8_offset(s, all[k].1),
                    ),
            decreases s.len() - stream.pos_spec(),
        {
            let ghost p = stream.pos_spec();
            proof {
                lemma_skip_trivia_bounds(s, p);
                if lex_at(s, skip_trivia(s, p)) is Some {
                    lemma_lex_at_bounds(s, skip_trivia(s, p));
                }
            }
            match stream.next() {
                Some(t) => {
                    let ghost k = out@.len() as int;
                    let ghost j = skip_trivia(s, p);
                    let ghost le = lex_at(s, j)->Some_0;
                    assert(lex_all(s, p) == seq![(le.0, j, le.1)] + lex_all(s, le.1));
                    assert(all[k] == lex_all(s, p)[0]);
                    assert(lex_all(s, le.1) =~= lex_all(s, p).subrange(1, lex_all(s, p).len() as int));
                    out.push(t);
                    assert(lex_all(s, stream.pos_spec()) =~= all.subrange(
                        out@.len() as int,
                        all.len() as int,
                    ));
                },
                None => {
                    assert(lex_all(s, p).len() == 0);
                    return out;
                },
            }
        }
    }
}

} // verus!
