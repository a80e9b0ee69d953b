pub mod location;
pub mod source;
pub mod token;

use vstd::prelude::*;
use crate::lexer::source::Source;
use crate::lexer::token::TokenStream;

verus! {

/// A token stream over the text of `source`, positioned at its start.
pub fn tokenize<'a>(source: &'a Source) -> (r: TokenStream<'a>)
    ensures
        r.wf(),
        r.text_spec() == source.body_spec()@,
        r.pos_spec() == 0,
        r.source_spec() == source,
{
    TokenStream::new(source)
}

} // verus!
