//! A `try { ... } catch e: Type { ... }` construct, read from a token stream
//! and rewritten into code that dispatches a caught error on its runtime type.
//!
//! The library works on its own token model ([`token::Tok`]); the bridge to a
//! compiler token stream lives outside the verified part.
use vstd::prelude::*;

pub mod dispatch;
pub mod generate;
pub mod syntax;
pub mod token;
pub mod types;

pub use syntax::{Catch, ErrorKind, ParseError, TryCatch};
pub use token::{Delimiter, Site, Spacing, Tok};

use generate::{expansion_v, template};
use syntax::{parse_try_catch, read_construct};
use token::{lemma_toks_v_index, toks_v};

verus! {

/// Reads one construct, which must fill `input`, and returns its rewritten
/// form, or the syntax error that stopped the reading.
pub fn catch(input: Vec<Tok>) -> (r: Result<Vec<Tok>, ParseError>)
    ensures
        match read_construct(toks_v(input@)) {
            Ok(tc) => r is Ok && toks_v(r->Ok_0@) == expansion_v(tc),
            Err(e) => r == Err::<Vec<Tok>, ParseError>(e),
        },
{
    proof {
        lemma_toks_v_index(input@);
    }
    match parse_try_catch(&input) {
        Err(e) => Err(e),
        Ok((_, _, Some(e))) => Err(e),
        Ok((tc, _, None)) => Ok(template(&tc)),
    }
}

} // verus!
