//! What syn decides about tokens: where a type read from the front of a
//! token sequence ends, and which words may name a binding.
use vstd::prelude::*;
use proc_macro2::{Delimiter as PmDelimiter, Group, Punct, Spacing as PmSpacing, TokenStream, TokenTree};
use crate::token::{Spacing, Tok, TokV, tok_v, toks_v, lemma_toks_v_index};

verus! {

#[verifier::external_type_specification]
#[verifier::external_body]
pub struct ExTokenStream(proc_macro2::TokenStream);

/// The punctuation characters that a compiler token stream can hold.
pub open spec fn supported_punct(c: char) -> bool {
    c == '!' || c == '#' || c == '$' || c == '%' || c == '&' || c == '\'' || c == '*' || c == '+'
        || c == ',' || c == '-' || c == '.' || c == '/' || c == ':' || c == ';' || c == '<' || c
        == '=' || c == '>' || c == '?' || c == '@' || c == '^' || c == '|' || c == '~'
}

pub open spec fn tok_supported(t: TokV) -> bool
    decreases t,
{
    match t {
        TokV::Punct(c, _, _) => supported_punct(c),
        TokV::Group(_, inner, _) => seq_supported(inner),
        _ => true,
    }
}

/// Whether every punctuation character, at any depth, is one a compiler
/// token stream can hold.
pub open spec fn seq_supported(s: Seq<TokV>) -> bool
    decreases s,
{
    if s.len() == 0 {
        true
    } else {
        seq_supported(s.subrange(0, s.len() - 1)) && tok_supported(s[s.len() - 1])
    }
}

/// Whether syn reads the text as an identifier (keywords and `_` are not).
pub uninterp spec fn syn_ident(name: Seq<char>) -> bool;

/// A token that may name the binding of a caught error.
pub open spec fn binder_ok(t: TokV) -> bool {
    match t {
        TokV::Ident(n, _) => syn_ident(n),
        _ => false,
    }
}

/// Relies on syn's `Ident` parser (through `parse_str`): whether the text is
/// one identifier that is not a keyword.
#[verifier::external_body]
fn accepts_ident(name: &String) -> (r: bool)
    ensures
        r == syn_ident(name@),
{
    syn::parse_str::<syn::Ident>(name).is_ok()
}

/// Whether a token may name the binding of a caught error.
pub fn is_binder(t: &Tok) -> (r: bool)
    ensures
        r == binder_ok(tok_v(*t)),
{
    match t {
        Tok::Ident { name, .. } => accepts_ident(name),
        _ => false,
    }
}

/// How many top-level tokens are left after syn reads a type from the front
/// of the tokens; none when no type can be read.
pub uninterp spec fn syn_type_rest(s: Seq<TokV>) -> Option<nat>;

/// Where a type read from the front of `s` ends: the number of its tokens.
pub open spec fn type_len(s: Seq<TokV>) -> Option<int> {
    if !seq_supported(s) {
        None
    } else {
        match syn_type_rest(s) {
            Some(n) => if n < s.len() {
                Some(s.len() - n)
            } else {
                None
            },
            None => None,
        }
    }
}

fn supported_char(c: char) -> (r: bool)
    ensures
        r == supported_punct(c),
{
    c == '!' || c == '#' || c == '$' || c == '%' || c == '&' || c == '\'' || c == '*' || c == '+'
        || c == ',' || c == '-' || c == '.' || c == '/' || c == ':' || c == ';' || c == '<' || c
        == '=' || c == '>' || c == '?' || c == '@' || c == '^' || c == '|' || c == '~'
}

fn token_supported(t: &Tok) -> (r: bool)
    ensures
        r == tok_supported(tok_v(*t)),
    decreases t,
{
    match t {
        Tok::Punct { ch, .. } => supported_char(*ch),
        Tok::Group { stream, .. } => tokens_supported(stream),
        _ => true,
    }
}

fn tokens_supported(toks: &Vec<Tok>) -> (r: bool)
    ensures
        r == seq_supported(toks_v(toks@)),
    decreases toks@,
{
    let ghost v = toks_v(toks@);
    proof {
        lemma_toks_v_index(toks@);
    }
    let mut r = true;
    let mut i: usize = 0;
    while i < toks.len()
        invariant
            i <= toks.len(),
            v == toks_v(toks@),
            v.len() == toks@.len(),
            forall|j: int| 0 <= j < toks@.len() ==> #[trigger] v[j] == tok_v(toks@[j]),
            r == seq_supported(v.subrange(0, i as int)),
        decreases toks.len() - i,
    {
        let b = token_supported(&toks[i]);
        proof {
            assert(v.subrange(0, i + 1).subrange(0, i as int) =~= v.subrange(0, i as int));
        }
        r = r && b;
        i = i + 1;
    }
    assert(v.subrange(0, i as int) =~= v);
    r
}

/// Relies on proc_macro2's `TokenStream::from_str`, `Punct::new` and
/// `Group::new` (with its `Delimiter`, kind for kind) to build a compiler token stream from the library's tokens:
/// one tree per token; an identifier or literal whose text does not lex
/// gives `None`. `Punct::new` panics on an unsupported character, which
/// `requires` rules out.
#[verifier::external_body]
fn to_stream(toks: &Vec<Tok>) -> (r: Option<TokenStream>)
    requires
        seq_supported(toks_v(toks@)),
{
    let mut out = TokenStream::new();
    for t in toks {
        out.extend([match t {
            Tok::Ident { name: x, .. } | Tok::Literal { text: x, .. } => x.parse::<TokenStream>().ok()?.into_iter().next()?,
            Tok::Punct { ch, spacing: Spacing::Joint, .. } => TokenTree::Punct(Punct::new(*ch, PmSpacing::Joint)),
            Tok::Punct { ch, spacing: Spacing::Alone, .. } => TokenTree::Punct(Punct::new(*ch, PmSpacing::Alone)),
            Tok::Group { delimiter: d, stream, .. } => TokenTree::Group(Group::new(
                [PmDelimiter::Parenthesis, PmDelimiter::Brace, PmDelimiter::Bracket, PmDelimiter::None][*d as usize],
                to_stream(stream)?,
            )),
        }]);
    }
    Some(out)
}

/// Relies on syn's `Type` parser, run through `Parser::parse2` on the tokens
/// that `to_stream` builds: reads a type from the front and counts the
/// top-level tokens left after it; `None` when no type can be read.
#[verifier::external_body]
fn type_rest(s: &Vec<Tok>) -> (r: Option<usize>)
    requires
        seq_supported(toks_v(s@)),
    ensures
        match r {
            Some(n) => syn_type_rest(toks_v(s@)) == Some(n as nat),
            None => syn_type_rest(toks_v(s@)) is None,
        },
{
    let read = |input: syn::parse::ParseStream| {
        input.parse::<syn::Type>()?;
        Ok(input.parse::<TokenStream>()?.into_iter().count())
    };
    syn::parse::Parser::parse2(read, to_stream(s)?).ok()
}

/// The number of tokens of a type read from the front of `s`.
pub fn read_type(s: &Vec<Tok>) -> (r: Option<usize>)
    ensures
        match r {
            Some(k) => type_len(toks_v(s@)) == Some(k as int),
            None => type_len(toks_v(s@)) is None,
        },
{
    proof {
        lemma_toks_v_index(s@);
    }
    if !tokens_supported(s) {
        return None;
    }
    match type_rest(s) {
        Some(n) => if n < s.len() {
            Some(s.len() - n)
        } else {
            None
        },
        None => None,
    }
}

} // verus!
