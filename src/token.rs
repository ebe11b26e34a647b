//! The token model: identifiers, punctuation, literals and delimited groups,
//! each carrying the site it came from.
use vstd::prelude::*;

verus! {

/// How a group of tokens is delimited.
#[derive(Clone, Copy, Debug, PartialEq, Eq, Structural)]
pub enum Delimiter {
    Parenthesis,
    Brace,
    Bracket,
    Invisible,
}

/// Whether a punctuation character is glued to the one that follows it.
#[derive(Clone, Copy, Debug, PartialEq, Eq, Structural)]
pub enum Spacing {
    Alone,
    Joint,
}

/// Where a token comes from: a position in the caller's source (an index that
/// the caller gives each input token), the invocation site, or a site that
/// resolves local names privately to the generated code.
#[derive(Clone, Copy, Debug, PartialEq, Eq, Structural)]
pub enum Site {
    Source(u64),
    CallSite,
    MixedSite,
}

/// One token tree.
#[derive(Debug)]
pub enum Tok {
    Ident { name: String, site: Site },
    Punct { ch: char, spacing: Spacing, site: Site },
    Literal { text: String, site: Site },
    Group { delimiter: Delimiter, stream: Vec<Tok>, site: Site },
}

/// The mathematical value of a token tree.
pub enum TokV {
    Ident(Seq<char>, Site),
    Punct(char, Spacing, Site),
    Literal(Seq<char>, Site),
    Group(Delimiter, Seq<TokV>, Site),
}

impl TokV {
    /// An identifier with the given text.
    pub open spec fn is_word(self, w: Seq<char>) -> bool {
        match self {
            TokV::Ident(n, _) => n == w,
            _ => false,
        }
    }

    pub open spec fn is_ident(self) -> bool {
        self is Ident
    }

    pub open spec fn is_brace_group(self) -> bool {
        match self {
            TokV::Group(d, _, _) => d == Delimiter::Brace,
            _ => false,
        }
    }

    /// A block `{ ... }`: a brace-delimited group, or an invisible group
    /// holding just one (as a macro's `$b:block` hands it on).
    pub open spec fn is_block(self) -> bool {
        match self {
            TokV::Group(d, inner, _) => d == Delimiter::Brace || (d == Delimiter::Invisible
                && inner.len() == 1 && inner[0].is_brace_group()),
            _ => false,
        }
    }

    pub open spec fn is_punct(self, c: char) -> bool {
        match self {
            TokV::Punct(ch, _, _) => ch == c,
            _ => false,
        }
    }

    pub open spec fn is_joint_punct(self, c: char) -> bool {
        match self {
            TokV::Punct(ch, sp, _) => ch == c && sp == Spacing::Joint,
            _ => false,
        }
    }
}

impl Tok {
    pub fn is_word(&self, w: &str) -> (r: bool)
        ensures
            r == tok_v(*self).is_word(w@),
    {
        match self {
            Tok::Ident { name, .. } => name_is(name, w),
            _ => false,
        }
    }

    pub fn is_ident(&self) -> (r: bool)
        ensures
            r == tok_v(*self).is_ident(),
    {
        match self {
            Tok::Ident { .. } => true,
            _ => false,
        }
    }

    pub fn is_block(&self) -> (r: bool)
        ensures
            r == tok_v(*self).is_block(),
    {
        match self {
            Tok::Group { delimiter: Delimiter::Brace, .. } => true,
            Tok::Group { delimiter: Delimiter::Invisible, stream, .. } => {
                proof {
                    lemma_toks_v_index(stream@);
                }
                stream.len() == 1 && match &stream[0] {
                    Tok::Group { delimiter: Delimiter::Brace, .. } => true,
                    _ => false,
                }
            },
            _ => false,
        }
    }

    pub fn is_punct(&self, c: char) -> (r: bool)
        ensures
            r == tok_v(*self).is_punct(c),
    {
        match self {
            Tok::Punct { ch, .. } => *ch == c,
            _ => false,
        }
    }

    pub fn is_joint_punct(&self, c: char) -> (r: bool)
        ensures
            r == tok_v(*self).is_joint_punct(c),
    {
        match self {
            Tok::Punct { ch, spacing: Spacing::Joint, .. } => *ch == c,
            _ => false,
        }
    }
}

pub open spec fn tok_v(t: Tok) -> TokV
    decreases t,
{
    match t {
        Tok::Ident { name, site } => TokV::Ident(name@, site),
        Tok::Punct { ch, spacing, site } => TokV::Punct(ch, spacing, site),
        Tok::Literal { text, site } => TokV::Literal(text@, site),
        Tok::Group { delimiter, stream, site } => TokV::Group(delimiter, toks_v(stream@), site),
    }
}

pub open spec fn toks_v(s: Seq<Tok>) -> Seq<TokV>
    decreases s,
{
    if s.len() == 0 {
        Seq::empty()
    } else {
        toks_v(s.subrange(0, s.len() - 1)).push(tok_v(s[s.len() - 1]))
    }
}

pub proof fn lemma_toks_v_index(s: Seq<Tok>)
    ensures
        toks_v(s).len() == s.len(),
        forall|i: int| 0 <= i < s.len() ==> #[trigger] toks_v(s)[i] == tok_v(s[i]),
    decreases s.len(),
{
    if s.len() > 0 {
        let p = s.subrange(0, s.len() - 1);
        lemma_toks_v_index(p);
        assert forall|i: int| 0 <= i < s.len() implies #[trigger] toks_v(s)[i] == tok_v(s[i]) by {
            if i < s.len() - 1 {
                assert(p[i] == s[i]);
            }
        }
    }
}

pub proof fn lemma_toks_v_push(s: Seq<Tok>, t: Tok)
    ensures
        toks_v(s.push(t)) == toks_v(s).push(tok_v(t)),
{
    assert(s.push(t).subrange(0, s.len() as int) =~= s);
}

pub proof fn lemma_toks_v_add(a: Seq<Tok>, b: Seq<Tok>)
    ensures
        toks_v(a + b) == toks_v(a) + toks_v(b),
{
    lemma_toks_v_index(a);
    lemma_toks_v_index(b);
    lemma_toks_v_index(a + b);
    assert(toks_v(a + b) =~= toks_v(a) + toks_v(b));
}

/// Whether an identifier's text is the given word.
pub fn name_is(name: &String, word: &str) -> (r: bool)
    ensures
        r == (name@ == word@),
{
    let w = String::from_str(word);
    name.eq(&w)
}

/// A deep copy of a token stream.
pub fn copy_tokens(toks: &Vec<Tok>) -> (r: Vec<Tok>)
    ensures
        toks_v(r@) == toks_v(toks@),
    decreases toks@,
{
    let mut r: Vec<Tok> = Vec::new();
    let mut i: usize = 0;
    while i < toks.len()
        invariant
            i <= toks.len(),
            toks_v(r@) == toks_v(toks@.subrange(0, i as int)),
        decreases toks.len() - i,
    {
        let t = copy_token(&toks[i]);
        proof {
            lemma_toks_v_push(r@, t);
            assert(toks@.subrange(0, i + 1) =~= toks@.subrange(0, i as int).push(toks@[i as int]));
            lemma_toks_v_push(toks@.subrange(0, i as int), toks@[i as int]);
        }
        r.push(t);
        i = i + 1;
    }
    assert(toks@.subrange(0, i as int) =~= toks@);
    r
}

/// A deep copy of one token tree.
pub fn copy_token(t: &Tok) -> (r: Tok)
    ensures
        tok_v(r) == tok_v(*t),
    decreases t,
{
    match t {
        Tok::Ident { name, site } => Tok::Ident { name: name.clone(), site: *site },
        Tok::Punct { ch, spacing, site } => Tok::Punct { ch: *ch, spacing: *spacing, site: *site },
        Tok::Literal { text, site } => Tok::Literal { text: text.clone(), site: *site },
        Tok::Group { delimiter, stream, site } => Tok::Group {
            delimiter: *delimiter,
            stream: copy_tokens(stream),
            site: *site,
        },
    }
}

} // verus!
