//! The grammar of the construct and its parser:
//!
//! ```text
//! try <block> (catch <binder> [: <type>] <block>)*
//! ```
use vstd::prelude::*;
use crate::types::{binder_ok, is_binder, read_type, type_len};
use crate::token::{Tok, TokV, tok_v, toks_v, lemma_toks_v_index, copy_token, copy_tokens};

verus! {

/// What went wrong while reading the construct.
#[derive(Clone, Copy, Debug, PartialEq, Eq, Structural)]
pub enum ErrorKind {
    ExpectedTry,
    ExpectedBlock,
    ExpectedCatch,
    ExpectedBinder,
    ExpectedType,
    CatchAllNotLast,
}

/// A syntax error, at the index of the offending input token (the input's
/// length when the input ended too early).
#[derive(Clone, Copy, Debug, PartialEq, Eq, Structural)]
pub struct ParseError {
    pub kind: ErrorKind,
    pub pos: usize,
}

/// The human-readable message for each kind of error.
pub open spec fn message_of(kind: ErrorKind) -> Seq<char> {
    match kind {
        ErrorKind::ExpectedTry => "Expected `try`"@,
        ErrorKind::ExpectedBlock => "Expected a block `{ /* ... */ }`."@,
        ErrorKind::ExpectedCatch => "Expected `catch`"@,
        ErrorKind::ExpectedBinder => "Expected an identifier to bind the error to"@,
        ErrorKind::ExpectedType => "Expected an error type after `:`"@,
        ErrorKind::CatchAllNotLast => "A catch-all clause must be the last one"@,
    }
}

impl ParseError {
    /// The human-readable message for this error.
    pub fn message(&self) -> (r: &'static str)
        ensures
            r@ == message_of(self.kind),
    {
        match self.kind {
            ErrorKind::ExpectedTry => "Expected `try`",
            ErrorKind::ExpectedBlock => "Expected a block `{ /* ... */ }`.",
            ErrorKind::ExpectedCatch => "Expected `catch`",
            ErrorKind::ExpectedBinder => "Expected an identifier to bind the error to",
            ErrorKind::ExpectedType => "Expected an error type after `:`",
            ErrorKind::CatchAllNotLast => "A catch-all clause must be the last one",
        }
    }
}

/// One catch clause: the binder, the error type (none for a catch-all) and
/// the recovery block.
#[derive(Debug)]
pub struct Catch {
    pub binder: Tok,
    pub error_type: Option<Vec<Tok>>,
    pub body: Tok,
}

/// The whole construct: the guarded block and its clauses in declaration order.
#[derive(Debug)]
pub struct TryCatch {
    pub try_block: Tok,
    pub catches: Vec<Catch>,
    pub is_async: bool,
}

pub struct CatchV {
    pub binder: TokV,
    pub error_type: Option<Seq<TokV>>,
    pub body: TokV,
}

pub struct TryCatchV {
    pub try_block: TokV,
    pub catches: Seq<CatchV>,
    pub is_async: bool,
}

impl View for Catch {
    type V = CatchV;

    open spec fn view(&self) -> CatchV {
        CatchV {
            binder: tok_v(self.binder),
            error_type: match self.error_type {
                Some(t) => Some(toks_v(t@)),
                None => None,
            },
            body: tok_v(self.body),
        }
    }
}

impl View for TryCatch {
    type V = TryCatchV;

    open spec fn view(&self) -> TryCatchV {
        TryCatchV {
            try_block: tok_v(self.try_block),
            catches: self.catches@.map_values(|c: Catch| c@),
            is_async: self.is_async,
        }
    }
}

/// Whether a token tree holds the suspension marker `await`, at any depth.
pub open spec fn tok_awaits(t: TokV) -> bool
    decreases t,
{
    match t {
        TokV::Ident(n, _) => n == "await"@,
        TokV::Group(_, inner, _) => seq_awaits(inner),
        _ => false,
    }
}

pub open spec fn seq_awaits(s: Seq<TokV>) -> bool
    decreases s,
{
    if s.len() == 0 {
        false
    } else {
        seq_awaits(s.subrange(0, s.len() - 1)) || tok_awaits(s[s.len() - 1])
    }
}

/// The invariant of a construct: its guarded part is a block, a catch-all
/// clause comes last if at all, and the asynchrony flag is what the guarded
/// block shows.
pub open spec fn well_formed(tc: TryCatchV) -> bool {
    &&& tc.try_block.is_block()
    &&& tc.is_async == tok_awaits(tc.try_block)
    &&& clauses_well_formed(tc.catches)
}

/// Each clause binds an identifier and has a block; a catch-all comes last.
pub open spec fn clauses_well_formed(cs: Seq<CatchV>) -> bool {
    forall|i: int|
        0 <= i < cs.len() ==> {
            &&& #[trigger] cs[i].body.is_block()
            &&& cs[i].binder.is_ident()
            &&& (cs[i].error_type is None ==> i == cs.len() - 1)
        }
}

pub open spec fn err(kind: ErrorKind, pos: int) -> ParseError {
    ParseError { kind, pos: pos as usize }
}

/// One catch clause at `pos`, and the position after it.
pub open spec fn clause_at(s: Seq<TokV>, pos: int) -> Result<(CatchV, int), ParseError> {
    if !(0 <= pos < s.len()) || !s[pos].is_word("catch"@) {
        Err(err(ErrorKind::ExpectedCatch, pos))
    } else if pos + 1 >= s.len() || !binder_ok(s[pos + 1]) {
        Err(err(ErrorKind::ExpectedBinder, pos + 1))
    } else if pos + 2 < s.len() && s[pos + 2].is_punct(':') {
        match type_len(s.subrange(pos + 3, s.len() as int)) {
            None => Err(err(ErrorKind::ExpectedType, pos + 3)),
            Some(len) => {
                let k = pos + 3 + len;
                if k < s.len() && s[k].is_block() {
                    Ok(
                        (
                            CatchV {
                                binder: s[pos + 1],
                                error_type: Some(s.subrange(pos + 3, k)),
                                body: s[k],
                            },
                            k + 1,
                        ),
                    )
                } else {
                    Err(err(ErrorKind::ExpectedBlock, k))
                }
            },
        }
    } else if pos + 2 < s.len() && s[pos + 2].is_block() {
        Ok((CatchV { binder: s[pos + 1], error_type: None, body: s[pos + 2] }, pos + 3))
    } else {
        Err(err(ErrorKind::ExpectedBlock, pos + 2))
    }
}

/// The clauses read greedily from `pos`, and where reading stopped: at the
/// first position where no clause starts, or right after a catch-all. A
/// catch-all followed by another clause is an error.
pub open spec fn clauses_from(s: Seq<TokV>, pos: int) -> Result<(Seq<CatchV>, int), ParseError>
    decreases s.len() - pos,
    via clauses_from_decreases
{
    if pos < 0 || pos >= s.len() {
        Ok((Seq::empty(), pos))
    } else {
        match clause_at(s, pos) {
            Err(_) => Ok((Seq::empty(), pos)),
            Ok((c, next)) => if c.error_type is None {
                if clause_at(s, next) is Ok {
                    Err(err(ErrorKind::CatchAllNotLast, next))
                } else {
                    Ok((seq![c], next))
                }
            } else {
                match clauses_from(s, next) {
                    Ok((rest, stop)) => Ok((seq![c] + rest, stop)),
                    Err(e) => Err(e),
                }
            },
        }
    }
}

proof fn lemma_clause_advances(s: Seq<TokV>, pos: int)
    ensures
        clause_at(s, pos) matches Ok((c, next)) ==> pos < next <= s.len() && c.body.is_block()
            && c.binder.is_ident(),
{
}

#[via_fn]
proof fn clauses_from_decreases(s: Seq<TokV>, pos: int) {
    lemma_clause_advances(s, pos);
}

/// The construct read from the start of a token sequence, and the position
/// where reading stopped.
pub open spec fn parse_construct(s: Seq<TokV>) -> Result<(TryCatchV, int), ParseError> {
    if s.len() == 0 || !s[0].is_word("try"@) {
        Err(err(ErrorKind::ExpectedTry, 0))
    } else if s.len() < 2 || !s[1].is_block() {
        Err(err(ErrorKind::ExpectedBlock, 1))
    } else {
        match clauses_from(s, 2) {
            Ok((cs, stop)) => Ok(
                (TryCatchV { try_block: s[1], catches: cs, is_async: tok_awaits(s[1]) }, stop),
            ),
            Err(e) => Err(e),
        }
    }
}

/// The construct that a whole token sequence holds: tokens left after the
/// construct are refused with the reason no clause starts there.
pub open spec fn read_construct(s: Seq<TokV>) -> Result<TryCatchV, ParseError> {
    match parse_construct(s) {
        Err(e) => Err(e),
        Ok((tc, stop)) => if stop < s.len() {
            Err(clause_at(s, stop)->Err_0)
        } else {
            Ok(tc)
        },
    }
}

proof fn lemma_clauses_from(s: Seq<TokV>, pos: int)
    ensures
        clauses_from(s, pos) is Ok ==> {
            let (cs, stop) = clauses_from(s, pos)->Ok_0;
            &&& clauses_well_formed(cs)
            &&& (stop < s.len() ==> clause_at(s, stop) is Err)
        },
    decreases s.len() - pos,
{
    if 0 <= pos < s.len() && clauses_from(s, pos) is Ok {
        lemma_clause_advances(s, pos);
        if let Ok((c, next)) = clause_at(s, pos) {
            if c.error_type is None {
                assert(clauses_from(s, pos) == Ok::<(Seq<CatchV>, int), ParseError>((seq![c], next)));
                assert(seq![c][0] == c);
            } else {
                lemma_clauses_from(s, next);
                if let Ok((rest, stop)) = clauses_from(s, next) {
                    let cs = seq![c] + rest;
                    assert(clauses_from(s, pos) == Ok::<(Seq<CatchV>, int), ParseError>((cs, stop)));
                    assert forall|i: int| 0 <= i < cs.len() implies {
                        &&& #[trigger] cs[i].body.is_block()
                        &&& cs[i].binder.is_ident()
                        &&& (cs[i].error_type is None ==> i == cs.len() - 1)
                    } by {
                        if i == 0 {
                            assert(cs[0] == c);
                        } else {
                            assert(cs[i] == rest[i - 1]);
                            assert(rest[i - 1].body.is_block());
                        }
                    }
                }
            }
        }
    }
}

/// Whatever the parser accepts is a well-formed construct, and it stops only
/// where no clause starts.
pub proof fn lemma_parsed_well_formed(s: Seq<TokV>)
    ensures
        parse_construct(s) is Ok ==> {
            let (tc, stop) = parse_construct(s)->Ok_0;
            &&& well_formed(tc)
            &&& (stop < s.len() ==> clause_at(s, stop) is Err)
        },
{
    lemma_clauses_from(s, 2);
}

/// Reading is deterministic: token sequences that are the same, sites
/// included, are read into the same construct or the same error.
pub proof fn lemma_parse_deterministic(x: Seq<Tok>, y: Seq<Tok>)
    requires
        toks_v(x) == toks_v(y),
    ensures
        parse_construct(toks_v(x)) == parse_construct(toks_v(y)),
        read_construct(toks_v(x)) == read_construct(toks_v(y)),
{
}

/// Whether a token tree holds the suspension marker.
pub fn token_awaits(t: &Tok) -> (r: bool)
    ensures
        r == tok_awaits(tok_v(*t)),
    decreases t,
{
    match t {
        Tok::Ident { name, .. } => crate::token::name_is(name, "await"),
        Tok::Group { stream, .. } => is_async(stream),
        _ => false,
    }
}

/// Whether a token stream holds the suspension marker `await` anywhere,
/// nested groups included.
pub fn is_async(toks: &Vec<Tok>) -> (r: bool)
    ensures
        r == seq_awaits(toks_v(toks@)),
    decreases toks@,
{
    let ghost v = toks_v(toks@);
    proof {
        lemma_toks_v_index(toks@);
    }
    let mut r = false;
    let mut i: usize = 0;
    while i < toks.len()
        invariant
            i <= toks.len(),
            v == toks_v(toks@),
            v.len() == toks@.len(),
            forall|j: int| 0 <= j < toks@.len() ==> #[trigger] v[j] == tok_v(toks@[j]),
            r == seq_awaits(v.subrange(0, i as int)),
        decreases toks.len() - i,
    {
        let b = token_awaits(&toks[i]);
        proof {
            assert(v.subrange(0, i + 1).subrange(0, i as int) =~= v.subrange(0, i as int));
        }
        r = r || b;
        i = i + 1;
    }
    assert(v.subrange(0, i as int) =~= v);
    r
}

/// Whether the clauses end in a catch-all, so that every error is handled.
pub open spec fn total(tc: TryCatchV) -> bool {
    exists|i: int| 0 <= i < tc.catches.len() && (#[trigger] tc.catches[i]).error_type is None
}

/// Whether some clause is a catch-all.
pub fn has_catch_all(tc: &TryCatch) -> (r: bool)
    ensures
        r == total(tc@),
{
    let mut i: usize = 0;
    while i < tc.catches.len()
        invariant
            i <= tc.catches.len(),
            forall|j: int| 0 <= j < i ==> (#[trigger] tc.catches@[j]).error_type is Some,
        decreases tc.catches.len() - i,
    {
        if tc.catches[i].error_type.is_none() {
            assert(tc@.catches[i as int].error_type is None);
            return true;
        }
        i = i + 1;
    }
    assert forall|j: int| 0 <= j < tc@.catches.len() implies (#[trigger] tc@.catches[j]).error_type is Some by {
        assert(tc.catches@[j].error_type is Some);
    }
    false
}

/// A copy of the tokens from `a` up to `b`.
fn copy_range(s: &Vec<Tok>, a: usize, b: usize) -> (r: Vec<Tok>)
    requires
        a <= b <= s.len(),
    ensures
        toks_v(r@) == toks_v(s@).subrange(a as int, b as int),
{
    proof {
        lemma_toks_v_index(s@);
    }
    let mut r: Vec<Tok> = Vec::new();
    let mut i: usize = a;
    while i < b
        invariant
            a <= i <= b <= s.len(),
            toks_v(s@).len() == s@.len(),
            forall|j: int| 0 <= j < s@.len() ==> #[trigger] toks_v(s@)[j] == tok_v(s@[j]),
            toks_v(r@) == toks_v(s@).subrange(a as int, i as int),
        decreases b - i,
    {
        let t = copy_token(&s[i]);
        proof {
            crate::token::lemma_toks_v_push(r@, t);
            assert(toks_v(s@).subrange(a as int, i + 1) =~= toks_v(s@).subrange(a as int, i as int).push(
                tok_v(s@[i as int]),
            ));
        }
        r.push(t);
        i = i + 1;
    }
    r
}

/// One catch clause at `pos`, and the position after it.
pub(crate) fn parse_clause(s: &Vec<Tok>, pos: usize) -> (r: Result<(Catch, usize), ParseError>)
    requires
        pos < s.len(),
    ensures
        match r {
            Ok((c, next)) => clause_at(toks_v(s@), pos as int) == Ok::<(CatchV, int), ParseError>((c@, next as int)),
            Err(e) => clause_at(toks_v(s@), pos as int) == Err::<(CatchV, int), ParseError>(e),
        },
{
    let ghost v = toks_v(s@);
    proof {
        lemma_toks_v_index(s@);
    }
    if !s[pos].is_word("catch") {
        return Err(ParseError { kind: ErrorKind::ExpectedCatch, pos });
    }
    if pos + 1 >= s.len() || !is_binder(&s[pos + 1]) {
        return Err(ParseError { kind: ErrorKind::ExpectedBinder, pos: pos + 1 });
    }
    let binder = copy_token(&s[pos + 1]);
    if pos + 2 < s.len() && s[pos + 2].is_punct(':') {
        let rest = copy_range(s, pos + 3, s.len());
        match read_type(&rest) {
            None => Err(ParseError { kind: ErrorKind::ExpectedType, pos: pos + 3 }),
            Some(len) => {
                let k = pos + 3 + len;
                if k < s.len() && s[k].is_block() {
                    let ty = copy_range(s, pos + 3, k);
                    let body = copy_token(&s[k]);
                    Ok((Catch { binder, error_type: Some(ty), body }, k + 1))
                } else {
                    Err(ParseError { kind: ErrorKind::ExpectedBlock, pos: k })
                }
            },
        }
    } else if pos + 2 < s.len() && s[pos + 2].is_block() {
        let body = copy_token(&s[pos + 2]);
        Ok((Catch { binder, error_type: None, body }, pos + 3))
    } else {
        Err(ParseError { kind: ErrorKind::ExpectedBlock, pos: pos + 2 })
    }
}

/// Reads the construct from the start of a token sequence: `try`, a block,
/// then as many catch clauses as follow. Returns the construct, the
/// position where reading stopped, and, when tokens are left there, why no
/// clause starts at it; what lies beyond is the caller's concern.
pub fn parse_try_catch(input: &Vec<Tok>) -> (r: Result<(TryCatch, usize, Option<ParseError>), ParseError>)
    ensures
        match r {
            Ok((tc, stop, leftover)) => {
                &&& parse_construct(toks_v(input@)) == Ok::<(TryCatchV, int), ParseError>(
                    (tc@, stop as int),
                )
                &&& leftover == if stop < input.len() {
                    Some(clause_at(toks_v(input@), stop as int)->Err_0)
                } else {
                    None
                }
                &&& (stop < input.len() ==> clause_at(toks_v(input@), stop as int) is Err)
            },
            Err(e) => parse_construct(toks_v(input@)) == Err::<(TryCatchV, int), ParseError>(e),
        },
{
    let ghost v = toks_v(input@);
    proof {
        lemma_toks_v_index(input@);
    }
    if input.len() == 0 || !input[0].is_word("try") {
        return Err(ParseError { kind: ErrorKind::ExpectedTry, pos: 0 });
    }
    if input.len() < 2 || !input[1].is_block() {
        return Err(ParseError { kind: ErrorKind::ExpectedBlock, pos: 1 });
    }
    let try_block = copy_token(&input[1]);
    let is_async = token_awaits(&try_block);
    let mut catches: Vec<Catch> = Vec::new();
    let mut pos: usize = 2;
    while pos < input.len()
        invariant
            2 <= pos <= input.len(),
            v == toks_v(input@),
            v.len() == input@.len(),
            v[0].is_word("try"@),
            v[1].is_block(),
            tok_v(try_block) == v[1],
            is_async == tok_awaits(v[1]),
            clauses_from(v, 2) == match clauses_from(v, pos as int) {
                Ok((rest, stop)) => Ok((catches@.map_values(|c: Catch| c@) + rest, stop)),
                Err(e) => Err::<(Seq<CatchV>, int), ParseError>(e),
            },
        decreases input.len() - pos,
    {
        let ghost prev = catches@.map_values(|c: Catch| c@);
        match parse_clause(input, pos) {
            Err(e) => {
                assert(prev + Seq::<CatchV>::empty() =~= prev);
                return Ok((TryCatch { try_block, catches, is_async }, pos, Some(e)));
            },
            Ok((c, next)) => {
                proof {
                    lemma_clause_advances(v, pos as int);
                }
                let catch_all = c.error_type.is_none();
                let mut leftover: Option<ParseError> = None;
                if catch_all && next < input.len() {
                    match parse_clause(input, next) {
                        Ok(_) => {
                            return Err(ParseError { kind: ErrorKind::CatchAllNotLast, pos: next });
                        },
                        Err(e) => {
                            leftover = Some(e);
                        },
                    }
                }
                let ghost cv = c@;
                catches.push(c);
                proof {
                    assert(catches@.map_values(|c: Catch| c@) =~= prev.push(cv));
                    assert(prev + seq![cv] =~= prev.push(cv));
                    if let Ok((rest, stop)) = clauses_from(v, next as int) {
                        assert(prev + (seq![cv] + rest) =~= prev.push(cv) + rest);
                    }
                }
                if catch_all {
                    return Ok((TryCatch { try_block, catches, is_async }, next, leftover));
                }
                pos = next;
            },
        }
    }
    proof {
        assert(catches@.map_values(|c: Catch| c@) + Seq::<CatchV>::empty() =~= catches@.map_values(
            |c: Catch| c@,
        ));
    }
    Ok((TryCatch { try_block, catches, is_async }, pos, None))
}

} // verus!
