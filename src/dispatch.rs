//! What the rewritten code does at run time, as a model: the guarded block
//! either yields a value or fails with an error of some runtime type; the
//! clauses are tried in declaration order and the first whose type is the
//! error's own (or a catch-all) recovers it.
use vstd::prelude::*;
use crate::syntax::{CatchV, TryCatchV, total, well_formed};
use crate::generate::{arm_v, arms_v, binding_v, dispatch_v, expansion_v, final_arm_v, group_v, unwrap_suffix_v};
use crate::token::{Delimiter, TokV};

verus! {

/// What a clause accepts: errors of one runtime type, or any error.
#[derive(Clone, Copy, Debug, PartialEq, Eq, Structural)]
pub enum Matcher {
    Typed(u64),
    Any,
}

/// A type-erased error: the identity of its runtime type and its payload.
#[derive(Clone, Copy, Debug, PartialEq, Eq, Structural)]
pub struct DynError {
    pub type_tag: u64,
    pub payload: u64,
}

/// How the guarded block ended.
#[derive(Clone, Copy, Debug, PartialEq, Eq, Structural)]
pub enum Outcome {
    Success(u64),
    Failure(DynError),
}

/// How the construct ends: the block's own value, the clause that recovered
/// the error (with the error it was handed), or the error handed on.
#[derive(Clone, Copy, Debug, PartialEq, Eq, Structural)]
pub enum Resolution {
    Value(u64),
    Recovered { clause: usize, error: DynError },
    Propagated(DynError),
}

pub open spec fn accepts(m: Matcher, e: DynError) -> bool {
    match m {
        Matcher::Typed(t) => t == e.type_tag,
        Matcher::Any => true,
    }
}

/// The first clause at or after `i` that accepts `e`.
pub open spec fn first_accepting(ms: Seq<Matcher>, e: DynError, i: int) -> Option<int>
    decreases ms.len() - i,
{
    if i < 0 || i >= ms.len() {
        None
    } else if accepts(ms[i], e) {
        Some(i)
    } else {
        first_accepting(ms, e, i + 1)
    }
}

pub open spec fn resolution(ms: Seq<Matcher>, o: Outcome) -> Resolution {
    match o {
        Outcome::Success(v) => Resolution::Value(v),
        Outcome::Failure(e) => match first_accepting(ms, e, 0) {
            Some(i) => Resolution::Recovered { clause: i as usize, error: e },
            None => Resolution::Propagated(e),
        },
    }
}

/// Runs the dispatch chain on an outcome.
pub fn resolve(ms: &Vec<Matcher>, o: Outcome) -> (r: Resolution)
    ensures
        r == resolution(ms@, o),
{
    match o {
        Outcome::Success(v) => Resolution::Value(v),
        Outcome::Failure(e) => {
            let mut i: usize = 0;
            while i < ms.len()
                invariant
                    i <= ms.len(),
                    o == Outcome::Failure(e),
                    first_accepting(ms@, e, 0) == first_accepting(ms@, e, i as int),
                decreases ms.len() - i,
            {
                let hit = match ms[i] {
                    Matcher::Typed(t) => t == e.type_tag,
                    Matcher::Any => true,
                };
                if hit {
                    return Resolution::Recovered { clause: i, error: e };
                }
                i = i + 1;
            }
            Resolution::Propagated(e)
        },
    }
}

/// The matchers of a construct's clauses, in declaration order, given the
/// runtime type tag that each declared type stands for.
pub open spec fn matchers_of(cs: Seq<CatchV>, tag_of: spec_fn(Seq<TokV>) -> u64) -> Seq<Matcher> {
    Seq::new(
        cs.len(),
        |i: int|
            match cs[i].error_type {
                Some(ty) => Matcher::Typed(tag_of(ty)),
                None => Matcher::Any,
            },
    )
}

proof fn lemma_arms_add(a: Seq<CatchV>, b: Seq<CatchV>)
    ensures
        arms_v(a + b) == arms_v(a) + arms_v(b),
    decreases b.len(),
{
    if b.len() == 0 {
        assert(a + b =~= a);
        assert(arms_v(a) + Seq::<TokV>::empty() =~= arms_v(a));
    } else {
        let b0 = b.subrange(0, b.len() - 1);
        lemma_arms_add(a, b0);
        assert((a + b).subrange(0, (a + b).len() - 1) =~= a + b0);
        assert((a + b)[(a + b).len() - 1] == b[b.len() - 1]);
        assert(arms_v(a) + arms_v(b0) + arm_v(b[b.len() - 1]) =~= arms_v(a) + (arms_v(b0) + arm_v(
            b[b.len() - 1],
        )));
    }
}

/// The dispatch chain has one arm per clause, in declaration order: clause
/// `i`'s arm stands after the arms of the clauses before it and before the
/// arms of those after it, and it is guarded exactly as `i`'s matcher says
/// (a catch-all has no guard, a typed clause is tested against its type).
pub proof fn lemma_arms_follow_clauses(
    cs: Seq<CatchV>,
    tag_of: spec_fn(Seq<TokV>) -> u64,
    i: int,
)
    requires
        0 <= i < cs.len(),
    ensures
        arms_v(cs) == arms_v(cs.subrange(0, i)) + arm_v(cs[i]) + arms_v(
            cs.subrange(i + 1, cs.len() as int),
        ),
        matchers_of(cs, tag_of).len() == cs.len(),
        matchers_of(cs, tag_of)[i] == match cs[i].error_type {
            Some(ty) => Matcher::Typed(tag_of(ty)),
            None => Matcher::Any,
        },
{
    let a = cs.subrange(0, i);
    let b = cs.subrange(i + 1, cs.len() as int);
    assert(cs =~= a.push(cs[i]) + b);
    lemma_arms_add(a.push(cs[i]), b);
    assert(a.push(cs[i]).subrange(0, i) =~= a);
}

proof fn lemma_first_accepting_skips(ms: Seq<Matcher>, e: DynError, i: int, k: int)
    requires
        0 <= i <= k <= ms.len(),
        forall|j: int| i <= j < k ==> !accepts(#[trigger] ms[j], e),
    ensures
        first_accepting(ms, e, i) == first_accepting(ms, e, k),
    decreases k - i,
{
    if i < k {
        lemma_first_accepting_skips(ms, e, i + 1, k);
    }
}

/// With no clauses, the construct ends as its block did: a value stays that
/// value, an error is handed on unchanged.
pub proof fn lemma_no_clauses_pass_through(o: Outcome)
    ensures
        resolution(Seq::empty(), o) == match o {
            Outcome::Success(v) => Resolution::Value(v),
            Outcome::Failure(e) => Resolution::Propagated(e),
        },
{
}

/// With no clauses, the rewritten form keeps the fallible result type and
/// its dispatch holds only the arm that hands the error on.
pub proof fn lemma_no_clauses_fallible(tc: TryCatchV)
    requires
        tc.catches.len() == 0,
    ensures
        !total(tc),
        arms_v(tc.catches) + final_arm_v() == final_arm_v(),
        expansion_v(tc) == seq![group_v(Delimiter::Brace, binding_v(tc) + dispatch_v(tc))],
{
    assert(Seq::<TokV>::empty() + final_arm_v() =~= final_arm_v());
    assert(binding_v(tc) + dispatch_v(tc) + Seq::<TokV>::empty() =~= binding_v(tc) + dispatch_v(tc));
}

/// A construct whose last clause is a catch-all never hands an error on,
/// whatever the block did.
pub proof fn lemma_catch_all_never_propagates(ms: Seq<Matcher>, o: Outcome)
    requires
        ms.len() > 0,
        ms[ms.len() - 1] == Matcher::Any,
    ensures
        !(resolution(ms, o) is Propagated),
{
    if let Outcome::Failure(e) = o {
        lemma_catch_all_reached(ms, e, 0);
    }
}

proof fn lemma_catch_all_reached(ms: Seq<Matcher>, e: DynError, i: int)
    requires
        0 <= i < ms.len(),
        ms[ms.len() - 1] == Matcher::Any,
    ensures
        first_accepting(ms, e, i) is Some,
    decreases ms.len() - i,
{
    if !accepts(ms[i], e) {
        lemma_catch_all_reached(ms, e, i + 1);
    }
}

/// A construct with a catch-all clause is rewritten to the bare success
/// type: its result is unwrapped.
pub proof fn lemma_catch_all_bare(tc: TryCatchV)
    requires
        well_formed(tc),
        tc.catches.len() == 1,
        tc.catches[0].error_type is None,
    ensures
        total(tc),
        expansion_v(tc) == seq![
            group_v(Delimiter::Brace, binding_v(tc) + dispatch_v(tc) + unwrap_suffix_v()),
        ],
{
    assert(tc.catches[0].error_type is None);
}

/// With typed clauses only, an error whose type is first declared by clause
/// `i` is recovered by clause `i` and by no other, even when later clauses
/// declare the same type.
pub proof fn lemma_first_match_wins(ms: Seq<Matcher>, e: DynError, i: int)
    requires
        forall|j: int| 0 <= j < ms.len() ==> (#[trigger] ms[j]) is Typed,
        0 <= i < ms.len(),
        ms[i] == Matcher::Typed(e.type_tag),
        forall|j: int| 0 <= j < i ==> #[trigger] ms[j] != Matcher::Typed(e.type_tag),
    ensures
        resolution(ms, Outcome::Failure(e)) == (Resolution::Recovered { clause: i as usize, error: e }),
{
    lemma_first_accepting_skips(ms, e, 0, i);
}

/// With typed clauses only, an error whose type none of them declares is
/// handed on unchanged.
pub proof fn lemma_unmatched_propagates(ms: Seq<Matcher>, e: DynError)
    requires
        forall|j: int| 0 <= j < ms.len() ==> (#[trigger] ms[j]) is Typed,
        forall|j: int| 0 <= j < ms.len() ==> #[trigger] ms[j] != Matcher::Typed(e.type_tag),
    ensures
        resolution(ms, Outcome::Failure(e)) == Resolution::Propagated(e),
{
    lemma_first_accepting_skips(ms, e, 0, ms.len() as int);
}

} // verus!
