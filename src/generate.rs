//! The code generator: the rewritten form of a construct, as tokens.
//!
//! The guarded block runs inside a closure that turns every error into a
//! `Box<dyn Error>`; the boxed error is then matched against the clauses in
//! declaration order, by runtime type. When a catch-all clause is present
//! the result is unwrapped to the bare success type.
use vstd::prelude::*;
use crate::token::{Delimiter, Site, Spacing, Tok, TokV, tok_v, toks_v, lemma_toks_v_push, lemma_toks_v_add, copy_token, copy_tokens};
use crate::syntax::{Catch, CatchV, TryCatch, TryCatchV, total, has_catch_all};

verus! {

pub open spec fn ident_v(w: Seq<char>) -> TokV {
    TokV::Ident(w, Site::CallSite)
}

/// An identifier private to the generated code.
pub open spec fn hidden_v(w: Seq<char>) -> TokV {
    TokV::Ident(w, Site::MixedSite)
}

pub open spec fn punct_v(c: char, sp: Spacing) -> TokV {
    TokV::Punct(c, sp, Site::CallSite)
}

pub open spec fn alone_v(c: char) -> TokV {
    punct_v(c, Spacing::Alone)
}

pub open spec fn group_v(d: Delimiter, s: Seq<TokV>) -> TokV {
    TokV::Group(d, s, Site::CallSite)
}

pub open spec fn block_name() -> Seq<char> {
    "__try_catch_block"@
}

pub open spec fn error_name() -> Seq<char> {
    "__try_catch_error"@
}

/// `::`
pub open spec fn colons_v() -> Seq<TokV> {
    seq![punct_v(':', Spacing::Joint), alone_v(':')]
}

/// `=>`
pub open spec fn arrow_v() -> Seq<TokV> {
    seq![punct_v('=', Spacing::Joint), alone_v('>')]
}

/// `::std::<module>::<item>`
pub open spec fn std_path_v(module: Seq<char>, item: Seq<char>) -> Seq<TokV> {
    colons_v() + seq![ident_v("std"@)] + colons_v() + seq![ident_v(module)] + colons_v() + seq![
        ident_v(item),
    ]
}

/// `::std::result::Result::<variant>`
pub open spec fn result_variant_v(variant: Seq<char>) -> Seq<TokV> {
    std_path_v("result"@, "Result"@) + colons_v() + seq![ident_v(variant)]
}

/// `::std::result::Result<_, ::std::boxed::Box<dyn ::std::error::Error>>`
pub open spec fn result_type_v() -> Seq<TokV> {
    std_path_v("result"@, "Result"@) + seq![alone_v('<'), ident_v("_"@), alone_v(',')] + std_path_v(
        "boxed"@,
        "Box"@,
    ) + seq![alone_v('<'), ident_v("dyn"@)] + std_path_v("error"@, "Error"@) + seq![
        punct_v('>', Spacing::Joint),
        alone_v('>'),
    ]
}

/// `::std::result::Result::Ok(<block>)`
pub open spec fn ok_of_v(block: TokV) -> Seq<TokV> {
    result_variant_v("Ok"@) + seq![group_v(Delimiter::Parenthesis, seq![block])]
}

/// The execution wrapper, called at once: `(|| Ok(<try block>))()`, or
/// `(|| async { Ok(<try block>) })().await` when the block suspends.
pub open spec fn wrapper_v(tc: TryCatchV) -> Seq<TokV> {
    if tc.is_async {
        seq![
            group_v(
                Delimiter::Parenthesis,
                seq![
                    punct_v('|', Spacing::Joint),
                    alone_v('|'),
                    ident_v("async"@),
                    group_v(Delimiter::Brace, ok_of_v(tc.try_block)),
                ],
            ),
            group_v(Delimiter::Parenthesis, Seq::empty()),
            alone_v('.'),
            ident_v("await"@),
        ]
    } else {
        seq![
            group_v(
                Delimiter::Parenthesis,
                seq![punct_v('|', Spacing::Joint), alone_v('|')] + ok_of_v(tc.try_block),
            ),
            group_v(Delimiter::Parenthesis, Seq::empty()),
        ]
    }
}

/// `let __try_catch_block: <result type> = <wrapper>;`
pub open spec fn binding_v(tc: TryCatchV) -> Seq<TokV> {
    seq![ident_v("let"@), hidden_v(block_name()), alone_v(':')] + result_type_v() + seq![
        alone_v('='),
    ] + wrapper_v(tc) + seq![alone_v(';')]
}

/// `::<T>()`
pub open spec fn turbofish_call_v(ty: Seq<TokV>) -> Seq<TokV> {
    colons_v() + seq![alone_v('<')] + ty + seq![
        alone_v('>'),
        group_v(Delimiter::Parenthesis, Seq::empty()),
    ]
}

/// The guard of a typed clause, `if __try_catch_error.is::<T>()`; nothing
/// for a catch-all.
pub open spec fn guard_v(c: CatchV) -> Seq<TokV> {
    match c.error_type {
        Some(ty) => seq![ident_v("if"@), hidden_v(error_name()), alone_v('.'), ident_v("is"@)]
            + turbofish_call_v(ty),
        None => Seq::empty(),
    }
}

/// What the binder is bound to: the error downcast to the clause's type, or
/// the boxed error itself for a catch-all.
pub open spec fn bound_v(c: CatchV) -> Seq<TokV> {
    match c.error_type {
        Some(ty) => seq![hidden_v(error_name()), alone_v('.'), ident_v("downcast"@)]
            + turbofish_call_v(ty) + seq![
            alone_v('.'),
            ident_v("unwrap"@),
            group_v(Delimiter::Parenthesis, Seq::empty()),
        ],
        None => seq![hidden_v(error_name())],
    }
}

/// `let <binder> = <bound>; ::std::result::Result::Ok(<body>)`
pub open spec fn recovery_v(c: CatchV) -> Seq<TokV> {
    seq![ident_v("let"@), c.binder, alone_v('=')] + bound_v(c) + seq![alone_v(';')] + ok_of_v(
        c.body,
    )
}

/// One match arm: `_ <guard> => { <recovery> }`.
pub open spec fn arm_v(c: CatchV) -> Seq<TokV> {
    seq![ident_v("_"@)] + guard_v(c) + arrow_v() + seq![group_v(Delimiter::Brace, recovery_v(c))]
}

/// The arms of the clauses, in declaration order.
pub open spec fn arms_v(cs: Seq<CatchV>) -> Seq<TokV>
    decreases cs.len(),
{
    if cs.len() == 0 {
        Seq::empty()
    } else {
        arms_v(cs.subrange(0, cs.len() - 1)) + arm_v(cs[cs.len() - 1])
    }
}

/// The last arm, which hands the error on: `_ => { ::std::result::Result::Err(__try_catch_error) }`.
pub open spec fn final_arm_v() -> Seq<TokV> {
    seq![ident_v("_"@)] + arrow_v() + seq![
        group_v(
            Delimiter::Brace,
            result_variant_v("Err"@) + seq![
                group_v(Delimiter::Parenthesis, seq![hidden_v(error_name())]),
            ],
        ),
    ]
}

/// `if let Err(__try_catch_error) = __try_catch_block { match () { <arms> } } else { __try_catch_block }`
pub open spec fn dispatch_v(tc: TryCatchV) -> Seq<TokV> {
    seq![ident_v("if"@), ident_v("let"@)] + result_variant_v("Err"@) + seq![
        group_v(Delimiter::Parenthesis, seq![hidden_v(error_name())]),
        alone_v('='),
        hidden_v(block_name()),
        group_v(
            Delimiter::Brace,
            seq![
                ident_v("match"@),
                group_v(Delimiter::Parenthesis, Seq::empty()),
                group_v(Delimiter::Brace, arms_v(tc.catches) + final_arm_v()),
            ],
        ),
        ident_v("else"@),
        group_v(Delimiter::Brace, seq![hidden_v(block_name())]),
    ]
}

/// `.ok().unwrap()`
pub open spec fn unwrap_suffix_v() -> Seq<TokV> {
    seq![
        alone_v('.'),
        ident_v("ok"@),
        group_v(Delimiter::Parenthesis, Seq::empty()),
        alone_v('.'),
        ident_v("unwrap"@),
        group_v(Delimiter::Parenthesis, Seq::empty()),
    ]
}

/// The whole rewritten form: one block holding the binding and the
/// dispatch, unwrapped when a catch-all makes the construct total.
pub open spec fn expansion_v(tc: TryCatchV) -> Seq<TokV> {
    seq![
        group_v(
            Delimiter::Brace,
            binding_v(tc) + dispatch_v(tc) + if total(tc) {
                unwrap_suffix_v()
            } else {
                Seq::empty()
            },
        ),
    ]
}

fn ident(w: &str) -> (r: Tok)
    ensures
        tok_v(r) == ident_v(w@),
{
    Tok::Ident { name: String::from_str(w), site: Site::CallSite }
}

fn hidden_ident(w: &str) -> (r: Tok)
    ensures
        tok_v(r) == hidden_v(w@),
{
    Tok::Ident { name: String::from_str(w), site: Site::MixedSite }
}

fn punct(c: char, spacing: Spacing) -> (r: Tok)
    ensures
        tok_v(r) == punct_v(c, spacing),
{
    Tok::Punct { ch: c, spacing, site: Site::CallSite }
}

fn group(delimiter: Delimiter, stream: Vec<Tok>) -> (r: Tok)
    ensures
        tok_v(r) == group_v(delimiter, toks_v(stream@)),
{
    Tok::Group { delimiter, stream, site: Site::CallSite }
}

fn put(out: &mut Vec<Tok>, t: Tok)
    ensures
        toks_v(final(out)@) == toks_v(old(out)@).push(tok_v(t)),
{
    proof {
        lemma_toks_v_push(out@, t);
    }
    out.push(t);
}

fn put_all(out: &mut Vec<Tok>, v: Vec<Tok>)
    ensures
        toks_v(final(out)@) == toks_v(old(out)@) + toks_v(v@),
{
    let mut v = v;
    proof {
        lemma_toks_v_add(out@, v@);
    }
    out.append(&mut v);
}

fn emit_colons(out: &mut Vec<Tok>)
    ensures
        toks_v(final(out)@) == toks_v(old(out)@) + colons_v(),
{
    let ghost o = toks_v(out@);
    put(out, punct(':', Spacing::Joint));
    put(out, punct(':', Spacing::Alone));
    assert(toks_v(out@) =~= o + colons_v());
}

fn emit_arrow(out: &mut Vec<Tok>)
    ensures
        toks_v(final(out)@) == toks_v(old(out)@) + arrow_v(),
{
    let ghost o = toks_v(out@);
    put(out, punct('=', Spacing::Joint));
    put(out, punct('>', Spacing::Alone));
    assert(toks_v(out@) =~= o + arrow_v());
}

fn emit_std_path(out: &mut Vec<Tok>, module: &str, item: &str)
    ensures
        toks_v(final(out)@) == toks_v(old(out)@) + std_path_v(module@, item@),
{
    let ghost o = toks_v(out@);
    emit_colons(out);
    put(out, ident("std"));
    emit_colons(out);
    put(out, ident(module));
    emit_colons(out);
    put(out, ident(item));
    assert(toks_v(out@) =~= o + std_path_v(module@, item@));
}

fn emit_result_variant(out: &mut Vec<Tok>, variant: &str)
    ensures
        toks_v(final(out)@) == toks_v(old(out)@) + result_variant_v(variant@),
{
    let ghost o = toks_v(out@);
    emit_std_path(out, "result", "Result");
    emit_colons(out);
    put(out, ident(variant));
    assert(toks_v(out@) =~= o + result_variant_v(variant@));
}

fn emit_result_type(out: &mut Vec<Tok>)
    ensures
        toks_v(final(out)@) == toks_v(old(out)@) + result_type_v(),
{
    let ghost o = toks_v(out@);
    emit_std_path(out, "result", "Result");
    put(out, punct('<', Spacing::Alone));
    put(out, ident("_"));
    put(out, punct(',', Spacing::Alone));
    emit_std_path(out, "boxed", "Box");
    put(out, punct('<', Spacing::Alone));
    put(out, ident("dyn"));
    emit_std_path(out, "error", "Error");
    put(out, punct('>', Spacing::Joint));
    put(out, punct('>', Spacing::Alone));
    assert(toks_v(out@) =~= o + result_type_v());
}

fn emit_ok_of(out: &mut Vec<Tok>, block: Tok)
    ensures
        toks_v(final(out)@) == toks_v(old(out)@) + ok_of_v(tok_v(block)),
{
    let ghost o = toks_v(out@);
    let ghost b = tok_v(block);
    emit_result_variant(out, "Ok");
    let mut inner: Vec<Tok> = Vec::new();
    put(&mut inner, block);
    put(out, group(Delimiter::Parenthesis, inner));
    assert(toks_v(out@) =~= o + ok_of_v(b));
}

fn emit_wrapper(out: &mut Vec<Tok>, tc: &TryCatch)
    ensures
        toks_v(final(out)@) == toks_v(old(out)@) + wrapper_v(tc@),
{
    let ghost o = toks_v(out@);
    let mut closure: Vec<Tok> = Vec::new();
    put(&mut closure, punct('|', Spacing::Joint));
    put(&mut closure, punct('|', Spacing::Alone));
    if tc.is_async {
        put(&mut closure, ident("async"));
        let mut body: Vec<Tok> = Vec::new();
        emit_ok_of(&mut body, copy_token(&tc.try_block));
        put(&mut closure, group(Delimiter::Brace, body));
        assert(toks_v(closure@) =~= seq![
            punct_v('|', Spacing::Joint),
            alone_v('|'),
            ident_v("async"@),
            group_v(Delimiter::Brace, ok_of_v(tc@.try_block)),
        ]);
        put(out, group(Delimiter::Parenthesis, closure));
        put(out, group(Delimiter::Parenthesis, Vec::new()));
        put(out, punct('.', Spacing::Alone));
        put(out, ident("await"));
    } else {
        emit_ok_of(&mut closure, copy_token(&tc.try_block));
        assert(toks_v(closure@) =~= seq![punct_v('|', Spacing::Joint), alone_v('|')] + ok_of_v(
            tc@.try_block,
        ));
        put(out, group(Delimiter::Parenthesis, closure));
        put(out, group(Delimiter::Parenthesis, Vec::new()));
    }
    assert(toks_v(out@) =~= o + wrapper_v(tc@));
}

fn emit_binding(out: &mut Vec<Tok>, tc: &TryCatch)
    ensures
        toks_v(final(out)@) == toks_v(old(out)@) + binding_v(tc@),
{
    let ghost o = toks_v(out@);
    put(out, ident("let"));
    put(out, hidden_ident("__try_catch_block"));
    put(out, punct(':', Spacing::Alone));
    emit_result_type(out);
    put(out, punct('=', Spacing::Alone));
    emit_wrapper(out, tc);
    put(out, punct(';', Spacing::Alone));
    assert(toks_v(out@) =~= o + binding_v(tc@));
}

fn emit_turbofish_call(out: &mut Vec<Tok>, ty: &Vec<Tok>)
    ensures
        toks_v(final(out)@) == toks_v(old(out)@) + turbofish_call_v(toks_v(ty@)),
{
    let ghost o = toks_v(out@);
    emit_colons(out);
    put(out, punct('<', Spacing::Alone));
    put_all(out, copy_tokens(ty));
    put(out, punct('>', Spacing::Alone));
    put(out, group(Delimiter::Parenthesis, Vec::new()));
    assert(toks_v(out@) =~= o + turbofish_call_v(toks_v(ty@)));
}

fn emit_arm(out: &mut Vec<Tok>, c: &Catch)
    ensures
        toks_v(final(out)@) == toks_v(old(out)@) + arm_v(c@),
{
    let ghost o = toks_v(out@);
    put(out, ident("_"));
    let mut recovery: Vec<Tok> = Vec::new();
    put(&mut recovery, ident("let"));
    put(&mut recovery, copy_token(&c.binder));
    put(&mut recovery, punct('=', Spacing::Alone));
    match &c.error_type {
        Some(ty) => {
            put(out, ident("if"));
            put(out, hidden_ident("__try_catch_error"));
            put(out, punct('.', Spacing::Alone));
            put(out, ident("is"));
            emit_turbofish_call(out, ty);
            put(&mut recovery, hidden_ident("__try_catch_error"));
            put(&mut recovery, punct('.', Spacing::Alone));
            put(&mut recovery, ident("downcast"));
            emit_turbofish_call(&mut recovery, ty);
            put(&mut recovery, punct('.', Spacing::Alone));
            put(&mut recovery, ident("unwrap"));
            put(&mut recovery, group(Delimiter::Parenthesis, Vec::new()));
        },
        None => {
            put(&mut recovery, hidden_ident("__try_catch_error"));
        },
    }
    put(&mut recovery, punct(';', Spacing::Alone));
    emit_ok_of(&mut recovery, copy_token(&c.body));
    assert(toks_v(recovery@) =~= recovery_v(c@));
    emit_arrow(out);
    put(out, group(Delimiter::Brace, recovery));
    assert(toks_v(out@) =~= o + arm_v(c@));
}

fn emit_final_arm(out: &mut Vec<Tok>)
    ensures
        toks_v(final(out)@) == toks_v(old(out)@) + final_arm_v(),
{
    let ghost o = toks_v(out@);
    put(out, ident("_"));
    emit_arrow(out);
    let mut body: Vec<Tok> = Vec::new();
    emit_result_variant(&mut body, "Err");
    let mut err: Vec<Tok> = Vec::new();
    put(&mut err, hidden_ident("__try_catch_error"));
    assert(toks_v(err@) =~= seq![hidden_v(error_name())]);
    put(&mut body, group(Delimiter::Parenthesis, err));
    assert(toks_v(body@) =~= result_variant_v("Err"@) + seq![
        group_v(Delimiter::Parenthesis, seq![hidden_v(error_name())]),
    ]);
    put(out, group(Delimiter::Brace, body));
    assert(toks_v(out@) =~= o + final_arm_v());
}

fn emit_arms(out: &mut Vec<Tok>, cs: &Vec<Catch>)
    ensures
        toks_v(final(out)@) == toks_v(old(out)@) + arms_v(cs@.map_values(|c: Catch| c@)),
{
    let ghost o = toks_v(out@);
    let ghost vs = cs@.map_values(|c: Catch| c@);
    let mut i: usize = 0;
    while i < cs.len()
        invariant
            i <= cs.len(),
            vs == cs@.map_values(|c: Catch| c@),
            toks_v(out@) == o + arms_v(vs.subrange(0, i as int)),
        decreases cs.len() - i,
    {
        emit_arm(out, &cs[i]);
        proof {
            assert(vs.subrange(0, i + 1).subrange(0, i as int) =~= vs.subrange(0, i as int));
            assert(o + arms_v(vs.subrange(0, i as int)) + arm_v(vs[i as int]) =~= o + arms_v(
                vs.subrange(0, i + 1),
            ));
        }
        i = i + 1;
    }
    assert(vs.subrange(0, i as int) =~= vs);
}

fn emit_dispatch(out: &mut Vec<Tok>, tc: &TryCatch)
    ensures
        toks_v(final(out)@) == toks_v(old(out)@) + dispatch_v(tc@),
{
    let ghost o = toks_v(out@);
    put(out, ident("if"));
    put(out, ident("let"));
    emit_result_variant(out, "Err");
    let mut err: Vec<Tok> = Vec::new();
    put(&mut err, hidden_ident("__try_catch_error"));
    assert(toks_v(err@) =~= seq![hidden_v(error_name())]);
    put(out, group(Delimiter::Parenthesis, err));
    put(out, punct('=', Spacing::Alone));
    put(out, hidden_ident("__try_catch_block"));
    let mut arms: Vec<Tok> = Vec::new();
    emit_arms(&mut arms, &tc.catches);
    emit_final_arm(&mut arms);
    let mut matching: Vec<Tok> = Vec::new();
    put(&mut matching, ident("match"));
    put(&mut matching, group(Delimiter::Parenthesis, Vec::new()));
    put(&mut matching, group(Delimiter::Brace, arms));
    assert(toks_v(matching@) =~= seq![
        ident_v("match"@),
        group_v(Delimiter::Parenthesis, Seq::empty()),
        group_v(Delimiter::Brace, arms_v(tc@.catches) + final_arm_v()),
    ]);
    put(out, group(Delimiter::Brace, matching));
    put(out, ident("else"));
    let mut fallback: Vec<Tok> = Vec::new();
    put(&mut fallback, hidden_ident("__try_catch_block"));
    assert(toks_v(fallback@) =~= seq![hidden_v(block_name())]);
    put(out, group(Delimiter::Brace, fallback));
    assert(toks_v(out@) =~= o + dispatch_v(tc@));
}

fn emit_unwrap_suffix(out: &mut Vec<Tok>)
    ensures
        toks_v(final(out)@) == toks_v(old(out)@) + unwrap_suffix_v(),
{
    let ghost o = toks_v(out@);
    put(out, punct('.', Spacing::Alone));
    put(out, ident("ok"));
    put(out, group(Delimiter::Parenthesis, Vec::new()));
    put(out, punct('.', Spacing::Alone));
    put(out, ident("unwrap"));
    put(out, group(Delimiter::Parenthesis, Vec::new()));
    assert(toks_v(out@) =~= o + unwrap_suffix_v());
}

/// The rewritten form of a construct.
pub fn template(tc: &TryCatch) -> (r: Vec<Tok>)
    ensures
        toks_v(r@) == expansion_v(tc@),
{
    let mut body: Vec<Tok> = Vec::new();
    emit_binding(&mut body, tc);
    emit_dispatch(&mut body, tc);
    if has_catch_all(tc) {
        emit_unwrap_suffix(&mut body);
    }
    assert(toks_v(body@) =~= binding_v(tc@) + dispatch_v(tc@) + if total(tc@) {
        unwrap_suffix_v()
    } else {
        Seq::empty()
    });
    let mut r: Vec<Tok> = Vec::new();
    put(&mut r, group(Delimiter::Brace, body));
    assert(toks_v(r@) =~= expansion_v(tc@));
    r
}

} // verus!
