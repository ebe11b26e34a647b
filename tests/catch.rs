use proc_macro2::{Delimiter as PmDelimiter, Spacing as PmSpacing, TokenStream, TokenTree};
use try_catch::dispatch::{resolve, DynError, Matcher, Outcome, Resolution};
use try_catch::syntax::{has_catch_all, is_async, parse_try_catch};
use try_catch::types::read_type;
use try_catch::{catch, Delimiter, ErrorKind, Site, Spacing, Tok};

fn import(stream: TokenStream, next: &mut u64) -> Vec<Tok> {
    let mut out = Vec::new();
    for tree in stream {
        let site = Site::Source(*next);
        *next += 1;
        out.push(match tree {
            TokenTree::Ident(i) => Tok::Ident { name: i.to_string(), site },
            TokenTree::Punct(p) => Tok::Punct {
                ch: p.as_char(),
                spacing: if p.spacing() == PmSpacing::Joint { Spacing::Joint } else { Spacing::Alone },
                site,
            },
            TokenTree::Literal(l) => Tok::Literal { text: l.to_string(), site },
            TokenTree::Group(g) => {
                let delimiter = match g.delimiter() {
                    PmDelimiter::Parenthesis => Delimiter::Parenthesis,
                    PmDelimiter::Brace => Delimiter::Brace,
                    PmDelimiter::Bracket => Delimiter::Bracket,
                    PmDelimiter::None => Delimiter::Invisible,
                };
                Tok::Group { delimiter, stream: import(g.stream(), next), site }
            }
        });
    }
    out
}

fn lex(src: &str) -> Vec<Tok> {
    let mut next = 0;
    import(src.parse().unwrap(), &mut next)
}

fn render(toks: &[Tok]) -> String {
    let mut s = String::new();
    for t in toks {
        match t {
            Tok::Ident { name, .. } => {
                s.push_str(name);
                s.push(' ');
            }
            Tok::Punct { ch, spacing, .. } => {
                s.push(*ch);
                if *spacing == Spacing::Alone {
                    s.push(' ');
                }
            }
            Tok::Literal { text, .. } => {
                s.push_str(text);
                s.push(' ');
            }
            Tok::Group { delimiter, stream, .. } => {
                let (open, close) = match delimiter {
                    Delimiter::Parenthesis => ("( ", ") "),
                    Delimiter::Brace => ("{ ", "} "),
                    Delimiter::Bracket => ("[ ", "] "),
                    Delimiter::Invisible => ("", ""),
                };
                s.push_str(open);
                s.push_str(&render(stream));
                s.push_str(close);
            }
        }
    }
    s
}

fn expand(src: &str) -> String {
    render(&catch(lex(src)).unwrap())
}

fn error_of(src: &str) -> (ErrorKind, usize) {
    let e = catch(lex(src)).unwrap_err();
    (e.kind, e.pos)
}

#[test]
fn reads_typed_and_catch_all_clauses() {
    let tc = parse_try_catch(&lex(
        "try { let n: i32 = \"10\".parse()?; n } catch error: io::Error { 1 } catch json: Vec<u8> { 2 } catch err { 3 }",
    ))
    .unwrap().0;
    assert_eq!(tc.catches.len(), 3);
    assert_eq!(render(tc.catches[0].error_type.as_ref().unwrap()), "io :: Error ");
    assert_eq!(render(tc.catches[1].error_type.as_ref().unwrap()), "Vec < u8 > ");
    assert!(tc.catches[2].error_type.is_none());
    assert_eq!(render(std::slice::from_ref(&tc.catches[2].body)), "{ 3 } ");
    assert!(!tc.is_async);
    assert!(has_catch_all(&tc));
}

#[test]
fn reading_stops_where_no_clause_starts() {
    let (tc, stop, _) = parse_try_catch(&lex("try { 1 } catch e: E { 2 } ; rest")).unwrap();
    assert_eq!(tc.catches.len(), 1);
    assert_eq!(stop, 7);
    let (tc, stop, _) = parse_try_catch(&lex("try { 1 } catch e { 2 } tail")).unwrap();
    assert_eq!(tc.catches.len(), 1);
    assert_eq!(stop, 5);
}

#[test]
fn leftover_reason_is_reported() {
    let (_, stop, leftover) = parse_try_catch(&lex("try { 1 } catch e: E { 2 } ; rest")).unwrap();
    assert_eq!(stop, 7);
    assert_eq!(leftover.map(|e| e.kind), Some(ErrorKind::ExpectedCatch));
    let (_, _, leftover) = parse_try_catch(&lex("try { 1 } catch e: E { 2 }")).unwrap();
    assert!(leftover.is_none());
}

#[test]
fn types_are_read_by_syn() {
    assert_eq!(read_type(&lex("io::Error { 0 }")), Some(4));
    assert_eq!(read_type(&lex("Vec<u8> rest")), Some(4));
    assert_eq!(read_type(&lex("5 { 0 }")), None);
    assert_eq!(read_type(&lex("")), None);
}

#[test]
fn invisible_group_around_a_block_is_a_block() {
    let inner = lex("{ 1 }");
    let wrapped = Tok::Group { delimiter: Delimiter::Invisible, stream: inner, site: Site::CallSite };
    let mut input = lex("try");
    input.push(wrapped);
    let tc = parse_try_catch(&input).unwrap().0;
    assert!(tc.catches.is_empty());
    let not_block = Tok::Group { delimiter: Delimiter::Invisible, stream: lex("1"), site: Site::CallSite };
    let mut input = lex("try");
    input.push(not_block);
    assert_eq!(catch(input).unwrap_err().kind, ErrorKind::ExpectedBlock);
}

#[test]
fn type_with_block_inside_angle_brackets() {
    let tc = parse_try_catch(&lex("try { f()? } catch e: Foo<{ N }> { 0 }")).unwrap().0;
    assert_eq!(render(tc.catches[0].error_type.as_ref().unwrap()), "Foo < { N } > ");
    let tc = parse_try_catch(&lex("try { f()? } catch e: Box<dyn Fn() -> Foo<{ N }>> { 0 }")).unwrap().0;
    assert_eq!(
        render(tc.catches[0].error_type.as_ref().unwrap()),
        "Box < dyn Fn ( ) -> Foo < { N } >> "
    );
}

#[test]
fn zero_clauses_keep_the_fallible_result() {
    assert_eq!(
        expand("try { 1 }"),
        "{ let __try_catch_block : :: std :: result :: Result < _ , :: std :: boxed :: Box < dyn :: std :: error :: Error >> = \
( || :: std :: result :: Result :: Ok ( { 1 } ) ) ( ) ; \
if let :: std :: result :: Result :: Err ( __try_catch_error ) = __try_catch_block \
{ match ( ) { _ => { :: std :: result :: Result :: Err ( __try_catch_error ) } } } \
else { __try_catch_block } } "
    );
    let tc = parse_try_catch(&lex("try { 1 }")).unwrap().0;
    assert!(!has_catch_all(&tc));
}

#[test]
fn catch_all_unwraps_to_the_bare_type() {
    let out = expand("try { let number: i32 = \"10\".parse()?; number } catch error { 0 }");
    assert!(out.ends_with("else { __try_catch_block } . ok ( ) . unwrap ( ) } "));
    assert!(out.contains("_ => { let error = __try_catch_error ; :: std :: result :: Result :: Ok ( { 0 } ) }"));
}

#[test]
fn typed_clause_downcasts() {
    let out = expand("try { read()? } catch e: io::Error { 0 }");
    assert!(out.contains(
        "_ if __try_catch_error . is :: < io :: Error > ( ) => { let e = __try_catch_error . downcast :: < io :: Error > ( ) . unwrap ( ) ; :: std :: result :: Result :: Ok ( { 0 } ) }"
    ));
    assert!(!out.contains(". ok ( ) . unwrap ( )"));
}

#[test]
fn clauses_keep_declaration_order() {
    let out = expand("try { g()? } catch a: A { 1 } catch b: B { 2 } catch c { 3 }");
    let ia = out.find("is :: < A >").unwrap();
    let ib = out.find("is :: < B >").unwrap();
    let ic = out.find("let c = __try_catch_error ;").unwrap();
    assert!(ia < ib && ib < ic);
}

#[test]
fn hidden_names_are_private_to_the_expansion() {
    let out = catch(lex("try { 1 } catch e { 2 }")).unwrap();
    let Tok::Group { stream, .. } = &out[0] else { panic!("expected a block") };
    match &stream[1] {
        Tok::Ident { name, site } => {
            assert_eq!(name, "__try_catch_block");
            assert_eq!(*site, Site::MixedSite);
        }
        _ => panic!("expected the result binding"),
    }
}

#[test]
fn async_wrapper_is_awaited() {
    let out = expand("try { fetch().await? } catch e { 0 }");
    assert!(out.contains("= ( || async { :: std :: result :: Result :: Ok ( { fetch ( ) . await ? } ) } ) ( ) . await ;"));
}

#[test]
fn suspension_marker_nested_three_groups_deep() {
    let tc = parse_try_catch(&lex(
        "try { if ready { let f = || { step().await }; } } catch e { 0 }",
    ))
    .unwrap().0;
    assert!(tc.is_async);
    assert!(is_async(&lex("{ ( [ x . await ] ) }")));
    assert!(!is_async(&lex("{ ( [ x . wait ] ) }")));
}

#[test]
fn catch_bodies_do_not_make_it_async() {
    let tc = parse_try_catch(&lex("try { 1 } catch e { e.await }")).unwrap().0;
    assert!(!tc.is_async);
}

#[test]
fn parsing_twice_gives_the_same_construct() {
    let src = "try { a()? } catch e: E { 1 } catch f { 2 }";
    let a = parse_try_catch(&lex(src)).unwrap().0;
    let b = parse_try_catch(&lex(src)).unwrap().0;
    assert_eq!(format!("{:?}", a), format!("{:?}", b));
}

#[test]
fn syntax_errors() {
    assert_eq!(error_of(""), (ErrorKind::ExpectedTry, 0));
    assert_eq!(error_of("catch e { 1 }"), (ErrorKind::ExpectedTry, 0));
    assert_eq!(error_of("try"), (ErrorKind::ExpectedBlock, 1));
    assert_eq!(error_of("try ( 1 )"), (ErrorKind::ExpectedBlock, 1));
    assert_eq!(error_of("try { 1 } oops e { 2 }"), (ErrorKind::ExpectedCatch, 2));
    assert_eq!(error_of("try { 1 } catch { 2 }"), (ErrorKind::ExpectedBinder, 3));
    assert_eq!(error_of("try { 1 } catch e ( 2 )"), (ErrorKind::ExpectedBlock, 4));
    assert_eq!(error_of("try { 1 } catch e: { 2 }"), (ErrorKind::ExpectedType, 5));
    assert_eq!(error_of("try { 1 } catch e: io::Error"), (ErrorKind::ExpectedBlock, 9));
    assert_eq!(error_of("try { 1 } catch e { 2 } catch f: T { 3 }"), (ErrorKind::CatchAllNotLast, 5));
    assert_eq!(error_of("try { 1 } catch e { 2 } catch f { 3 }"), (ErrorKind::CatchAllNotLast, 5));
    assert_eq!(error_of("try { 1 } catch e { 2 } more"), (ErrorKind::ExpectedCatch, 5));
    assert_eq!(error_of("try { 1 } catch e: std::io::Error 5"), (ErrorKind::ExpectedBlock, 12));
    assert_eq!(error_of("try { 1 } catch fn { 0 }"), (ErrorKind::ExpectedBinder, 3));
    assert_eq!(error_of("try { 1 } catch _ { 0 }"), (ErrorKind::ExpectedBinder, 3));
    assert_eq!(error_of("try { 1 } catch e : 5 { 0 }"), (ErrorKind::ExpectedType, 5));
    assert_eq!(error_of("try { 1 } catch e : E 5 { 0 }"), (ErrorKind::ExpectedBlock, 6));
}

#[test]
fn error_messages() {
    let e = catch(lex("try { 1 } catch e ( 2 )")).unwrap_err();
    assert_eq!(e.message(), "Expected a block `{ /* ... */ }`.");
    let e = catch(lex("try { 1 } oops")).unwrap_err();
    assert_eq!(e.message(), "Expected `catch`");
}

const PARSE_INT_ERROR: u64 = 1;
const IO_ERROR: u64 = 2;
const JSON_ERROR: u64 = 3;

#[test]
fn success_passes_through_catch_all() {
    assert_eq!(resolve(&vec![Matcher::Any], Outcome::Success(10)), Resolution::Value(10));
}

#[test]
fn failure_recovered_by_catch_all() {
    let e = DynError { type_tag: PARSE_INT_ERROR, payload: 7 };
    assert_eq!(
        resolve(&vec![Matcher::Any], Outcome::Failure(e)),
        Resolution::Recovered { clause: 0, error: e }
    );
}

#[test]
fn unmatched_error_is_handed_on() {
    let e = DynError { type_tag: IO_ERROR, payload: 42 };
    assert_eq!(resolve(&vec![Matcher::Typed(JSON_ERROR)], Outcome::Failure(e)), Resolution::Propagated(e));
}

#[test]
fn no_clauses_pass_everything_through() {
    let e = DynError { type_tag: IO_ERROR, payload: 5 };
    assert_eq!(resolve(&vec![], Outcome::Success(3)), Resolution::Value(3));
    assert_eq!(resolve(&vec![], Outcome::Failure(e)), Resolution::Propagated(e));
}

#[test]
fn first_matching_clause_wins() {
    let e = DynError { type_tag: IO_ERROR, payload: 9 };
    let ms = vec![Matcher::Typed(JSON_ERROR), Matcher::Typed(IO_ERROR), Matcher::Typed(IO_ERROR), Matcher::Any];
    assert_eq!(resolve(&ms, Outcome::Failure(e)), Resolution::Recovered { clause: 1, error: e });
}
