use vhdl_parser::alias_declaration::parse_alias_declaration;
use vhdl_parser::ast::{Designator, Name};
use vhdl_parser::common::error_on_end_identifier_mismatch;
use vhdl_parser::context::{parse_context, parse_library_clause, ContextItem, DeclarationOrReference};
use vhdl_parser::design_file::{parse_design_file, parse_files, DesignItem};
use vhdl_parser::source::{line_and_column, Diagnostic, SrcPos, WithPos};
use vhdl_parser::subtype_indication::{parse_subtype_indication, Direction, Expression};
use vhdl_parser::subprogram::parse_signature;
use vhdl_parser::tokenizer::{tokenize, Kind};
use vhdl_parser::tokenstream::{ParseError, TokenStream};

fn stream(code: &str) -> TokenStream {
    TokenStream::from_source(code.as_bytes()).0
}

fn kinds(code: &str) -> Vec<Kind> {
    tokenize(code.as_bytes()).0.iter().map(|t| t.kind).collect()
}

#[test]
fn keywords_ignore_letter_case() {
    let (toks, diags) = tokenize(b"LIBRARY Foo; End");
    assert!(diags.is_empty());
    assert_eq!(toks.len(), 4);
    assert_eq!(toks[0].kind, Kind::Library);
    assert_eq!(toks[1].kind, Kind::Identifier);
    assert_eq!(toks[1].value, b"Foo".to_vec());
    assert_eq!(toks[1].pos, SrcPos { start: 8, end: 11 });
    assert_eq!(toks[3].kind, Kind::End);
}

#[test]
fn comments_and_white_space_are_skipped() {
    assert_eq!(
        kinds("use -- a comment; library\n\tfoo ;"),
        vec![Kind::Use, Kind::Identifier, Kind::SemiColon]
    );
}

#[test]
fn string_literal_collapses_doubled_quotes() {
    let (toks, diags) = tokenize(b"\"a\"\"b\"");
    assert!(diags.is_empty());
    assert_eq!(toks.len(), 1);
    assert_eq!(toks[0].kind, Kind::StringLiteral);
    assert_eq!(toks[0].value, b"a\"b".to_vec());
    assert_eq!(toks[0].pos, SrcPos { start: 0, end: 6 });
}

#[test]
fn invalid_character_gives_diagnostic_and_lexing_goes_on() {
    let (toks, diags) = tokenize(b"foo # bar");
    assert_eq!(
        diags,
        vec![Diagnostic { pos: SrcPos { start: 4, end: 5 }, message: b"Invalid character".to_vec() }]
    );
    assert_eq!(toks.len(), 2);
    assert_eq!(toks[1].value, b"bar".to_vec());
}

#[test]
fn unterminated_string_gives_diagnostic_and_lexing_goes_on() {
    let (toks, diags) = tokenize(b"x \"abc\ny;");
    assert_eq!(
        diags,
        vec![Diagnostic {
            pos: SrcPos { start: 2, end: 6 },
            message: b"Unterminated string literal".to_vec()
        }]
    );
    assert_eq!(
        toks.iter().map(|t| t.kind).collect::<Vec<_>>(),
        vec![Kind::Identifier, Kind::Identifier, Kind::SemiColon]
    );
}

#[test]
fn character_literal_and_tick() {
    assert_eq!(
        kinds("'a' x'y"),
        vec![Kind::Character, Kind::Identifier, Kind::Tick, Kind::Identifier]
    );
    assert_eq!(kinds("12 ( ) [ ] : ."), vec![
        Kind::AbstractLiteral, Kind::LeftPar, Kind::RightPar, Kind::LeftSquare,
        Kind::RightSquare, Kind::Colon, Kind::Dot
    ]);
}

#[test]
fn end_mismatch_on_one_line() {
    let code = "context ident is end ident2;";
    let mut messages = Vec::new();
    let r = parse_context(&mut stream(code), &mut messages).unwrap();
    assert_eq!(messages.len(), 1);
    assert_eq!(messages[0].pos, SrcPos { start: 21, end: 27 });
    assert_eq!(messages[0].message, b"End identifier mismatch, expected ident".to_vec());
    match r {
        DeclarationOrReference::Declaration(d) => {
            assert_eq!(d.ident.item, b"ident".to_vec());
            assert_eq!(d.ident.pos, SrcPos { start: 8, end: 13 });
            assert!(d.items.is_empty());
        }
        _ => panic!("expected a declaration"),
    }
}

#[test]
fn three_items_on_one_line() {
    let code = "context ident is library foo; use foo.bar; context foo.ctx; end context;";
    let mut messages = Vec::new();
    let r = parse_context(&mut stream(code), &mut messages).unwrap();
    assert!(messages.is_empty());
    match r {
        DeclarationOrReference::Declaration(d) => {
            assert_eq!(d.items.len(), 3);
            assert!(matches!(d.items[0], ContextItem::Library(_)));
            assert!(matches!(d.items[1], ContextItem::Use(_)));
            assert!(matches!(d.items[2], ContextItem::Context(_)));
        }
        _ => panic!("expected a declaration"),
    }
}

#[test]
fn empty_declaration_has_no_items_and_no_diagnostics() {
    let mut messages = Vec::new();
    let r = parse_context(&mut stream("context c is end;"), &mut messages).unwrap();
    assert!(messages.is_empty());
    match r {
        DeclarationOrReference::Declaration(d) => assert!(d.items.is_empty()),
        _ => panic!("expected a declaration"),
    }
}

#[test]
fn declaration_needs_a_simple_name() {
    let mut messages = Vec::new();
    let r = parse_context(&mut stream("context lib.foo is end;"), &mut messages);
    assert_eq!(r, Err(ParseError::ExpectedSimpleName(SrcPos { start: 8, end: 15 })));
    assert!(messages.is_empty());
}

#[test]
fn missing_terminator_is_a_syntax_error() {
    assert_eq!(parse_library_clause(&mut stream("library foo")), Err(ParseError::UnexpectedEof));
    assert!(parse_library_clause(&mut stream("library foo bar;")).is_err());
    assert!(parse_alias_declaration(&mut stream("alias foo is ;")).is_err());
    assert!(parse_alias_declaration(&mut stream("alias foo name;")).is_err());
}

#[test]
fn downto_range() {
    let code = "bit_vector(7 downto x)";
    let s = parse_subtype_indication(&mut stream(code)).unwrap();
    let c = s.constraint.unwrap();
    assert_eq!(c.item.direction, Direction::Descending);
    assert_eq!(c.item.left_expr.item, Expression::Literal(b"7".to_vec()));
    assert_eq!(c.item.right_expr.item, Expression::Name(Name::Simple(b"x".to_vec())));
    assert_eq!(c.pos, SrcPos { start: 10, end: 22 });
}

#[test]
fn signature_with_marks_and_return() {
    let code = "[integer, work.bit return natural]";
    let mut s = stream(code);
    let sig = parse_signature(&mut s).unwrap();
    assert_eq!(sig.pos, SrcPos { start: 0, end: 34 });
    assert_eq!(sig.item.type_marks.len(), 2);
    assert!(matches!(sig.item.type_marks[1].item, Name::Selected(_, _)));
    assert_eq!(sig.item.return_mark.unwrap().item, Name::Simple(b"natural".to_vec()));
    let empty = parse_signature(&mut stream("[]")).unwrap();
    assert!(empty.item.type_marks.is_empty());
    assert!(empty.item.return_mark.is_none());
}

#[test]
fn closing_identifier_check() {
    let id = WithPos { item: b"a".to_vec(), pos: SrcPos { start: 0, end: 1 } };
    assert_eq!(error_on_end_identifier_mismatch(&id, &None), None);
    let same = WithPos { item: b"a".to_vec(), pos: SrcPos { start: 5, end: 6 } };
    assert_eq!(error_on_end_identifier_mismatch(&id, &Some(same)), None);
    let other = WithPos { item: b"b".to_vec(), pos: SrcPos { start: 5, end: 6 } };
    assert_eq!(
        error_on_end_identifier_mismatch(&id, &Some(other)),
        Some(Diagnostic {
            pos: SrcPos { start: 5, end: 6 },
            message: b"End identifier mismatch, expected a".to_vec()
        })
    );
}

#[test]
fn design_file_with_all_constructs() {
    let code = b"library ieee; use ieee.std_logic_1164.all;\ncontext c is end c;\nalias \"or\" is name;";
    let f = parse_design_file(code);
    assert!(f.diagnostics.is_empty());
    let items = f.items.unwrap();
    assert_eq!(items.len(), 4);
    assert!(matches!(items[0], DesignItem::Library(_)));
    assert!(matches!(items[1], DesignItem::Use(_)));
    assert!(matches!(items[2], DesignItem::Context(_)));
    match &items[3] {
        DesignItem::Alias(a) => assert_eq!(a.designator.item, Designator::OperatorSymbol(b"or".to_vec())),
        _ => panic!("expected an alias"),
    }
}

#[test]
fn syntax_error_keeps_earlier_diagnostics() {
    let f = parse_design_file(b"context a is end b; # library ;");
    assert_eq!(f.items, Err(ParseError::UnexpectedToken(SrcPos { start: 30, end: 31 })));
    assert_eq!(f.diagnostics.len(), 2);
    assert_eq!(f.diagnostics[0].message, b"Invalid character".to_vec());
    assert_eq!(f.diagnostics[1].message, b"End identifier mismatch, expected a".to_vec());
}

#[test]
fn parsing_twice_gives_equal_results() {
    let code = b"context x is library a, b; end y; alias q : t(1 to 2) is n [m];";
    assert_eq!(parse_design_file(code), parse_design_file(code));
}

#[test]
fn file_order_does_not_change_results() {
    let a = b"context x is end y;".to_vec();
    let b = b"library l; use l.p.all;".to_vec();
    let c = b"alias ;".to_vec();
    let forward = parse_files(&vec![a.clone(), b.clone(), c.clone()]);
    let backward = parse_files(&vec![c, b, a]);
    assert_eq!(forward[0], backward[2]);
    assert_eq!(forward[1], backward[1]);
    assert_eq!(forward[2], backward[0]);
    assert_eq!(forward[0].diagnostics.len(), 1);
    assert!(forward[2].items.is_err());
}

#[test]
fn line_and_column_of_offsets() {
    let text = b"ab\ncd\n\nx";
    assert_eq!(line_and_column(text, 0), (1, 1));
    assert_eq!(line_and_column(text, 1), (1, 2));
    assert_eq!(line_and_column(text, 3), (2, 1));
    assert_eq!(line_and_column(text, 4), (2, 2));
    assert_eq!(line_and_column(text, 7), (4, 1));
    assert_eq!(line_and_column(text, 8), (4, 2));
}

#[test]
fn bit_string_literals() {
    let (toks, diags) = tokenize(b"x\"0F\" B\"01\" xy\"a\"");
    assert!(diags.is_empty());
    assert_eq!(toks.len(), 4);
    assert_eq!(toks[0].kind, Kind::BitString);
    assert_eq!(toks[0].value, b"x\"0F\"".to_vec());
    assert_eq!(toks[0].pos, SrcPos { start: 0, end: 5 });
    assert_eq!(toks[1].kind, Kind::BitString);
    assert_eq!(toks[2].kind, Kind::Identifier);
    assert_eq!(toks[3].kind, Kind::StringLiteral);
    let s = parse_subtype_indication(&mut stream("word(X\"FF\" downto 0)")).unwrap();
    assert_eq!(s.constraint.unwrap().item.left_expr.item, Expression::Literal(b"X\"FF\"".to_vec()));
}
