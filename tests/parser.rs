use vhdl_parser::alias_declaration::{parse_alias_declaration, AliasDeclaration};
use vhdl_parser::ast::{Designator, Ident, Name};
use vhdl_parser::context::{
    parse_context, parse_library_clause, parse_use_clause, ContextDeclaration, ContextItem,
    ContextReference, DeclarationOrReference, LibraryClause, UseClause,
};
use vhdl_parser::source::{Diagnostic, SrcPos, WithPos};
use vhdl_parser::subprogram::Signature;
use vhdl_parser::subtype_indication::{Direction, Expression, RangeConstraint, SubtypeIndication};
use vhdl_parser::tokenstream::TokenStream;

fn stream(code: &str) -> TokenStream {
    let (stream, diags) = TokenStream::from_source(code.as_bytes());
    assert!(diags.is_empty());
    stream
}

fn pos(code: &str, sub: &str) -> SrcPos {
    let start = code.find(sub).unwrap();
    SrcPos { start, end: start + sub.len() }
}

fn ident(code: &str, sub: &str) -> Ident {
    WithPos { item: sub.as_bytes().to_vec(), pos: pos(code, sub) }
}

fn designator(part: &str) -> Designator {
    let b = part.as_bytes();
    if b[0] == b'\'' {
        Designator::Character(b[1])
    } else if b[0] == b'"' {
        Designator::OperatorSymbol(b[1..b.len() - 1].to_vec())
    } else {
        Designator::Identifier(b.to_vec())
    }
}

/// The name spelled `text`, found at its first occurrence in `code`.
fn name(code: &str, text: &str) -> WithPos<Name> {
    let start = code.find(text).unwrap();
    let mut offset = start;
    let mut cur: Option<WithPos<Name>> = None;
    for part in text.split('.') {
        let p = SrcPos { start: offset, end: offset + part.len() };
        cur = Some(match cur {
            None => {
                let item = match designator(part) {
                    Designator::Identifier(v) => Name::Simple(v),
                    Designator::OperatorSymbol(v) => Name::OperatorSymbol(v),
                    Designator::Character(c) => Name::CharacterLiteral(c),
                };
                WithPos { item, pos: p }
            }
            Some(prefix) => {
                let whole = SrcPos { start, end: p.end };
                if part == "all" {
                    WithPos { item: Name::SelectedAll(Box::new(prefix)), pos: whole }
                } else {
                    WithPos {
                        item: Name::Selected(Box::new(prefix), WithPos { item: designator(part), pos: p }),
                        pos: whole,
                    }
                }
            }
        });
        offset += part.len() + 1;
    }
    cur.unwrap()
}

fn context_no_messages(code: &str) -> DeclarationOrReference {
    let mut s = stream(code);
    let mut messages = Vec::new();
    let r = parse_context(&mut s, &mut messages).unwrap();
    assert_eq!(messages, vec![]);
    assert_eq!(s.idx, s.tokens.len());
    r
}

#[test]
fn parse_simple_alias() {
    let code = "alias foo is name;";
    assert_eq!(
        parse_alias_declaration(&mut stream(code)).unwrap(),
        AliasDeclaration {
            designator: WithPos { item: Designator::Identifier(b"foo".to_vec()), pos: pos(code, "foo") },
            subtype_indication: None,
            name: name(code, "name"),
            signature: None
        }
    );
}

#[test]
fn parse_alias_with_subtype_indication() {
    let code = "alias foo : vector(0 to 1) is name;";
    let subtype = SubtypeIndication {
        type_mark: name(code, "vector"),
        constraint: Some(WithPos {
            item: RangeConstraint {
                direction: Direction::Ascending,
                left_expr: WithPos { item: Expression::Literal(b"0".to_vec()), pos: pos(code, "0") },
                right_expr: WithPos { item: Expression::Literal(b"1".to_vec()), pos: pos(code, "1") },
            },
            pos: pos(code, "(0 to 1)"),
        }),
    };
    assert_eq!(
        parse_alias_declaration(&mut stream(code)).unwrap(),
        AliasDeclaration {
            designator: WithPos { item: Designator::Identifier(b"foo".to_vec()), pos: pos(code, "foo") },
            subtype_indication: Some(subtype),
            name: name(code, "name"),
            signature: None
        }
    );
}

#[test]
fn parse_alias_with_signature() {
    let code = "alias foo is name [return natural];";
    assert_eq!(
        parse_alias_declaration(&mut stream(code)).unwrap(),
        AliasDeclaration {
            designator: WithPos { item: Designator::Identifier(b"foo".to_vec()), pos: pos(code, "foo") },
            subtype_indication: None,
            name: name(code, "name"),
            signature: Some(WithPos {
                item: Signature { type_marks: vec![], return_mark: Some(name(code, "natural")) },
                pos: pos(code, "[return natural]"),
            })
        }
    );
}

#[test]
fn parse_alias_with_operator_symbol() {
    let code = "alias \"and\" is name;";
    assert_eq!(
        parse_alias_declaration(&mut stream(code)).unwrap(),
        AliasDeclaration {
            designator: WithPos {
                item: Designator::OperatorSymbol(b"and".to_vec()),
                pos: pos(code, "\"and\"")
            },
            subtype_indication: None,
            name: name(code, "name"),
            signature: None
        }
    );
}

#[test]
fn parse_alias_with_character() {
    let code = "alias 'c' is 'b';";
    assert_eq!(
        parse_alias_declaration(&mut stream(code)).unwrap(),
        AliasDeclaration {
            designator: WithPos { item: Designator::Character(b'c'), pos: pos(code, "'c'") },
            subtype_indication: None,
            name: name(code, "'b'"),
            signature: None
        }
    );
}

#[test]
fn test_library_clause_single_name() {
    let code = "library foo;";
    assert_eq!(
        parse_library_clause(&mut stream(code)).unwrap(),
        LibraryClause { name_list: vec![ident(code, "foo")] }
    )
}

#[test]
fn test_library_clause_multiple_names() {
    let code = "library foo, bar;";
    assert_eq!(
        parse_library_clause(&mut stream(code)).unwrap(),
        LibraryClause { name_list: vec![ident(code, "foo"), ident(code, "bar")] }
    )
}

#[test]
fn test_use_clause_single_name() {
    let code = "use lib.foo;";
    assert_eq!(
        parse_use_clause(&mut stream(code)).unwrap(),
        UseClause { name_list: vec![name(code, "lib.foo")] }
    )
}

#[test]
fn test_use_clause_multiple_names() {
    let code = "use foo.'a', lib.bar.all;";
    assert_eq!(
        parse_use_clause(&mut stream(code)).unwrap(),
        UseClause { name_list: vec![name(code, "foo.'a'"), name(code, "lib.bar.all")] }
    )
}

#[test]
fn test_context_reference_single_name() {
    let code = "context lib.foo;";
    assert_eq!(
        context_no_messages(code),
        DeclarationOrReference::Reference(ContextReference { name_list: vec![name(code, "lib.foo")] })
    )
}

#[test]
fn test_context_reference_multiple_names() {
    let code = "context work.foo, lib.bar.all;";
    assert_eq!(
        context_no_messages(code),
        DeclarationOrReference::Reference(ContextReference {
            name_list: vec![name(code, "work.foo"), name(code, "lib.bar.all")]
        })
    )
}

#[test]
fn test_context_clause() {
    let variants = vec![
        "\
context ident is
end;
",
        "\
context ident is
end context;
",
        "\
context ident is
end ident;
",
        "\
context ident is
end context ident;
",
    ];
    for code in variants {
        assert_eq!(
            context_no_messages(code),
            DeclarationOrReference::Declaration(ContextDeclaration {
                ident: ident(code, "ident"),
                items: vec![]
            })
        );
    }
}

#[test]
fn test_context_clause_error_end_identifier_mismatch() {
    let code = "\
context ident is
end context ident2;
";
    let mut s = stream(code);
    let mut messages = Vec::new();
    let context = parse_context(&mut s, &mut messages).unwrap();
    assert_eq!(
        messages,
        vec![Diagnostic {
            pos: pos(code, "ident2"),
            message: b"End identifier mismatch, expected ident".to_vec()
        }]
    );
    assert_eq!(
        context,
        DeclarationOrReference::Declaration(ContextDeclaration { ident: ident(code, "ident"), items: vec![] })
    );
}

#[test]
fn test_context_clause_items() {
    let code = "\
context ident is
  library foo;
  use foo.bar;
  context foo.ctx;
end context;
";
    assert_eq!(
        context_no_messages(code),
        DeclarationOrReference::Declaration(ContextDeclaration {
            ident: ident(code, "ident"),
            items: vec![
                ContextItem::Library(LibraryClause { name_list: vec![ident(code, "foo")] }),
                ContextItem::Use(UseClause { name_list: vec![name(code, "foo.bar")] }),
                ContextItem::Context(ContextReference { name_list: vec![name(code, "foo.ctx")] }),
            ]
        })
    )
}
