use ada_parser::ast::{BinOp, LitKind, Node, ParamMode, UnOp};
use ada_parser::{parse, parse_ada_declarations, parse_ada_statements, ParseError};

fn lit_int(v: &str) -> Box<Node> {
    Box::new(Node::Lit { kind: LitKind::Int, value: v.to_string() })
}

#[test]
fn program_null_procedure() {
    let (tree, err) = parse("procedure P is begin null; end P;");
    assert!(err.is_none());
    assert_eq!(
        tree,
        Node::Program {
            unit: Box::new(Node::Subprogram {
                name: "P".to_string(),
                params: vec![],
                return_type: None,
                decls: vec![],
                body: vec![Node::NullStmt],
            }),
        }
    );
}

#[test]
fn program_missing_end_returns_unit() {
    let (tree, err) = parse("procedure P is begin");
    assert_eq!(tree, Node::Unit);
    assert!(matches!(err, Some(ParseError::Syntax { .. })));
}

#[test]
fn two_declarations_in_order() {
    let (decls, err) = parse_ada_declarations("X : Integer; Y : Boolean;");
    assert!(err.is_none());
    assert_eq!(
        decls,
        vec![
            Node::ObjectDecl {
                name: "X".to_string(),
                ty: "Integer".to_string(),
                constant: false,
                init: None,
            },
            Node::ObjectDecl {
                name: "Y".to_string(),
                ty: "Boolean".to_string(),
                constant: false,
                init: None,
            },
        ]
    );
}

#[test]
fn two_assignments_in_order() {
    let (stmts, err) = parse_ada_statements("A := 1; B := 2;");
    assert!(err.is_none());
    assert_eq!(
        stmts,
        vec![
            Node::Assign { name: "A".to_string(), value: lit_int("1") },
            Node::Assign { name: "B".to_string(), value: lit_int("2") },
        ]
    );
}

#[test]
fn empty_input() {
    let (decls, derr) = parse_ada_declarations("");
    assert!(decls.is_empty());
    assert!(derr.is_none());
    let (stmts, serr) = parse_ada_statements("");
    assert!(stmts.is_empty());
    assert!(serr.is_none());
    let (tree, perr) = parse("");
    assert_eq!(tree, Node::Unit);
    assert!(perr.is_some());
}

#[test]
fn whitespace_and_comments_only() {
    let src = "  \t\n -- a comment\n-- another\n  ";
    let (decls, derr) = parse_ada_declarations(src);
    assert!(decls.is_empty());
    assert!(derr.is_none());
    let (stmts, serr) = parse_ada_statements(src);
    assert!(stmts.is_empty());
    assert!(serr.is_none());
}

#[test]
fn multiplication_binds_tighter_than_addition() {
    let (stmts, err) = parse_ada_statements("X := 1 + 2 * 3;");
    assert!(err.is_none());
    assert_eq!(
        stmts,
        vec![Node::Assign {
            name: "X".to_string(),
            value: Box::new(Node::Binary {
                op: BinOp::Add,
                left: lit_int("1"),
                right: Box::new(Node::Binary {
                    op: BinOp::Mul,
                    left: lit_int("2"),
                    right: lit_int("3"),
                }),
            }),
        }]
    );
}

#[test]
fn unary_minus_applies_to_whole_term() {
    let (stmts, err) = parse_ada_statements("X := -2 * 3;");
    assert!(err.is_none());
    assert_eq!(
        stmts,
        vec![Node::Assign {
            name: "X".to_string(),
            value: Box::new(Node::Unary {
                op: UnOp::Neg,
                operand: Box::new(Node::Binary {
                    op: BinOp::Mul,
                    left: lit_int("2"),
                    right: lit_int("3"),
                }),
            }),
        }]
    );
}

#[test]
fn relational_operators_are_non_associative() {
    let (stmts, err) = parse_ada_statements("X := 1 < 2 < 3;");
    assert!(stmts.is_empty());
    assert!(matches!(err, Some(ParseError::Syntax { .. })));
}

#[test]
fn exponentiation_does_not_chain() {
    let (stmts, err) = parse_ada_statements("X := 2 ** 3 ** 4;");
    assert!(stmts.is_empty());
    assert!(matches!(err, Some(ParseError::Syntax { .. })));
}

#[test]
fn exponentiation_beats_multiplication() {
    let (stmts, err) = parse_ada_statements("X := 2 ** 3 * 4;");
    assert!(err.is_none());
    assert_eq!(
        stmts,
        vec![Node::Assign {
            name: "X".to_string(),
            value: Box::new(Node::Binary {
                op: BinOp::Mul,
                left: Box::new(Node::Binary {
                    op: BinOp::Pow,
                    left: lit_int("2"),
                    right: lit_int("3"),
                }),
                right: lit_int("4"),
            }),
        }]
    );
}

#[test]
fn lexical_error_reports_offset() {
    let (stmts, err) = parse_ada_statements("X := $;");
    assert!(stmts.is_empty());
    assert_eq!(err, Some(ParseError::Lex { pos: 5 }));
}

#[test]
fn keywords_match_case_insensitively() {
    let (tree, err) = parse("PROCEDURE p IS BEGIN NULL; END;");
    assert!(err.is_none());
    assert!(matches!(tree, Node::Program { .. }));
}

#[test]
fn identifier_case_is_preserved() {
    let (decls, err) = parse_ada_declarations("CouNT : Integer;");
    assert!(err.is_none());
    assert!(matches!(
        &decls[0],
        Node::ObjectDecl { name, .. } if name == "CouNT"
    ));
}

#[test]
fn numeric_literals() {
    let (stmts, err) = parse_ada_statements("A := 16#FF#; B := 3.14; C := 1E3; D := 1_000;");
    assert!(err.is_none());
    let expect = [
        (LitKind::Int, "16#FF#"),
        (LitKind::Real, "3.14"),
        (LitKind::Int, "1E3"),
        (LitKind::Int, "1_000"),
    ];
    assert_eq!(stmts.len(), 4);
    for (stmt, (kind, raw)) in stmts.iter().zip(expect.iter()) {
        match stmt {
            Node::Assign { value, .. } => match value.as_ref() {
                Node::Lit { kind: k, value: v } => {
                    assert_eq!(k, kind);
                    assert_eq!(v, raw);
                }
                other => panic!("expected literal, got {:?}", other),
            },
            other => panic!("expected assignment, got {:?}", other),
        }
    }
}

#[test]
fn string_literal_with_doubled_quote() {
    let (stmts, err) = parse_ada_statements("S := \"ab\"\"cd\";");
    assert!(err.is_none());
    assert_eq!(
        stmts,
        vec![Node::Assign {
            name: "S".to_string(),
            value: Box::new(Node::Lit {
                kind: LitKind::Str,
                value: "\"ab\"\"cd\"".to_string(),
            }),
        }]
    );
}

#[test]
fn character_literal() {
    let (stmts, err) = parse_ada_statements("C := 'x';");
    assert!(err.is_none());
    assert_eq!(
        stmts,
        vec![Node::Assign {
            name: "C".to_string(),
            value: Box::new(Node::Lit { kind: LitKind::Chr, value: "'x'".to_string() }),
        }]
    );
}

#[test]
fn unterminated_string_is_lexical_error() {
    let (stmts, err) = parse_ada_statements("S := \"oops;");
    assert!(stmts.is_empty());
    assert_eq!(err, Some(ParseError::Lex { pos: 5 }));
}

#[test]
fn if_elsif_else_chain() {
    let (stmts, err) =
        parse_ada_statements("if A then null; elsif B then null; else X := 1; end if;");
    assert!(err.is_none());
    assert_eq!(
        stmts,
        vec![Node::IfStmt {
            cond: Box::new(Node::Ident { name: "A".to_string() }),
            then_branch: vec![Node::NullStmt],
            else_branch: vec![Node::IfStmt {
                cond: Box::new(Node::Ident { name: "B".to_string() }),
                then_branch: vec![Node::NullStmt],
                else_branch: vec![Node::Assign { name: "X".to_string(), value: lit_int("1") }],
            }],
        }]
    );
}

#[test]
fn while_and_for_loops() {
    let (stmts, err) = parse_ada_statements(
        "while A < 10 loop A := A + 1; end loop; for I in reverse 1 .. 5 loop null; end loop;",
    );
    assert!(err.is_none());
    assert_eq!(stmts.len(), 2);
    assert!(matches!(&stmts[0], Node::WhileLoop { body, .. } if body.len() == 1));
    match &stmts[1] {
        Node::ForLoop { var, reverse, lo, hi, body } => {
            assert_eq!(var, "I");
            assert!(*reverse);
            assert_eq!(lo.as_ref(), &Node::Lit { kind: LitKind::Int, value: "1".to_string() });
            assert_eq!(hi.as_ref(), &Node::Lit { kind: LitKind::Int, value: "5".to_string() });
            assert_eq!(body, &vec![Node::NullStmt]);
        }
        other => panic!("expected for loop, got {:?}", other),
    }
}

#[test]
fn procedure_call_statements() {
    let (stmts, err) = parse_ada_statements("Put_Line(\"hi\", X); Reset;");
    assert!(err.is_none());
    assert_eq!(
        stmts,
        vec![
            Node::Call {
                name: "Put_Line".to_string(),
                args: vec![
                    Node::Lit { kind: LitKind::Str, value: "\"hi\"".to_string() },
                    Node::Ident { name: "X".to_string() },
                ],
            },
            Node::Call { name: "Reset".to_string(), args: vec![] },
        ]
    );
}

#[test]
fn function_with_parameters() {
    let (decls, err) = parse_ada_declarations(
        "function F (A : in Integer; B : out Boolean) return Integer is begin return A; end F;",
    );
    assert!(err.is_none());
    assert_eq!(
        decls,
        vec![Node::Subprogram {
            name: "F".to_string(),
            params: vec![
                Node::Param {
                    name: "A".to_string(),
                    mode: ParamMode::In,
                    ty: "Integer".to_string(),
                },
                Node::Param {
                    name: "B".to_string(),
                    mode: ParamMode::Out,
                    ty: "Boolean".to_string(),
                },
            ],
            return_type: Some("Integer".to_string()),
            decls: vec![],
            body: vec![Node::ReturnStmt {
                value: Some(Box::new(Node::Ident { name: "A".to_string() })),
            }],
        }]
    );
}

#[test]
fn package_as_program_root() {
    let (tree, err) = parse("package K is X : Integer := 0; end K;");
    assert!(err.is_none());
    assert_eq!(
        tree,
        Node::Program {
            unit: Box::new(Node::Package {
                name: "K".to_string(),
                decls: vec![Node::ObjectDecl {
                    name: "X".to_string(),
                    ty: "Integer".to_string(),
                    constant: false,
                    init: Some(lit_int("0")),
                }],
            }),
        }
    );
}

#[test]
fn constant_and_type_declarations() {
    let (decls, err) =
        parse_ada_declarations("Max : constant Integer := 10; type Small is range 1 .. 9;");
    assert!(err.is_none());
    assert_eq!(
        decls,
        vec![
            Node::ObjectDecl {
                name: "Max".to_string(),
                ty: "Integer".to_string(),
                constant: true,
                init: Some(lit_int("10")),
            },
            Node::TypeDecl {
                name: "Small".to_string(),
                lo: lit_int("1"),
                hi: lit_int("9"),
            },
        ]
    );
}

#[test]
fn declare_block_statement() {
    let (stmts, err) =
        parse_ada_statements("declare T : Integer; begin T := 1; end;");
    assert!(err.is_none());
    assert_eq!(
        stmts,
        vec![Node::Block {
            decls: vec![Node::ObjectDecl {
                name: "T".to_string(),
                ty: "Integer".to_string(),
                constant: false,
                init: None,
            }],
            body: vec![Node::Assign { name: "T".to_string(), value: lit_int("1") }],
        }]
    );
}

#[test]
fn logical_and_concat_operators() {
    let (stmts, err) = parse_ada_statements("X := A and not B; S := \"a\" & \"b\";");
    assert!(err.is_none());
    assert_eq!(
        stmts,
        vec![
            Node::Assign {
                name: "X".to_string(),
                value: Box::new(Node::Binary {
                    op: BinOp::And,
                    left: Box::new(Node::Ident { name: "A".to_string() }),
                    right: Box::new(Node::Unary {
                        op: UnOp::Not,
                        operand: Box::new(Node::Ident { name: "B".to_string() }),
                    }),
                }),
            },
            Node::Assign {
                name: "S".to_string(),
                value: Box::new(Node::Binary {
                    op: BinOp::Concat,
                    left: Box::new(Node::Lit { kind: LitKind::Str, value: "\"a\"".to_string() }),
                    right: Box::new(Node::Lit { kind: LitKind::Str, value: "\"b\"".to_string() }),
                }),
            },
        ]
    );
}

#[test]
fn repeated_parses_are_structurally_identical() {
    let src = "procedure P is X : Integer; begin X := 1 + 2; end P;";
    let (t1, e1) = parse(src);
    let (t2, e2) = parse(src);
    assert_eq!(t1, t2);
    assert_eq!(e1, e2);
    let (d1, _) = parse_ada_declarations("X : Integer;");
    let (d2, _) = parse_ada_declarations("X : Integer;");
    assert_eq!(d1, d2);
}

#[test]
fn object_declaration_is_not_a_program() {
    let (tree, err) = parse("X : Integer;");
    assert_eq!(tree, Node::Unit);
    assert!(matches!(err, Some(ParseError::Syntax { .. })));
}

#[test]
fn parenthesized_expression_groups() {
    let (stmts, err) = parse_ada_statements("X := (1 + 2) * 3;");
    assert!(err.is_none());
    assert_eq!(
        stmts,
        vec![Node::Assign {
            name: "X".to_string(),
            value: Box::new(Node::Binary {
                op: BinOp::Mul,
                left: Box::new(Node::Binary {
                    op: BinOp::Add,
                    left: lit_int("1"),
                    right: lit_int("2"),
                }),
                right: lit_int("3"),
            }),
        }]
    );
}
