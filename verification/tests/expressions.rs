use resolver::ast::{Expression, Field, FieldInit, Parameter, Statement};
use resolver::diagnostics::{Diagnostic, DiagnosticKind};
use resolver::resolve::{annotate, resolve_body, resolve_expression, resolve_statement};
use resolver::resolved::{Binding, BindingKind, ResolvedExpression, ResolvedFieldInit, ResolvedNode, ResolvedStatement};
use resolver::symbols::{Declaration, Symbol, SymbolTable};
use resolver::types::{Location, Primitive, Type, TypeTag};

fn at(line: u32, column: u32) -> Location {
    Location::new(line, column)
}

fn float() -> Type {
    Type::Primitive(Primitive::Float64)
}

fn point_type() -> TypeTag {
    TypeTag::Known(Type::StructRef("Point".to_string()))
}

fn float_tag() -> TypeTag {
    TypeTag::Known(float())
}

/// `struct Point { x: f64, y: f64 }`, `fn make_origin() -> Point`,
/// `fn scale(p: Point, k: f64) -> Point`, `fn lost() -> Ghost`.
fn table() -> SymbolTable {
    let mut table = SymbolTable::new();
    let symbols = vec![
        Symbol {
            name: "Point".to_string(),
            declaration: Declaration::Struct {
                fields: vec![
                    Field { name: "x".to_string(), ty: float() },
                    Field { name: "y".to_string(), ty: float() },
                ],
            },
        },
        Symbol {
            name: "make_origin".to_string(),
            declaration: Declaration::Function {
                parameters: vec![],
                return_type: Type::StructRef("Point".to_string()),
            },
        },
        Symbol {
            name: "scale".to_string(),
            declaration: Declaration::Function {
                parameters: vec![
                    Parameter { name: "p".to_string(), ty: Type::StructRef("Point".to_string()) },
                    Parameter { name: "k".to_string(), ty: float() },
                ],
                return_type: Type::StructRef("Point".to_string()),
            },
        },
        Symbol {
            name: "lost".to_string(),
            declaration: Declaration::Function {
                parameters: vec![],
                return_type: Type::StructRef("Ghost".to_string()),
            },
        },
    ];
    for symbol in symbols {
        assert_eq!(table.insert(symbol), Ok(()));
    }
    table
}

fn origin_scope() -> Vec<Binding> {
    vec![Binding { name: "origin".to_string(), ty: point_type() }]
}

fn literal(line: u32, column: u32, lexeme: &str) -> Expression {
    Expression::Literal { location: at(line, column), kind: Primitive::Float64, lexeme: lexeme.to_string() }
}

fn resolved_literal(line: u32, column: u32, lexeme: &str) -> ResolvedExpression {
    ResolvedExpression {
        ty: float_tag(),
        node: ResolvedNode::Literal { location: at(line, column), kind: Primitive::Float64, lexeme: lexeme.to_string() },
    }
}

fn identifier(line: u32, column: u32, name: &str) -> Expression {
    Expression::Identifier { location: at(line, column), name: name.to_string() }
}

fn init(line: u32, column: u32, name: &str, value: Expression) -> FieldInit {
    FieldInit { location: at(line, column), name: name.to_string(), value }
}

fn point_literal(inits: Vec<FieldInit>) -> Expression {
    Expression::StructLiteral { location: at(2, 5), struct_name: "Point".to_string(), field_inits: inits }
}

fn access(base: Expression, field: &str) -> Expression {
    Expression::FieldAccess { location: at(3, 20), base: Box::new(base), field_name: field.to_string() }
}

fn run(scope: &Vec<Binding>, e: &Expression) -> (ResolvedExpression, Vec<Diagnostic>) {
    let mut sink = Vec::new();
    let resolved = resolve_expression(&table(), scope, e, &mut sink);
    (resolved, sink)
}

#[test]
fn literal_has_its_primitive_type() {
    let (resolved, sink) = run(&vec![], &literal(1, 1, "0.0"));
    assert_eq!(resolved, resolved_literal(1, 1, "0.0"));
    assert!(sink.is_empty());
    let text = Expression::Literal { location: at(1, 1), kind: Primitive::Text, lexeme: "hi".to_string() };
    assert_eq!(run(&vec![], &text).0.ty, TypeTag::Known(Type::Primitive(Primitive::Text)));
}

#[test]
fn full_struct_literal_has_the_struct_type() {
    let e = point_literal(vec![init(2, 13, "x", literal(2, 16, "0.0")), init(2, 21, "y", literal(2, 24, "0.0"))]);
    let (resolved, sink) = run(&vec![], &e);
    assert!(sink.is_empty());
    assert_eq!(
        resolved,
        ResolvedExpression {
            ty: point_type(),
            node: ResolvedNode::StructLiteral {
                location: at(2, 5),
                struct_name: "Point".to_string(),
                field_inits: vec![
                    ResolvedFieldInit { location: at(2, 13), name: "x".to_string(), value: resolved_literal(2, 16, "0.0") },
                    ResolvedFieldInit { location: at(2, 21), name: "y".to_string(), value: resolved_literal(2, 24, "0.0") },
                ],
            },
        }
    );
}

#[test]
fn struct_literal_fields_may_come_in_any_order() {
    let e = point_literal(vec![init(2, 13, "y", literal(2, 16, "0.0")), init(2, 21, "x", literal(2, 24, "0.0"))]);
    let (resolved, sink) = run(&vec![], &e);
    assert!(sink.is_empty());
    assert_eq!(resolved.ty, point_type());
}

#[test]
fn struct_literal_without_a_field_reports_it_missing() {
    let e = point_literal(vec![init(2, 13, "x", literal(2, 16, "0.0"))]);
    let (resolved, sink) = run(&vec![], &e);
    assert_eq!(sink, vec![Diagnostic::new(DiagnosticKind::MissingField("y".to_string()), at(2, 5))]);
    assert_eq!(resolved.ty, point_type());
}

#[test]
fn struct_literal_with_an_extra_field_reports_it_unknown() {
    let e = point_literal(vec![
        init(2, 13, "x", literal(2, 16, "0.0")),
        init(2, 21, "y", literal(2, 24, "0.0")),
        init(2, 29, "z", literal(2, 32, "1.0")),
    ]);
    let (_, sink) = run(&vec![], &e);
    assert_eq!(sink, vec![Diagnostic::new(DiagnosticKind::UnknownField("z".to_string()), at(2, 29))]);
}

#[test]
fn struct_literal_with_a_repeated_field_reports_the_repeat() {
    let e = point_literal(vec![
        init(2, 13, "x", literal(2, 16, "0.0")),
        init(2, 21, "y", literal(2, 24, "0.0")),
        init(2, 29, "x", literal(2, 32, "1.0")),
    ]);
    let (_, sink) = run(&vec![], &e);
    assert_eq!(sink, vec![Diagnostic::new(DiagnosticKind::DuplicateField("x".to_string()), at(2, 29))]);
}

#[test]
fn empty_struct_literal_misses_every_field_in_declared_order() {
    let (_, sink) = run(&vec![], &point_literal(vec![]));
    assert_eq!(
        sink,
        vec![
            Diagnostic::new(DiagnosticKind::MissingField("x".to_string()), at(2, 5)),
            Diagnostic::new(DiagnosticKind::MissingField("y".to_string()), at(2, 5)),
        ]
    );
}

#[test]
fn field_faults_come_before_missing_fields() {
    let e = point_literal(vec![
        init(2, 13, "z", literal(2, 16, "0.0")),
        init(2, 21, "x", literal(2, 24, "0.0")),
        init(2, 29, "x", identifier(2, 32, "nowhere")),
    ]);
    let (_, sink) = run(&vec![], &e);
    assert_eq!(
        sink,
        vec![
            Diagnostic::new(DiagnosticKind::UnresolvedName("nowhere".to_string()), at(2, 32)),
            Diagnostic::new(DiagnosticKind::UnknownField("z".to_string()), at(2, 13)),
            Diagnostic::new(DiagnosticKind::DuplicateField("x".to_string()), at(2, 29)),
            Diagnostic::new(DiagnosticKind::MissingField("y".to_string()), at(2, 5)),
        ]
    );
}

#[test]
fn literal_of_an_undeclared_struct_is_unresolved() {
    let e = Expression::StructLiteral {
        location: at(2, 5),
        struct_name: "Circle".to_string(),
        field_inits: vec![init(2, 14, "r", identifier(2, 17, "radius"))],
    };
    let (resolved, sink) = run(&vec![], &e);
    assert_eq!(resolved.ty, TypeTag::Unresolved);
    assert_eq!(
        sink,
        vec![
            Diagnostic::new(DiagnosticKind::UnresolvedName("radius".to_string()), at(2, 17)),
            Diagnostic::new(DiagnosticKind::UnresolvedName("Circle".to_string()), at(2, 5)),
        ]
    );
}

#[test]
fn literal_of_a_function_name_is_unresolved() {
    let e = Expression::StructLiteral { location: at(2, 5), struct_name: "make_origin".to_string(), field_inits: vec![] };
    let (resolved, sink) = run(&vec![], &e);
    assert_eq!(resolved.ty, TypeTag::Unresolved);
    assert_eq!(sink, vec![Diagnostic::new(DiagnosticKind::UnresolvedName("make_origin".to_string()), at(2, 5))]);
}

#[test]
fn field_access_has_the_type_of_the_field() {
    let e = access(identifier(3, 13, "origin"), "x");
    let (resolved, sink) = run(&origin_scope(), &e);
    assert!(sink.is_empty());
    assert_eq!(
        resolved,
        ResolvedExpression {
            ty: float_tag(),
            node: ResolvedNode::FieldAccess {
                location: at(3, 20),
                base: Box::new(ResolvedExpression {
                    ty: point_type(),
                    node: ResolvedNode::Identifier {
                        location: at(3, 13),
                        name: "origin".to_string(),
                        binding: BindingKind::Local,
                    },
                }),
                field_name: "x".to_string(),
            },
        }
    );
}

#[test]
fn access_to_a_field_that_is_not_there_is_reported() {
    let e = access(identifier(3, 13, "origin"), "z");
    let (resolved, sink) = run(&origin_scope(), &e);
    assert_eq!(resolved.ty, TypeTag::Unresolved);
    assert_eq!(
        sink,
        vec![Diagnostic::new(DiagnosticKind::NoSuchField("Point".to_string(), "z".to_string()), at(3, 20))]
    );
}

#[test]
fn field_access_on_a_primitive_is_not_a_struct() {
    let e = access(literal(3, 13, "1.5"), "x");
    let (resolved, sink) = run(&vec![], &e);
    assert_eq!(resolved.ty, TypeTag::Unresolved);
    assert_eq!(sink, vec![Diagnostic::new(DiagnosticKind::NotAStruct, at(3, 20))]);
}

#[test]
fn access_on_an_unresolved_base_adds_no_second_diagnostic() {
    let e = access(access(identifier(3, 13, "nowhere"), "x"), "y");
    let (resolved, sink) = run(&origin_scope(), &e);
    assert_eq!(resolved.ty, TypeTag::Unresolved);
    assert_eq!(sink, vec![Diagnostic::new(DiagnosticKind::UnresolvedName("nowhere".to_string()), at(3, 13))]);
}

#[test]
fn access_after_a_failed_access_stays_silent() {
    let e = access(access(identifier(3, 13, "origin"), "z"), "w");
    let (_, sink) = run(&origin_scope(), &e);
    assert_eq!(
        sink,
        vec![Diagnostic::new(DiagnosticKind::NoSuchField("Point".to_string(), "z".to_string()), at(3, 20))]
    );
}

#[test]
fn unbound_identifier_is_reported() {
    let (resolved, sink) = run(&origin_scope(), &identifier(4, 2, "orign"));
    assert_eq!(
        resolved,
        ResolvedExpression {
            ty: TypeTag::Unresolved,
            node: ResolvedNode::Identifier { location: at(4, 2), name: "orign".to_string(), binding: BindingKind::Unbound },
        }
    );
    assert_eq!(sink, vec![Diagnostic::new(DiagnosticKind::UnresolvedName("orign".to_string()), at(4, 2))]);
}

#[test]
fn identifier_falls_back_to_the_top_level() {
    let (as_struct, sink) = run(&vec![], &identifier(4, 2, "Point"));
    assert!(sink.is_empty());
    assert_eq!(
        as_struct,
        ResolvedExpression {
            ty: point_type(),
            node: ResolvedNode::Identifier { location: at(4, 2), name: "Point".to_string(), binding: BindingKind::TopLevel },
        }
    );
    let (as_function, sink) = run(&vec![], &identifier(4, 2, "make_origin"));
    assert!(sink.is_empty());
    assert_eq!(as_function.ty, point_type());
}

#[test]
fn local_binding_shadows_a_top_level_symbol() {
    let scope = vec![Binding { name: "Point".to_string(), ty: float_tag() }];
    let (resolved, sink) = run(&scope, &identifier(4, 2, "Point"));
    assert!(sink.is_empty());
    assert_eq!(
        resolved,
        ResolvedExpression {
            ty: float_tag(),
            node: ResolvedNode::Identifier { location: at(4, 2), name: "Point".to_string(), binding: BindingKind::Local },
        }
    );
}

#[test]
fn innermost_binding_wins() {
    let scope = vec![
        Binding { name: "v".to_string(), ty: float_tag() },
        Binding { name: "w".to_string(), ty: TypeTag::Known(Type::Primitive(Primitive::Bool)) },
        Binding { name: "v".to_string(), ty: point_type() },
    ];
    assert_eq!(run(&scope, &identifier(1, 1, "v")).0.ty, point_type());
    assert_eq!(run(&scope, &identifier(1, 1, "w")).0.ty, TypeTag::Known(Type::Primitive(Primitive::Bool)));
}

#[test]
fn call_has_the_declared_return_type() {
    let e = Expression::Call { location: at(6, 9), callee: "make_origin".to_string(), args: vec![] };
    let (resolved, sink) = run(&vec![], &e);
    assert!(sink.is_empty());
    assert_eq!(
        resolved,
        ResolvedExpression {
            ty: point_type(),
            node: ResolvedNode::Call { location: at(6, 9), callee: "make_origin".to_string(), args: vec![] },
        }
    );
}

#[test]
fn call_of_an_undeclared_function_is_reported() {
    let e = Expression::Call { location: at(6, 9), callee: "make_point".to_string(), args: vec![literal(6, 20, "1.0")] };
    let (resolved, sink) = run(&vec![], &e);
    assert_eq!(resolved.ty, TypeTag::Unresolved);
    assert_eq!(sink, vec![Diagnostic::new(DiagnosticKind::UnknownFunction("make_point".to_string()), at(6, 9))]);
}

#[test]
fn call_of_a_struct_or_a_local_is_an_unknown_function() {
    let e = Expression::Call { location: at(6, 9), callee: "Point".to_string(), args: vec![] };
    assert_eq!(run(&vec![], &e).1, vec![Diagnostic::new(DiagnosticKind::UnknownFunction("Point".to_string()), at(6, 9))]);
    let e = Expression::Call { location: at(6, 9), callee: "origin".to_string(), args: vec![] };
    assert_eq!(
        run(&origin_scope(), &e).1,
        vec![Diagnostic::new(DiagnosticKind::UnknownFunction("origin".to_string()), at(6, 9))]
    );
}

#[test]
fn call_with_a_wrong_number_of_arguments_is_reported() {
    let e = Expression::Call { location: at(6, 9), callee: "scale".to_string(), args: vec![identifier(6, 15, "origin")] };
    let (resolved, sink) = run(&origin_scope(), &e);
    assert_eq!(resolved.ty, point_type());
    assert_eq!(
        sink,
        vec![Diagnostic::new(
            DiagnosticKind::ArityMismatch { callee: "scale".to_string(), expected: 2, found: 1 },
            at(6, 9)
        )]
    );
    let e = Expression::Call {
        location: at(6, 9),
        callee: "scale".to_string(),
        args: vec![identifier(6, 15, "origin"), literal(6, 23, "2.0")],
    };
    assert!(run(&origin_scope(), &e).1.is_empty());
}

#[test]
fn arguments_are_resolved_left_to_right_before_the_call() {
    let e = Expression::Call {
        location: at(6, 9),
        callee: "nothing".to_string(),
        args: vec![identifier(6, 17, "a"), literal(6, 20, "1.0"), identifier(6, 25, "b")],
    };
    let (resolved, sink) = run(&vec![], &e);
    assert_eq!(
        sink,
        vec![
            Diagnostic::new(DiagnosticKind::UnresolvedName("a".to_string()), at(6, 17)),
            Diagnostic::new(DiagnosticKind::UnresolvedName("b".to_string()), at(6, 25)),
            Diagnostic::new(DiagnosticKind::UnknownFunction("nothing".to_string()), at(6, 9)),
        ]
    );
    match resolved.node {
        ResolvedNode::Call { args, .. } => {
            assert_eq!(args.len(), 3);
            assert_eq!(args[0].ty, TypeTag::Unresolved);
            assert_eq!(args[1], resolved_literal(6, 20, "1.0"));
            assert_eq!(args[2].ty, TypeTag::Unresolved);
        }
        _ => panic!("a call resolves to a call"),
    }
}

#[test]
fn call_that_returns_an_undeclared_struct_is_unresolved_and_silent() {
    let e = access(Expression::Call { location: at(6, 9), callee: "lost".to_string(), args: vec![] }, "x");
    let (resolved, sink) = run(&vec![], &e);
    assert_eq!(resolved.ty, TypeTag::Unresolved);
    assert!(sink.is_empty());
}

#[test]
fn format_call_takes_any_arguments_and_resolves_them() {
    let e = Expression::FormatCall {
        location: at(8, 5),
        format_string: "Origin: ({}, {})".to_string(),
        args: vec![access(identifier(8, 30, "origin"), "x"), access(identifier(8, 40, "origin"), "q")],
    };
    let (resolved, sink) = run(&origin_scope(), &e);
    assert_eq!(resolved.ty, TypeTag::Known(Type::Primitive(Primitive::Unit)));
    assert_eq!(
        sink,
        vec![Diagnostic::new(DiagnosticKind::NoSuchField("Point".to_string(), "q".to_string()), at(3, 20))]
    );
    match resolved.node {
        ResolvedNode::FormatCall { format_string, args, .. } => {
            assert_eq!(format_string, "Origin: ({}, {})");
            assert_eq!(args[0].ty, float_tag());
            assert_eq!(args[1].ty, TypeTag::Unresolved);
        }
        _ => panic!("a format call resolves to a format call"),
    }
}

#[test]
fn resolving_keeps_what_the_sink_held() {
    let earlier = Diagnostic::new(DiagnosticKind::NotAStruct, at(1, 1));
    let mut sink = vec![earlier.clone()];
    let _ = resolve_expression(&table(), &vec![], &identifier(4, 2, "q"), &mut sink);
    assert_eq!(sink, vec![earlier, Diagnostic::new(DiagnosticKind::UnresolvedName("q".to_string()), at(4, 2))]);
}

#[test]
fn annotation_of_a_declared_type() {
    let table = table();
    assert_eq!(annotate(&table, &float()), float_tag());
    assert_eq!(annotate(&table, &Type::StructRef("Point".to_string())), point_type());
    assert_eq!(annotate(&table, &Type::StructRef("Ghost".to_string())), TypeTag::Unresolved);
    assert_eq!(annotate(&table, &Type::StructRef("make_origin".to_string())), TypeTag::Unresolved);
}

#[test]
fn let_binds_the_name_for_what_follows() {
    let table = table();
    let mut scope = Vec::new();
    let mut sink = Vec::new();
    let statement = Statement::Let {
        location: at(7, 5),
        name: "origin".to_string(),
        value: Expression::Call { location: at(7, 18), callee: "make_origin".to_string(), args: vec![] },
    };
    let resolved = resolve_statement(&table, &mut scope, &statement, &mut sink);
    assert!(sink.is_empty());
    assert_eq!(scope, origin_scope());
    assert_eq!(
        resolved,
        ResolvedStatement::Let {
            location: at(7, 5),
            name: "origin".to_string(),
            value: ResolvedExpression {
                ty: point_type(),
                node: ResolvedNode::Call { location: at(7, 18), callee: "make_origin".to_string(), args: vec![] },
            },
        }
    );
    let next = Statement::Expr(access(identifier(8, 5, "origin"), "y"));
    let resolved = resolve_statement(&table, &mut scope, &next, &mut sink);
    assert!(sink.is_empty());
    assert_eq!(scope, origin_scope());
    match resolved {
        ResolvedStatement::Expr(e) => assert_eq!(e.ty, float_tag()),
        _ => panic!("an expression statement resolves to one"),
    }
}

#[test]
fn name_is_not_in_scope_before_its_let() {
    let body = vec![
        Statement::Expr(identifier(1, 1, "v")),
        Statement::Let { location: at(2, 1), name: "v".to_string(), value: literal(2, 9, "1.0") },
        Statement::Expr(identifier(3, 1, "v")),
        Statement::Let { location: at(4, 1), name: "v".to_string(), value: identifier(4, 9, "origin") },
        Statement::Expr(identifier(5, 1, "v")),
    ];
    let mut sink = Vec::new();
    let initial = origin_scope();
    let resolved = resolve_body(&table(), &initial, &body, &mut sink);
    assert_eq!(sink, vec![Diagnostic::new(DiagnosticKind::UnresolvedName("v".to_string()), at(1, 1))]);
    assert_eq!(initial, origin_scope());
    let types: Vec<TypeTag> = resolved
        .into_iter()
        .map(|s| match s {
            ResolvedStatement::Let { value, .. } => value.ty,
            ResolvedStatement::Expr(e) => e.ty,
        })
        .collect();
    assert_eq!(types, vec![TypeTag::Unresolved, float_tag(), float_tag(), point_type(), point_type()]);
}

#[test]
fn let_of_a_failed_value_binds_silently() {
    let body = vec![
        Statement::Let { location: at(1, 1), name: "v".to_string(), value: identifier(1, 9, "nowhere") },
        Statement::Expr(access(identifier(2, 1, "v"), "x")),
    ];
    let mut sink = Vec::new();
    let _ = resolve_body(&table(), &vec![], &body, &mut sink);
    assert_eq!(sink, vec![Diagnostic::new(DiagnosticKind::UnresolvedName("nowhere".to_string()), at(1, 9))]);
}
