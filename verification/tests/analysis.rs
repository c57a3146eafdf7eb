use bcc::common::diagnostics::{DiagnosticEngine, Severity, Span};
use bcc::common::string_interner::{Interner, Symbol};
use bcc::common::target::Target;
use bcc::common::type_builder::TypeBuilder;
use bcc::common::types::{CType, TypeQualifiers};
use bcc::frontend::parser::ast::{
    AbstractDeclarator, AsmOperand, AsmStatement, BinaryOp, BlockItem, CompoundStatement,
    Declaration, DeclarationSpecifiers, Declarator, DesignatedInitializer, Designator,
    DirectDeclarator, EnumSpecifier, Enumerator, Expression, ExternalDeclaration,
    FunctionDefinition, GenericAssociation, InitDeclarator, Initializer, IntegerSuffix,
    ParameterDeclaration, Pointer, SpecifierQualifierList, Statement, StaticAssert, StorageClass,
    StructDeclarator, StructMember, StructOrUnion, StructOrUnionSpecifier, TranslationUnit,
    TypeName, TypeSpecifier, UnaryOp,
};
use bcc::frontend::sema::analyzer::SemanticAnalyzer;
use bcc::frontend::sema::resolve::Locals;
use bcc::frontend::sema::scope::SymbolId;

fn at() -> Span {
    Span::dummy()
}

/// Runs `f` on a fresh analyzer that knows `names`, in order.
fn with_analyzer<R>(
    names: &[&str],
    f: impl FnOnce(&mut SemanticAnalyzer, &[Symbol]) -> R,
) -> (R, DiagnosticEngine) {
    let mut diag = DiagnosticEngine::new();
    let tb = TypeBuilder::new(Target::X86_64);
    let mut interner = Interner::new();
    let symbols: Vec<Symbol> = names.iter().map(|n| interner.intern(n)).collect();
    let r = {
        let mut sema = SemanticAnalyzer::new(&mut diag, &tb, Target::X86_64, &interner);
        f(&mut sema, &symbols)
    };
    (r, diag)
}

fn messages(diag: &DiagnosticEngine) -> Vec<String> {
    diag.diagnostics.iter().map(|d| d.message.clone()).collect()
}

fn number(value: u128) -> Expression {
    Expression::IntegerLiteral {
        value,
        suffix: IntegerSuffix::Plain,
        is_hex_or_octal: false,
        span: at(),
    }
}

fn long_number(value: u128) -> Expression {
    Expression::IntegerLiteral {
        value,
        suffix: IntegerSuffix::L,
        is_hex_or_octal: false,
        span: at(),
    }
}

fn name(symbol: Symbol) -> Expression {
    Expression::Identifier {
        name: symbol,
        span: at(),
    }
}

fn specifiers(ty: Vec<TypeSpecifier>, storage: Option<StorageClass>) -> DeclarationSpecifiers {
    DeclarationSpecifiers {
        storage_class: storage,
        type_specifiers: ty,
        type_qualifiers: Vec::new(),
        function_specifiers: Vec::new(),
        attributes: Vec::new(),
        span: at(),
    }
}

fn declarator(direct: DirectDeclarator) -> Declarator {
    Declarator {
        pointer: None,
        direct,
        attributes: Vec::new(),
        span: at(),
    }
}

fn plain(symbol: Symbol) -> Declarator {
    declarator(DirectDeclarator::Identifier(symbol, at()))
}

fn function(symbol: Symbol, params: Vec<ParameterDeclaration>) -> Declarator {
    declarator(DirectDeclarator::Function {
        base: Box::new(DirectDeclarator::Identifier(symbol, at())),
        params,
        is_variadic: false,
        span: at(),
    })
}

fn declaration(
    ty: Vec<TypeSpecifier>,
    storage: Option<StorageClass>,
    d: Declarator,
    init: Option<Expression>,
) -> Declaration {
    Declaration {
        specifiers: specifiers(ty, storage),
        declarators: vec![InitDeclarator {
            declarator: d,
            initializer: init.map(|e| Initializer::Expression(Box::new(e))),
            span: at(),
        }],
        static_assert: None,
        span: at(),
    }
}

fn int_variable(symbol: Symbol, init: Option<Expression>) -> Declaration {
    declaration(vec![TypeSpecifier::Int], None, plain(symbol), init)
}

fn definition(
    ty: Vec<TypeSpecifier>,
    symbol: Symbol,
    params: Vec<ParameterDeclaration>,
    items: Vec<BlockItem>,
) -> FunctionDefinition {
    FunctionDefinition {
        specifiers: specifiers(ty, None),
        declarator: function(symbol, params),
        old_style_params: Vec::new(),
        body: CompoundStatement { items, span: at() },
        attributes: Vec::new(),
        span: at(),
    }
}

fn statement(s: Statement) -> BlockItem {
    BlockItem::Statement(s)
}

fn empty_statement() -> Box<Statement> {
    Box::new(Statement::Expression(None))
}

fn named_type(ty: Vec<TypeSpecifier>) -> TypeName {
    TypeName {
        specifier_qualifiers: SpecifierQualifierList {
            type_specifiers: ty,
            type_qualifiers: Vec::new(),
            attributes: Vec::new(),
            span: at(),
        },
        abstract_declarator: None,
        span: at(),
    }
}

fn member(ty: Vec<TypeSpecifier>, symbol: Symbol) -> StructMember {
    StructMember {
        specifiers: SpecifierQualifierList {
            type_specifiers: ty,
            type_qualifiers: Vec::new(),
            attributes: Vec::new(),
            span: at(),
        },
        declarators: vec![StructDeclarator {
            declarator: Some(plain(symbol)),
            bit_width: None,
            span: at(),
        }],
        attributes: Vec::new(),
        span: at(),
    }
}

fn structure(tag: Symbol, members: Option<Vec<StructMember>>) -> StructOrUnionSpecifier {
    StructOrUnionSpecifier {
        kind: StructOrUnion::Struct,
        tag: Some(tag),
        members,
        attributes: Vec::new(),
        span: at(),
    }
}

#[test]
fn operands_meet_in_the_wider_type() {
    let (r, diag) = with_analyzer(&[], |sema, _| {
        sema.analyze_expression(&Expression::Binary {
            op: BinaryOp::Add,
            left: Box::new(number(1)),
            right: Box::new(long_number(2)),
            span: at(),
        })
    });
    assert_eq!(r, Ok(CType::Long));
    assert!(diag.diagnostics.is_empty());
}

#[test]
fn comparison_is_an_int() {
    let (r, _) = with_analyzer(&[], |sema, _| {
        sema.analyze_expression(&Expression::Binary {
            op: BinaryOp::Less,
            left: Box::new(long_number(1)),
            right: Box::new(long_number(2)),
            span: at(),
        })
    });
    assert_eq!(r, Ok(CType::Int));
}

#[test]
fn undeclared_name_earns_a_warning() {
    let (r, diag) = with_analyzer(&["mystery"], |sema, s| {
        sema.analyze_expression(&Expression::FunctionCall {
            callee: Box::new(name(s[0])),
            args: vec![number(1)],
            span: at(),
        })
    });
    assert_eq!(r, Ok(CType::Int));
    assert_eq!(
        messages(&diag),
        vec!["implicit declaration of function 'mystery'".to_string()]
    );
    assert_eq!(diag.warning_count(), 1);
    assert_eq!(diag.error_count(), 0);
}

#[test]
fn known_library_function_earns_no_warning() {
    let (r, diag) = with_analyzer(&["strlen"], |sema, s| sema.analyze_expression(&name(s[0])));
    assert!(r.is_ok());
    assert!(diag.diagnostics.is_empty());
}

#[test]
fn call_of_a_number_is_refused() {
    let (r, diag) = with_analyzer(&[], |sema, _| {
        sema.analyze_expression(&Expression::FunctionCall {
            callee: Box::new(number(3)),
            args: Vec::new(),
            span: at(),
        })
    });
    assert!(r.is_err());
    assert_eq!(
        messages(&diag),
        vec!["called object is not a function or function pointer".to_string()]
    );
}

#[test]
fn indirection_needs_a_pointer() {
    let (r, diag) = with_analyzer(&[], |sema, _| {
        sema.analyze_expression(&Expression::UnaryOp {
            op: UnaryOp::Deref,
            operand: Box::new(number(3)),
            span: at(),
        })
    });
    assert!(r.is_err());
    assert_eq!(
        messages(&diag),
        vec!["indirection requires pointer operand".to_string()]
    );
}

#[test]
fn declared_pointer_is_dereferenced() {
    let (r, diag) = with_analyzer(&["p"], |sema, s| {
        let pointer = Declarator {
            pointer: Some(Pointer {
                qualifiers: Vec::new(),
                inner: None,
            }),
            direct: DirectDeclarator::Identifier(s[0], at()),
            attributes: Vec::new(),
            span: at(),
        };
        let d = declaration(vec![TypeSpecifier::Char], None, pointer, None);
        sema.analyze_declaration(&d).unwrap();
        sema.analyze_expression(&Expression::UnaryOp {
            op: UnaryOp::Deref,
            operand: Box::new(name(s[0])),
            span: at(),
        })
    });
    assert_eq!(r, Ok(CType::Char));
    assert!(diag.diagnostics.is_empty());
}

#[test]
fn nesting_is_limited() {
    for (levels, fits) in [(511usize, true), (512, false)] {
        let mut e = number(1);
        for _ in 0..levels {
            e = Expression::Parenthesized {
                inner: Box::new(e),
                span: at(),
            };
        }
        let (r, diag) = with_analyzer(&[], |sema, _| {
            let r = sema.analyze_expression(&e);
            assert_eq!(sema.recursion_depth, 0);
            r
        });
        assert_eq!(r.is_ok(), fits);
        assert_eq!(diag.error_count(), if fits { 0 } else { 1 });
    }
}

#[test]
fn jumps_out_of_nothing_are_reported() {
    let (_, diag) = with_analyzer(&[], |sema, _| {
        assert!(sema
            .analyze_statement(&Statement::Break { span: at() })
            .is_ok());
        assert!(sema
            .analyze_statement(&Statement::Continue { span: at() })
            .is_ok());
        assert!(sema
            .analyze_statement(&Statement::Case {
                value: Box::new(number(1)),
                statement: empty_statement(),
                span: at(),
            })
            .is_ok());
        assert!(sema
            .analyze_statement(&Statement::Default {
                statement: empty_statement(),
                span: at(),
            })
            .is_ok());
    });
    assert_eq!(
        messages(&diag),
        vec![
            "'break' statement not in loop or switch statement".to_string(),
            "'continue' statement not in loop statement".to_string(),
            "'case' label not within a switch statement".to_string(),
            "'default' label not within a switch statement".to_string(),
        ]
    );
}

#[test]
fn loops_may_be_left() {
    let (_, diag) = with_analyzer(&[], |sema, _| {
        let body = Statement::Compound(CompoundStatement {
            items: vec![
                statement(Statement::Break { span: at() }),
                statement(Statement::Continue { span: at() }),
            ],
            span: at(),
        });
        let s = Statement::While {
            condition: Box::new(number(1)),
            body: Box::new(body),
            span: at(),
        };
        assert!(sema.analyze_statement(&s).is_ok());
        assert!(!sema.in_loop);
        assert_eq!(sema.scopes.depth(), 0);
        assert_eq!(sema.recursion_depth, 0);
    });
    assert!(diag.diagnostics.is_empty());
}

#[test]
fn duplicate_cases_and_defaults_are_reported() {
    let (_, diag) = with_analyzer(&[], |sema, _| {
        let label = |v: u128| {
            statement(Statement::Case {
                value: Box::new(number(v)),
                statement: empty_statement(),
                span: at(),
            })
        };
        let default = || {
            statement(Statement::Default {
                statement: empty_statement(),
                span: at(),
            })
        };
        let s = Statement::Switch {
            condition: Box::new(number(1)),
            body: Box::new(Statement::Compound(CompoundStatement {
                items: vec![label(1), label(2), label(1), default(), default()],
                span: at(),
            })),
            span: at(),
        };
        assert!(sema.analyze_statement(&s).is_ok());
        assert!(!sema.in_switch);
    });
    assert_eq!(
        messages(&diag),
        vec![
            "duplicate case value".to_string(),
            "multiple default labels in one switch".to_string(),
        ]
    );
    assert_eq!(
        diag.diagnostics[0].note.as_ref().unwrap().message,
        "previous case defined here"
    );
}

#[test]
fn switch_needs_an_integer() {
    let (_, diag) = with_analyzer(&[], |sema, _| {
        let s = Statement::Switch {
            condition: Box::new(Expression::UnaryOp {
                op: UnaryOp::AddressOf,
                operand: Box::new(number(1)),
                span: at(),
            }),
            body: empty_statement(),
            span: at(),
        };
        assert!(sema.analyze_statement(&s).is_ok());
    });
    assert_eq!(
        messages(&diag),
        vec!["switch controlling expression is not an integer type".to_string()]
    );
}

#[test]
fn used_label_must_be_defined() {
    let (_, diag) = with_analyzer(&["f", "there"], |sema, s| {
        let items = vec![statement(Statement::Goto {
            label: s[1],
            span: at(),
        })];
        let f = definition(vec![TypeSpecifier::Void], s[0], Vec::new(), items);
        assert!(sema.analyze_function_definition(&f).is_ok());
        assert_eq!(sema.scopes.depth(), 0);
    });
    assert_eq!(messages(&diag), vec!["use of undefined label".to_string()]);
}

#[test]
fn label_may_be_used_before_it_stands() {
    let (_, diag) = with_analyzer(&["f", "there"], |sema, s| {
        let items = vec![
            statement(Statement::Goto {
                label: s[1],
                span: at(),
            }),
            statement(Statement::Labeled {
                label: s[1],
                attributes: Vec::new(),
                statement: empty_statement(),
                span: at(),
            }),
        ];
        let f = definition(vec![TypeSpecifier::Void], s[0], Vec::new(), items);
        assert!(sema.analyze_function_definition(&f).is_ok());
    });
    assert!(diag.diagnostics.is_empty());
}

#[test]
fn label_may_be_defined_once() {
    let (_, diag) = with_analyzer(&["f", "here"], |sema, s| {
        let label = || {
            statement(Statement::Labeled {
                label: s[1],
                attributes: Vec::new(),
                statement: empty_statement(),
                span: at(),
            })
        };
        let f = definition(
            vec![TypeSpecifier::Void],
            s[0],
            Vec::new(),
            vec![label(), label()],
        );
        assert!(sema.analyze_function_definition(&f).is_ok());
    });
    assert_eq!(messages(&diag), vec!["duplicate label".to_string()]);
}

#[test]
fn returned_values_are_checked() {
    let give = || {
        statement(Statement::Return {
            value: Some(Box::new(number(1))),
            span: at(),
        })
    };
    let leave = || {
        statement(Statement::Return {
            value: None,
            span: at(),
        })
    };
    let (_, diag) = with_analyzer(&["f", "g", "h"], |sema, s| {
        for (symbol, ty, item) in [
            (s[0], TypeSpecifier::Void, give()),
            (s[1], TypeSpecifier::Int, leave()),
            (s[2], TypeSpecifier::Int, give()),
        ] {
            let f = definition(vec![ty], symbol, Vec::new(), vec![item]);
            assert!(sema.analyze_function_definition(&f).is_ok());
            assert!(sema.current_function_return_type.is_none());
        }
    });
    assert_eq!(
        messages(&diag),
        vec![
            "void function should not return a value".to_string(),
            "non-void function should return a value".to_string(),
        ]
    );
    assert_eq!(diag.diagnostics[0].severity, Severity::Error);
    assert_eq!(diag.diagnostics[1].severity, Severity::Warning);
}

#[test]
fn parameters_are_known_in_the_body_only() {
    let ((), diag) = with_analyzer(&["f", "x"], |sema, s| {
        let parameter = ParameterDeclaration {
            specifiers: specifiers(vec![TypeSpecifier::Long], None),
            declarator: Some(plain(s[1])),
            abstract_declarator: None,
            span: at(),
        };
        let items = vec![statement(Statement::Expression(Some(Box::new(name(
            s[1],
        )))))];
        let f = definition(vec![TypeSpecifier::Void], s[0], vec![parameter], items);
        assert!(sema.analyze_function_definition(&f).is_ok());
        assert!(sema.scopes.lookup_ordinary(s[1]).is_none());
        assert!(sema.scopes.lookup_ordinary(s[0]).is_some());
    });
    assert!(diag.diagnostics.is_empty());
}

#[test]
fn inner_declaration_hides_the_outer() {
    let ((), diag) = with_analyzer(&["x"], |sema, s| {
        sema.analyze_declaration(&int_variable(s[0], None)).unwrap();
        let outer = sema.scopes.lookup_ordinary(s[0]);
        let block = Statement::Compound(CompoundStatement {
            items: vec![BlockItem::Declaration(Box::new(declaration(
                vec![TypeSpecifier::Char],
                None,
                plain(s[0]),
                None,
            )))],
            span: at(),
        });
        sema.analyze_statement(&block).unwrap();
        assert_eq!(sema.scopes.lookup_ordinary(s[0]), outer);
        assert_eq!(sema.analyze_expression(&name(s[0])), Ok(CType::Int));
    });
    assert!(diag.diagnostics.is_empty());
}

#[test]
fn contradicting_declarations_are_refused() {
    let ((), diag) = with_analyzer(&["x"], |sema, s| {
        assert!(sema
            .analyze_declaration(&int_variable(s[0], Some(number(1))))
            .is_ok());
        assert!(sema
            .analyze_declaration(&int_variable(s[0], Some(number(2))))
            .is_ok());
        let f = declaration(
            vec![TypeSpecifier::Int],
            None,
            function(s[0], Vec::new()),
            None,
        );
        assert!(sema.analyze_declaration(&f).is_ok());
    });
    assert_eq!(
        messages(&diag),
        vec![
            "redefinition of symbol".to_string(),
            "redeclaration as a different kind of symbol".to_string(),
        ]
    );
}

#[test]
fn tentative_definitions_are_settled() {
    let ((), diag) = with_analyzer(&["x"], |sema, s| {
        sema.analyze_declaration(&int_variable(s[0], None)).unwrap();
        sema.analyze_declaration(&int_variable(s[0], None)).unwrap();
        let id: SymbolId = sema.scopes.lookup_ordinary(s[0]).unwrap();
        assert!(sema.symbols.get(id).unwrap().is_tentative);
        assert!(sema.finalize().is_ok());
        let entry = sema.symbols.get(id).unwrap();
        assert!(entry.is_defined);
        assert!(!entry.is_tentative);
    });
    assert!(diag.diagnostics.is_empty());
}

#[test]
fn idle_static_is_reported() {
    let ((), diag) = with_analyzer(&["x"], |sema, s| {
        let d = declaration(
            vec![TypeSpecifier::Int],
            Some(StorageClass::Static),
            plain(s[0]),
            Some(number(1)),
        );
        sema.analyze_declaration(&d).unwrap();
        assert!(sema.finalize().is_ok());
    });
    assert_eq!(
        messages(&diag),
        vec!["'x' defined but not used".to_string()]
    );
    assert_eq!(diag.error_count(), 0);
}

#[test]
fn initializer_gives_an_array_its_length() {
    let ((), _) = with_analyzer(&["a"], |sema, s| {
        let d = declarator(DirectDeclarator::Array {
            base: Box::new(DirectDeclarator::Identifier(s[0], at())),
            size: None,
            span: at(),
        });
        let mut decl = declaration(vec![TypeSpecifier::Int], None, d, None);
        let item = |v: u128| DesignatedInitializer {
            designators: Vec::new(),
            initializer: Initializer::Expression(Box::new(number(v))),
            span: at(),
        };
        decl.declarators[0].initializer = Some(Initializer::List {
            designators_and_initializers: vec![item(1), item(2), item(3)],
            span: at(),
        });
        sema.analyze_declaration(&decl).unwrap();
        let id = sema.scopes.lookup_ordinary(s[0]).unwrap();
        assert_eq!(
            sema.symbols.get(id).unwrap().ty,
            CType::Array(Box::new(CType::Int), Some(3))
        );
    });
}

#[test]
fn members_of_a_struct_are_found() {
    let ((), diag) = with_analyzer(&["P", "a", "b", "p", "z"], |sema, s| {
        let spec = structure(
            s[0],
            Some(vec![
                member(vec![TypeSpecifier::Int], s[1]),
                member(vec![TypeSpecifier::Char], s[2]),
            ]),
        );
        let d = declaration(vec![TypeSpecifier::Struct(spec)], None, plain(s[3]), None);
        sema.analyze_declaration(&d).unwrap();
        let access = |m: Symbol| Expression::MemberAccess {
            object: Box::new(name(s[3])),
            member: m,
            span: at(),
        };
        assert_eq!(sema.analyze_expression(&access(s[2])), Ok(CType::Char));
        assert!(sema.analyze_expression(&access(s[4])).is_err());
    });
    assert_eq!(
        messages(&diag),
        vec!["no member named 'z' in struct/union".to_string()]
    );
}

#[test]
fn tag_has_one_kind() {
    let ((), diag) = with_analyzer(&["T", "a"], |sema, s| {
        let spec = structure(s[0], Some(vec![member(vec![TypeSpecifier::Int], s[1])]));
        assert!(sema.analyze_struct_definition(&spec).is_ok());
        let union = StructOrUnionSpecifier {
            kind: StructOrUnion::Union,
            ..structure(s[0], Some(Vec::new()))
        };
        assert!(sema.analyze_struct_definition(&union).is_err());
    });
    assert_eq!(
        messages(&diag),
        vec!["use of tag with wrong kind (struct vs union vs enum)".to_string()]
    );
}

#[test]
fn enumerators_count_up() {
    let ((), diag) = with_analyzer(&["E", "A", "B", "C"], |sema, s| {
        let enumerator = |n: Symbol, value: Option<u128>| Enumerator {
            name: n,
            value: value.map(|v| Box::new(number(v))),
            span: at(),
        };
        let spec = EnumSpecifier {
            tag: Some(s[0]),
            enumerators: Some(vec![
                enumerator(s[1], None),
                enumerator(s[2], Some(5)),
                enumerator(s[3], None),
            ]),
            attributes: Vec::new(),
            span: at(),
        };
        assert!(sema.analyze_enum_definition(&spec).is_ok());
        assert_eq!(sema.enum_constant_values.get("A"), Some(&0));
        assert_eq!(sema.enum_constant_values.get("B"), Some(&5));
        assert_eq!(sema.enum_constant_values.get("C"), Some(&6));
    });
    assert!(diag.diagnostics.is_empty());
}

#[test]
fn static_assertions_are_checked() {
    let assertion = |value: u128, message: Option<Vec<u8>>| StaticAssert {
        condition: Box::new(number(value)),
        message,
        span: at(),
    };
    let ((), diag) = with_analyzer(&[], |sema, _| {
        assert!(sema.handle_static_assert(&assertion(1, None)).is_ok());
        assert!(sema.handle_static_assert(&assertion(0, None)).is_err());
        let text = Some(vec![b'n', b'o', 0xff]);
        assert!(sema.handle_static_assert(&assertion(0, text)).is_err());
    });
    assert_eq!(
        messages(&diag),
        vec![
            "static assertion failed".to_string(),
            "static assertion failed: no\u{fffd}".to_string(),
        ]
    );
}

#[test]
fn generic_selection_picks_the_matching_type() {
    let association = |ty: Option<TypeSpecifier>, e: Expression| GenericAssociation {
        ty_name: ty.map(|t| named_type(vec![t])),
        expression: Box::new(e),
        span: at(),
    };
    let (r, diag) = with_analyzer(&[], |sema, _| {
        sema.analyze_expression(&Expression::Generic {
            controlling: Box::new(number(1)),
            associations: vec![
                association(None, number(1)),
                association(Some(TypeSpecifier::Int), long_number(1)),
            ],
            span: at(),
        })
    });
    assert_eq!(r, Ok(CType::Long));
    assert!(diag.diagnostics.is_empty());

    let (r, diag) = with_analyzer(&[], |sema, _| {
        sema.analyze_expression(&Expression::Generic {
            controlling: Box::new(number(1)),
            associations: vec![association(None, number(1)), association(None, number(1))],
            span: at(),
        })
    });
    assert!(r.is_err());
    assert_eq!(
        messages(&diag),
        vec!["duplicate default case in _Generic association".to_string()]
    );

    let (r, diag) = with_analyzer(&[], |sema, _| {
        sema.analyze_expression(&Expression::Generic {
            controlling: Box::new(number(1)),
            associations: vec![association(Some(TypeSpecifier::Double), number(1))],
            span: at(),
        })
    });
    assert!(r.is_err());
    assert_eq!(
        messages(&diag),
        vec!["_Generic selection has no matching association".to_string()]
    );
}

#[test]
fn generic_selection_settles_its_controlling_type() {
    let association = |ty: Option<TypeName>, e: Expression| GenericAssociation {
        ty_name: ty,
        expression: Box::new(e),
        span: at(),
    };
    let pointer_name = || TypeName {
        abstract_declarator: Some(AbstractDeclarator {
            pointer: Some(Pointer {
                qualifiers: Vec::new(),
                inner: None,
            }),
            direct: None,
        }),
        ..named_type(vec![TypeSpecifier::Int])
    };
    let associations = || {
        vec![
            association(Some(pointer_name()), long_number(1)),
            association(None, number(1)),
        ]
    };
    let array = CType::Array(Box::new(CType::Int), Some(2));
    let constant = TypeQualifiers {
        is_const: true,
        ..TypeQualifiers::default()
    };
    let ((), diag) = with_analyzer(&[], |sema, _| {
        assert_eq!(
            sema.resolve_generic_selection(&array, &associations(), at()),
            Ok(CType::Long)
        );
        let qualified = CType::Qualified(Box::new(CType::Long), constant);
        assert_eq!(
            sema.resolve_generic_selection(
                &qualified,
                &vec![association(
                    Some(named_type(vec![TypeSpecifier::Long])),
                    long_number(1),
                )],
                at(),
            ),
            Ok(CType::Long)
        );
    });
    assert!(diag.diagnostics.is_empty());

    let ((), diag) = with_analyzer(&[], |sema, _| {
        let mut twice = associations();
        twice.push(association(Some(pointer_name()), number(1)));
        assert_eq!(
            sema.resolve_generic_selection(&array, &twice, at()),
            Ok(CType::Long)
        );
        twice.push(association(None, wrong()));
        assert_eq!(
            sema.resolve_generic_selection(&array, &twice, at()),
            Err(())
        );
    });
    assert_eq!(
        messages(&diag),
        vec![
            "duplicate type name in _Generic association".to_string(),
            "duplicate type name in _Generic association".to_string(),
            "duplicate default case in _Generic association".to_string(),
        ]
    );
}

#[test]
fn compound_literal_has_the_type_that_it_names() {
    let literal = |ty: TypeSpecifier, initializer: Initializer| Expression::CompoundLiteral {
        ty_name: Box::new(named_type(vec![ty])),
        initializer,
        span: at(),
    };
    let list = |e: Expression| Initializer::List {
        designators_and_initializers: vec![DesignatedInitializer {
            designators: Vec::new(),
            initializer: Initializer::Expression(Box::new(e)),
            span: at(),
        }],
        span: at(),
    };
    let ((), diag) = with_analyzer(&["S", "a"], |sema, s| {
        let e = literal(TypeSpecifier::Double, list(number(1)));
        assert_eq!(sema.analyze_expression(&e), Ok(CType::Double));
        let tag = structure(s[0], Some(vec![member(vec![TypeSpecifier::Long], s[1])]));
        let e = Expression::MemberAccess {
            object: Box::new(literal(TypeSpecifier::Struct(tag), list(number(1)))),
            member: s[1],
            span: at(),
        };
        assert_eq!(sema.analyze_expression(&e), Ok(CType::Long));
    });
    assert!(diag.diagnostics.is_empty());

    let (r, diag) = with_analyzer(&[], |sema, _| {
        sema.analyze_expression(&literal(TypeSpecifier::Long, list(wrong())))
    });
    assert_eq!(r, Ok(CType::Long));
    assert_eq!(
        messages(&diag),
        vec!["indirection requires pointer operand".to_string()]
    );
}

#[test]
fn order_of_type_keywords_does_not_matter() {
    let ((), _) = with_analyzer(&[], |sema, _| {
        let unsigned_long_long = [
            vec![
                TypeSpecifier::Unsigned,
                TypeSpecifier::Long,
                TypeSpecifier::Long,
                TypeSpecifier::Int,
            ],
            vec![
                TypeSpecifier::Long,
                TypeSpecifier::Int,
                TypeSpecifier::Unsigned,
                TypeSpecifier::Long,
            ],
            vec![
                TypeSpecifier::Int,
                TypeSpecifier::Long,
                TypeSpecifier::Long,
                TypeSpecifier::Unsigned,
            ],
        ];
        for specs in unsigned_long_long {
            assert_eq!(
                sema.resolve_type_from_type_specifiers(&specs, &Vec::new()),
                CType::ULongLong
            );
        }
        for specs in [
            vec![
                TypeSpecifier::Complex,
                TypeSpecifier::Long,
                TypeSpecifier::Double,
            ],
            vec![
                TypeSpecifier::Double,
                TypeSpecifier::Complex,
                TypeSpecifier::Long,
            ],
        ] {
            assert_eq!(
                sema.resolve_type_from_type_specifiers(&specs, &Vec::new()),
                CType::Complex(Box::new(CType::LongDouble))
            );
        }
    });
}

#[test]
fn declarators_build_types_from_the_inside_out() {
    let ((), _) = with_analyzer(&["fn", "arr", "x"], |sema, s| {
        let star = || {
            Some(Pointer {
                qualifiers: Vec::new(),
                inner: None,
            })
        };
        let inside = |symbol: Symbol| {
            Box::new(DirectDeclarator::Parenthesized(Box::new(Declarator {
                pointer: star(),
                ..plain(symbol)
            })))
        };
        let pointer = |t: CType| CType::Pointer(Box::new(t), TypeQualifiers::default());
        let unnamed = ParameterDeclaration {
            specifiers: specifiers(vec![TypeSpecifier::Void], None),
            declarator: None,
            abstract_declarator: Some(AbstractDeclarator {
                pointer: star(),
                direct: None,
            }),
            span: at(),
        };
        let of_function = declarator(DirectDeclarator::Function {
            base: inside(s[0]),
            params: vec![unnamed],
            is_variadic: false,
            span: at(),
        });
        assert_eq!(
            sema.apply_declarator_to_type(CType::Void, &of_function),
            pointer(CType::Function {
                return_type: Box::new(CType::Void),
                params: vec![pointer(CType::Void)],
                variadic: false,
            })
        );
        let array = |base: Box<DirectDeclarator>, n: u128| DirectDeclarator::Array {
            base,
            size: Some(Box::new(number(n))),
            span: at(),
        };
        assert_eq!(
            sema.apply_declarator_to_type(CType::Int, &declarator(array(inside(s[1]), 5))),
            pointer(CType::Array(Box::new(CType::Int), Some(5)))
        );
        let inner = Box::new(array(
            Box::new(DirectDeclarator::Identifier(s[2], at())),
            3,
        ));
        assert_eq!(
            sema.apply_declarator_to_type(CType::Int, &declarator(array(inner, 5))),
            CType::Array(
                Box::new(CType::Array(Box::new(CType::Int), Some(5))),
                Some(3)
            )
        );
    });
}

#[test]
fn constraints_of_inline_assembly_are_checked() {
    let operand = |constraint: &[u8], symbolic: Option<Symbol>, e: Expression| AsmOperand {
        symbolic_name: symbolic,
        constraint: constraint.to_vec(),
        expression: Box::new(e),
        span: at(),
    };
    let ((), diag) = with_analyzer(&["x"], |sema, s| {
        let x = || name(s[0]);
        let target = Expression::UnaryOp {
            op: UnaryOp::Deref,
            operand: Box::new(number(1)),
            span: at(),
        };
        let code = AsmStatement {
            is_volatile: false,
            template: b"nop".to_vec(),
            outputs: vec![
                operand(b"=r", Some(s[0]), x()),
                operand(&[0xff], None, x()),
                operand(b"+r", None, target),
                operand(b"=r", None, number(1)),
            ],
            inputs: vec![operand(b"=m", None, x()), operand(b"r", Some(s[0]), number(1))],
            clobbers: Vec::new(),
            goto_labels: Vec::new(),
            span: at(),
        };
        assert!(sema.analyze_asm_statement(&code).is_ok());
    });
    assert_eq!(
        messages(&diag),
        vec![
            "invalid output constraint '\u{fffd}': must start with '=' or '+'".to_string(),
            "asm output operand is not an lvalue".to_string(),
            "invalid input constraint '=m': input constraints must not start with '='".to_string(),
            "duplicate asm operand name".to_string(),
        ]
    );
}

#[test]
fn error_makes_a_unit_fail_and_analysis_goes_on() {
    let ((), diag) = with_analyzer(&["x", "y"], |sema, s| {
        let wrong = Declaration {
            specifiers: specifiers(Vec::new(), None),
            declarators: Vec::new(),
            static_assert: Some(StaticAssert {
                condition: Box::new(number(0)),
                message: None,
                span: at(),
            }),
            span: at(),
        };
        let unit = TranslationUnit {
            declarations: vec![
                ExternalDeclaration::Declaration(Box::new(wrong)),
                ExternalDeclaration::Declaration(Box::new(int_variable(s[1], None))),
            ],
            span: at(),
        };
        assert!(sema.analyze(&unit).is_err());
        assert!(sema.scopes.lookup_ordinary(s[1]).is_some());
        assert_eq!(sema.scopes.depth(), 0);
    });
    assert_eq!(diag.error_count(), 1);
}

#[test]
fn typedef_names_are_registered() {
    let ((), diag) = with_analyzer(&["size", "n"], |sema, s| {
        let d = declaration(
            vec![TypeSpecifier::Unsigned, TypeSpecifier::Long],
            Some(StorageClass::Typedef),
            plain(s[0]),
            None,
        );
        sema.analyze_declaration(&d).unwrap();
        sema.register_typedef(s[0]);
        let v = declaration(
            vec![TypeSpecifier::TypedefName(s[0])],
            None,
            plain(s[1]),
            None,
        );
        sema.analyze_declaration(&v).unwrap();
        let t = sema.analyze_expression(&name(s[1])).unwrap();
        assert!(sema.is_integer_type(&t));
        assert_eq!(sema.integer_rank(sema.strip_qualifiers(&t)), 4);
    });
    assert!(diag.diagnostics.is_empty());
}

#[test]
fn compiler_knows_the_argument_list_type() {
    let ((), _) = with_analyzer(&["__builtin_va_list"], |sema, s| {
        let id = sema.scopes.lookup_ordinary(s[0]).unwrap();
        assert_eq!(
            sema.symbols.get(id).unwrap().ty,
            CType::Pointer(Box::new(CType::Void), TypeQualifiers::default())
        );
    });
}

fn wrong() -> Expression {
    Expression::UnaryOp {
        op: UnaryOp::Deref,
        operand: Box::new(number(1)),
        span: at(),
    }
}

fn wrong_for(body: Box<Statement>) -> Statement {
    Statement::For {
        init: None,
        condition: Some(Box::new(wrong())),
        increment: None,
        body,
        span: at(),
    }
}

#[test]
fn failing_for_leaves_its_scope() {
    let ((), diag) = with_analyzer(&["f", "g", "x"], |sema, s| {
        let body = vec![statement(wrong_for(empty_statement()))];
        let f = definition(vec![TypeSpecifier::Void], s[0], Vec::new(), body);
        assert!(sema.analyze_function_definition(&f).is_ok());
        assert_eq!(sema.scopes.depth(), 0);
        assert!(sema.current_function_return_type.is_none());
        let body = Statement::Expression(Some(Box::new(wrong())));
        let outer = Statement::For {
            init: None,
            condition: None,
            increment: None,
            body: Box::new(body),
            span: at(),
        };
        let g = definition(
            vec![TypeSpecifier::Void],
            s[1],
            Vec::new(),
            vec![statement(outer), statement(Statement::Break { span: at() })],
        );
        assert!(sema.analyze_function_definition(&g).is_ok());
        assert_eq!(sema.scopes.depth(), 0);
        assert!(!sema.in_loop);
    });
    assert_eq!(
        messages(&diag),
        vec![
            "indirection requires pointer operand".to_string(),
            "indirection requires pointer operand".to_string(),
            "'break' statement not in loop or switch statement".to_string(),
        ]
    );
}

#[test]
fn failing_switch_gives_its_labels_back() {
    let ((), diag) = with_analyzer(&[], |sema, _| {
        let inner = Statement::Switch {
            condition: Box::new(number(1)),
            body: Box::new(Statement::Case {
                value: Box::new(number(2)),
                statement: Box::new(Statement::Expression(Some(Box::new(wrong())))),
                span: at(),
            }),
            span: at(),
        };
        assert!(sema.analyze_statement(&inner).is_err());
        assert!(!sema.in_switch);
        assert!(sema.switch_case_values.is_empty());
        assert!(!sema.switch_has_default);
    });
    assert_eq!(diag.error_count(), 1);
}

#[test]
fn failing_statement_expression_leaves_its_scope() {
    let ((), diag) = with_analyzer(&[], |sema, _| {
        let e = Expression::StatementExpression {
            compound: CompoundStatement {
                items: vec![statement(Statement::Expression(Some(Box::new(wrong()))))],
                span: at(),
            },
            span: at(),
        };
        assert!(sema.analyze_expression(&e).is_err());
        assert_eq!(sema.scopes.depth(), 0);
    });
    assert_eq!(diag.error_count(), 1);
}

#[test]
fn labels_of_one_function_are_none_of_the_next() {
    let ((), diag) = with_analyzer(&["f", "g"], |sema, s| {
        for symbol in [s[0], s[1]] {
            let label = Statement::Case {
                value: Box::new(number(1)),
                statement: empty_statement(),
                span: at(),
            };
            let f = definition(
                vec![TypeSpecifier::Void],
                symbol,
                Vec::new(),
                vec![statement(label)],
            );
            assert!(sema.analyze_function_definition(&f).is_ok());
            assert!(sema.switch_case_values.is_empty());
        }
    });
    assert_eq!(
        messages(&diag),
        vec!["'case' label not within a switch statement".to_string(); 2]
    );
}

#[test]
fn initializers_are_analyzed() {
    let ((), diag) = with_analyzer(&["S", "a", "s", "m", "x"], |sema, s| {
        let tag = structure(s[0], Some(vec![member(vec![TypeSpecifier::Int], s[1])]));
        let d = declaration(vec![TypeSpecifier::Struct(tag)], None, plain(s[2]), None);
        assert!(sema.analyze_declaration(&d).is_ok());
        let access = |m: Symbol| Expression::MemberAccess {
            object: Box::new(name(s[2])),
            member: m,
            span: at(),
        };
        assert!(sema
            .analyze_declaration(&int_variable(s[4], Some(access(s[1]))))
            .is_ok());
        assert!(sema
            .analyze_statement(&Statement::Declaration(Box::new(int_variable(
                s[4],
                Some(access(s[1]))
            ))))
            .is_ok());
        assert!(sema
            .analyze_declaration(&int_variable(s[3], Some(access(s[3]))))
            .is_ok());
    });
    assert!(messages(&diag).contains(&"no member named 'm' in struct/union".to_string()));
}

#[test]
fn every_expression_of_a_list_is_analyzed() {
    let ((), diag) = with_analyzer(&["x", "m"], |sema, s| {
        let entry = |designators: Vec<Designator>, initializer: Initializer| DesignatedInitializer {
            designators,
            initializer,
            span: at(),
        };
        let value = |e: Expression| Initializer::Expression(Box::new(e));
        let list = |items: Vec<DesignatedInitializer>| Initializer::List {
            designators_and_initializers: items,
            span: at(),
        };
        let init = list(vec![
            entry(Vec::new(), value(wrong())),
            entry(
                vec![
                    Designator::Index(Box::new(wrong()), at()),
                    Designator::IndexRange(Box::new(number(1)), Box::new(wrong()), at()),
                    Designator::Field(s[1], at()),
                ],
                list(vec![entry(Vec::new(), value(wrong()))]),
            ),
            entry(Vec::new(), value(number(1))),
        ]);
        let mut d = int_variable(s[0], None);
        d.declarators[0].initializer = Some(init);
        assert!(sema.analyze_declaration(&d).is_ok());
    });
    assert_eq!(
        messages(&diag),
        vec!["indirection requires pointer operand".to_string(); 4]
    );
}

#[test]
fn name_is_known_in_its_initializer() {
    let ((), diag) = with_analyzer(&["x"], |sema, s| {
        assert!(sema
            .analyze_declaration(&int_variable(s[0], Some(name(s[0]))))
            .is_ok());
    });
    assert!(diag.diagnostics.is_empty());
}

#[test]
fn inferred_type_is_that_of_the_only_analysis() {
    let ((), diag) = with_analyzer(&["x"], |sema, s| {
        let d = declaration(
            vec![TypeSpecifier::AutoType],
            None,
            plain(s[0]),
            Some(wrong()),
        );
        assert!(sema.analyze_declaration(&d).is_ok());
    });
    assert_eq!(diag.error_count(), 1);
}

#[test]
fn inference_asks_the_locals_first() {
    let ((), _) = with_analyzer(&["x"], |sema, s| {
        assert!(sema.analyze_declaration(&int_variable(s[0], None)).is_ok());
        let mut locals = Locals::new();
        assert_eq!(
            sema.infer_typeof_with_locals(&name(s[0]), &locals),
            CType::Int
        );
        locals.insert(s[0].0, CType::Double);
        assert_eq!(
            sema.infer_typeof_with_locals(&name(s[0]), &locals),
            CType::Double
        );
    });
}
