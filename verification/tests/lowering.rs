use bcc::common::diagnostics::{DiagnosticEngine, Span};
use bcc::common::source_map::SourceMap;
use bcc::common::string_interner::{Interner, Symbol};
use bcc::common::target::Target;
use bcc::common::type_builder::TypeBuilder;
use bcc::common::types::{CType, StructField, TypeQualifiers};
use bcc::driver::pipeline::analyze_and_lower;
use bcc::frontend::parser::ast::{
    AsmStatement, CompoundStatement, Declaration, DeclarationSpecifiers, Declarator,
    DirectDeclarator, EnumSpecifier, Enumerator, ExternalDeclaration, FunctionDefinition,
    InitDeclarator, SpecifierQualifierList, StorageClass, StructDeclarator, StructMember,
    StructOrUnion, StructOrUnionSpecifier, TranslationUnit, TypeSpecifier,
};
use bcc::frontend::sema::symbol_table::SymbolTable;
use bcc::ir::function::{BasicBlock, IrFunction};
use bcc::ir::instructions::{BlockId, Instruction, Value};
use bcc::ir::lowering::context::LoweringContext;
use bcc::ir::lowering::error::LoweringError;
use bcc::ir::lowering::unit::{
    add_anonymous_globals, alignment_of, begin_bodies, ctype_to_irtype, extract_asm_template,
    finish_lowering, size_of, AnonymousGlobal, Lowering, WorkItem,
};
use bcc::ir::module::{Constant, FunctionDeclaration, GlobalVariable, IrModule, Linkage};
use bcc::ir::types::IrType;

fn at() -> Span {
    Span::dummy()
}

fn field(name: &str, ty: CType) -> StructField {
    StructField {
        name: Some(name.to_string()),
        ty,
        bit_width: None,
    }
}

fn bits(name: &str, ty: CType, width: u32) -> StructField {
    StructField {
        bit_width: Some(width),
        ..field(name, ty)
    }
}

fn structure(fields: Vec<StructField>) -> CType {
    CType::Struct {
        name: None,
        fields,
        packed: false,
        aligned: None,
    }
}

fn pointer(t: CType) -> CType {
    CType::Pointer(Box::new(t), TypeQualifiers::default())
}

#[test]
fn scalars_have_their_sizes() {
    for (t, wide, narrow) in [
        (CType::Char, 1usize, 1usize),
        (CType::Short, 2, 2),
        (CType::Int, 4, 4),
        (CType::Long, 8, 4),
        (CType::LongLong, 8, 8),
        (CType::LongDouble, 16, 12),
        (pointer(CType::Char), 8, 4),
        (CType::Array(Box::new(CType::Int), Some(3)), 12, 12),
        (CType::Complex(Box::new(CType::Double)), 16, 16),
    ] {
        assert_eq!(size_of(&t, Target::X86_64), wide);
        assert_eq!(size_of(&t, Target::I686), narrow);
    }
    assert_eq!(alignment_of(&CType::Double, Target::I686), 4);
    assert_eq!(alignment_of(&CType::Double, Target::AArch64), 8);
}

#[test]
fn structs_are_padded_unless_packed() {
    let fields = || vec![field("c", CType::Char), field("i", CType::Int), field("d", CType::Char)];
    let t = structure(fields());
    assert_eq!(size_of(&t, Target::X86_64), 12);
    assert_eq!(alignment_of(&t, Target::X86_64), 4);
    let packed = CType::Struct {
        name: None,
        fields: fields(),
        packed: true,
        aligned: None,
    };
    assert_eq!(size_of(&packed, Target::X86_64), 6);
    assert_eq!(alignment_of(&packed, Target::X86_64), 1);
    let aligned = CType::Struct {
        name: None,
        fields: fields(),
        packed: false,
        aligned: Some(16),
    };
    assert_eq!(size_of(&aligned, Target::X86_64), 16);
    let union = CType::Union {
        name: None,
        fields: fields(),
        packed: false,
        aligned: None,
    };
    assert_eq!(size_of(&union, Target::X86_64), 4);
}

#[test]
fn bit_fields_share_their_unit() {
    let t = structure(vec![
        bits("a", CType::Int, 3),
        bits("b", CType::Int, 5),
        field("c", CType::Char),
    ]);
    assert_eq!(size_of(&t, Target::X86_64), 4);
}

#[test]
fn c_types_become_ir_types() {
    assert!(matches!(
        ctype_to_irtype(&CType::Long, Target::I686),
        IrType::I32
    ));
    assert!(matches!(
        ctype_to_irtype(&CType::Long, Target::RiscV64),
        IrType::I64
    ));
    assert!(matches!(
        ctype_to_irtype(&CType::LongDouble, Target::X86_64),
        IrType::F80
    ));
    assert!(matches!(
        ctype_to_irtype(&CType::LongDouble, Target::AArch64),
        IrType::F128
    ));
    assert!(matches!(
        ctype_to_irtype(&pointer(CType::Void), Target::X86_64),
        IrType::Ptr
    ));
    let qualified = CType::Qualified(
        Box::new(CType::Typedef {
            name: "t".to_string(),
            underlying: Box::new(CType::Atomic(Box::new(CType::UShort))),
        }),
        TypeQualifiers::only_const(),
    );
    assert!(matches!(
        ctype_to_irtype(&qualified, Target::X86_64),
        IrType::I16
    ));
    let union = CType::Union {
        name: None,
        fields: vec![field("a", CType::Char), field("b", CType::Long)],
        packed: false,
        aligned: None,
    };
    match ctype_to_irtype(&union, Target::X86_64) {
        IrType::Array(elem, n) => {
            assert!(matches!(*elem, IrType::I8));
            assert_eq!(n, 8);
        }
        other => panic!("{:?}", other),
    }
    match ctype_to_irtype(&CType::Complex(Box::new(CType::Float)), Target::X86_64) {
        IrType::Array(elem, n) => {
            assert!(matches!(*elem, IrType::F32));
            assert_eq!(n, 2);
        }
        other => panic!("{:?}", other),
    }
}

/// Runs `f` on a fresh lowering context.
fn with_context<R>(f: impl FnOnce(&mut LoweringContext) -> R) -> (R, IrModule) {
    let mut module = IrModule::new("m".to_string());
    let table = SymbolTable::new();
    let builder = TypeBuilder::new(Target::X86_64);
    let map = SourceMap::new();
    let mut diag = DiagnosticEngine::new();
    let r = {
        let mut c = LoweringContext::new(
            &mut module,
            &table,
            Target::X86_64,
            &builder,
            &map,
            &mut diag,
        );
        f(&mut c)
    };
    (r, module)
}

#[test]
fn recursion_is_limited_and_nests() {
    with_context(|c| {
        assert_eq!(c.max_recursion_depth, 512);
        for _ in 0..512 {
            assert!(c.enter_recursion().is_ok());
        }
        let error = c.enter_recursion().unwrap_err();
        assert!(matches!(
            error,
            LoweringError::RecursionLimitExceeded { limit: 512 }
        ));
        assert_eq!(
            error.text(""),
            "recursion limit exceeded during IR lowering (limit: 512)"
        );
        for _ in 0..513 {
            c.exit_recursion();
        }
        assert_eq!(c.recursion_depth, 0);
        c.exit_recursion();
        assert_eq!(c.recursion_depth, 0);
    });
}

#[test]
fn variables_are_found_where_they_were_put() {
    with_context(|c| {
        assert_eq!(c.get_variable("x"), None);
        c.set_variable("x".to_string(), Value(1));
        c.set_variable("y".to_string(), Value(2));
        c.set_variable("x".to_string(), Value(3));
        assert_eq!(c.get_variable("x"), Some(Value(3)));
        assert_eq!(c.get_variable("y"), Some(Value(2)));
    });
}

#[test]
fn equal_literals_share_a_value() {
    let (_, module) = with_context(|c| {
        let a = c.intern_string_literal(b"hello");
        let b = c.intern_string_literal(b"world");
        assert_eq!(c.intern_string_literal(b"hello"), a);
        assert_ne!(a, b);
    });
    assert_eq!(module.string_count(), 2);
}

#[test]
fn labels_and_jumps_are_kept() {
    with_context(|c| {
        c.register_label("l", BlockId(4));
        assert_eq!(c.label_targets.get("l"), Some(&BlockId(4)));
        c.pending_gotos
            .insert("l".to_string(), vec![(BlockId(1), 2)]);
        c.pending_gotos
            .insert("k".to_string(), vec![(BlockId(3), 0)]);
        assert_eq!(c.resolve_pending_gotos("l"), vec![(BlockId(1), 2)]);
        assert_eq!(c.resolve_pending_gotos("l"), vec![]);
        assert_eq!(c.resolve_pending_gotos("k"), vec![(BlockId(3), 0)]);
    });
}

#[test]
fn targets_of_jumps_nest() {
    with_context(|c| {
        assert_eq!(c.pop_break_target(), None);
        c.push_break_target(BlockId(1));
        c.push_break_target(BlockId(2));
        c.push_continue_target(BlockId(3));
        assert_eq!(c.pop_break_target(), Some(BlockId(2)));
        assert_eq!(c.pop_break_target(), Some(BlockId(1)));
        assert_eq!(c.pop_continue_target(), Some(BlockId(3)));
        assert_eq!(c.pop_continue_target(), None);
    });
}

#[test]
fn context_converts_types() {
    with_context(|c| {
        assert!(matches!(c.ctype_to_irtype(&CType::Long), IrType::I64));
    });
}

#[test]
fn errors_tell_their_place() {
    let span = Span {
        file_id: 2,
        start: 10,
        end: 12,
    };
    let unsupported = LoweringError::UnsupportedConstruct {
        description: "nested function".to_string(),
        span,
    };
    assert_eq!(
        unsupported.text(""),
        "unsupported construct at 2:10: nested function"
    );
    let conversion = LoweringError::TypeConversionError {
        from: Box::new(CType::Int),
        to: Box::new(IrType::Ptr),
        span,
    };
    assert_eq!(
        conversion.text("cannot convert"),
        "type conversion error at 2:10: cannot convert"
    );
    let internal = LoweringError::InternalError {
        message: "oops".to_string(),
    };
    assert_eq!(
        internal.text(""),
        "internal compiler error during IR lowering: oops"
    );
}

fn assembly(template: &[u8]) -> AsmStatement {
    AsmStatement {
        is_volatile: false,
        template: template.to_vec(),
        outputs: Vec::new(),
        inputs: Vec::new(),
        clobbers: Vec::new(),
        goto_labels: Vec::new(),
        span: at(),
    }
}

#[test]
fn template_is_read_leniently() {
    assert_eq!(extract_asm_template(&assembly(b"nop")), "nop");
    assert_eq!(extract_asm_template(&assembly(&[b'a', 0xff])), "a\u{fffd}");
}

fn specifiers(ty: TypeSpecifier, storage: Option<StorageClass>) -> DeclarationSpecifiers {
    DeclarationSpecifiers {
        storage_class: storage,
        type_specifiers: vec![ty],
        type_qualifiers: Vec::new(),
        function_specifiers: Vec::new(),
        attributes: Vec::new(),
        span: at(),
    }
}

fn plain(symbol: Symbol) -> Declarator {
    Declarator {
        pointer: None,
        direct: DirectDeclarator::Identifier(symbol, at()),
        attributes: Vec::new(),
        span: at(),
    }
}

fn function(symbol: Symbol) -> Declarator {
    Declarator {
        direct: DirectDeclarator::Function {
            base: Box::new(DirectDeclarator::Identifier(symbol, at())),
            params: Vec::new(),
            is_variadic: false,
            span: at(),
        },
        ..plain(symbol)
    }
}

fn declaration(specs: DeclarationSpecifiers, d: Vec<Declarator>) -> ExternalDeclaration {
    ExternalDeclaration::Declaration(Box::new(Declaration {
        specifiers: specs,
        declarators: d
            .into_iter()
            .map(|declarator| InitDeclarator {
                declarator,
                initializer: None,
                span: at(),
            })
            .collect(),
        static_assert: None,
        span: at(),
    }))
}

fn member(ty: TypeSpecifier, symbol: Symbol) -> StructMember {
    StructMember {
        specifiers: SpecifierQualifierList {
            type_specifiers: vec![ty],
            type_qualifiers: Vec::new(),
            attributes: Vec::new(),
            span: at(),
        },
        declarators: vec![StructDeclarator {
            declarator: Some(plain(symbol)),
            bit_width: None,
            span: at(),
        }],
        attributes: Vec::new(),
        span: at(),
    }
}

fn tagged(tag: Symbol, members: Option<Vec<StructMember>>) -> TypeSpecifier {
    TypeSpecifier::Struct(StructOrUnionSpecifier {
        kind: StructOrUnion::Struct,
        tag: Some(tag),
        members,
        attributes: Vec::new(),
        span: at(),
    })
}

fn lower(interner: &Interner, unit: &TranslationUnit) -> (Option<Lowering>, DiagnosticEngine) {
    let mut diag = DiagnosticEngine::new();
    let builder = TypeBuilder::new(Target::X86_64);
    let mut map = SourceMap::new();
    map.add_file("unit.c".to_string());
    let l = analyze_and_lower(unit, &mut diag, &builder, Target::X86_64, interner, &map);
    (l, diag)
}

#[test]
fn unit_is_prepared_for_lowering() {
    let mut interner = Interner::new();
    let mut symbol = |n: &str| interner.intern(n);
    let (main, proto, var, count, tag, outer, inner, a, red, green) = (
        symbol("main"),
        symbol("proto"),
        symbol("var"),
        symbol("count"),
        symbol("Inner"),
        symbol("Outer"),
        symbol("inner"),
        symbol("a"),
        symbol("RED"),
        symbol("GREEN"),
    );
    let enumeration = TypeSpecifier::Enum(EnumSpecifier {
        tag: None,
        enumerators: Some(vec![
            Enumerator {
                name: red,
                value: None,
                span: at(),
            },
            Enumerator {
                name: green,
                value: None,
                span: at(),
            },
        ]),
        attributes: Vec::new(),
        span: at(),
    });
    let body = FunctionDefinition {
        specifiers: specifiers(TypeSpecifier::Int, None),
        declarator: function(main),
        old_style_params: Vec::new(),
        body: CompoundStatement {
            items: Vec::new(),
            span: at(),
        },
        attributes: Vec::new(),
        span: at(),
    };
    let unit = TranslationUnit {
        declarations: vec![
            ExternalDeclaration::FunctionDefinition(Box::new(body)),
            declaration(specifiers(TypeSpecifier::Int, None), vec![function(proto)]),
            declaration(specifiers(TypeSpecifier::Int, None), vec![plain(var)]),
            declaration(
                specifiers(TypeSpecifier::Long, Some(StorageClass::Typedef)),
                vec![plain(count)],
            ),
            declaration(specifiers(enumeration, None), Vec::new()),
            declaration(
                specifiers(
                    tagged(outer, Some(vec![member(tagged(tag, None), inner)])),
                    None,
                ),
                Vec::new(),
            ),
            declaration(
                specifiers(tagged(tag, Some(vec![member(TypeSpecifier::Int, a)])), None),
                Vec::new(),
            ),
            ExternalDeclaration::AsmStatement(assembly(b".globl x")),
            ExternalDeclaration::AsmStatement(assembly(b"")),
            ExternalDeclaration::Empty,
        ],
        span: at(),
    };
    let (lowering, diag) = lower(&interner, &unit);
    assert!(!diag.has_errors());
    let mut l = lowering.unwrap();
    assert_eq!(l.module.name(), "unit.c");
    assert_eq!(l.module.inline_asm(), &vec![".globl x".to_string()]);
    assert_eq!(
        l.work,
        vec![
            WorkItem::FunctionDeclaration(1),
            WorkItem::GlobalVariable(2),
            WorkItem::FunctionDefinition(0),
        ]
    );
    assert_eq!(l.typedefs.get("count"), Some(&CType::Long));
    assert_eq!(
        l.typedefs.get("__builtin_va_list"),
        Some(&pointer(CType::Void))
    );
    assert_eq!(l.enum_constants.get("GREEN"), Some(&1));
    assert_eq!(l.tags, vec!["Outer".to_string(), "Inner".to_string()]);
    assert_eq!(size_of(l.definitions.get("Outer").unwrap(), Target::X86_64), 4);

    l.module.add_global(GlobalVariable::new(
        "var".to_string(),
        IrType::I32,
        None,
    ));
    l.module.set_global_c_type("var".to_string(), CType::Char);
    l.module.set_global_c_type("var".to_string(), CType::Int);
    l.variable_types.insert("known".to_string(), CType::Long);
    l.module.set_global_c_type("known".to_string(), CType::Char);
    begin_bodies(
        &mut l,
        vec![AnonymousGlobal {
            name: "__compound_literal.0".to_string(),
            ty: IrType::I8,
            initializer: Constant::Integer(65),
            c_type: CType::Char,
        }],
    );
    assert_eq!(l.variable_types.get("var"), Some(&CType::Int));
    assert_eq!(l.variable_types.get("known"), Some(&CType::Long));
    assert_eq!(l.variable_types.get("__compound_literal.0"), None);
    let globals = l.module.globals();
    assert_eq!(globals[0].linkage, Linkage::External);
    assert_eq!(globals[0].initializer, None);
    assert_eq!(globals[1].name, "__compound_literal.0");
    assert_eq!(globals[1].linkage, Linkage::Internal);
    assert!(matches!(globals[1].ty, IrType::I8));
    assert_eq!(globals[1].initializer, Some(Constant::Integer(65)));
    assert_eq!(
        l.module.global_c_type("__compound_literal.0"),
        Some(&CType::Char)
    );
    assert_eq!(l.module.global_c_type("var"), Some(&CType::Int));
    assert_eq!(l.module.global_c_type("other"), None);
    add_anonymous_globals(&mut l.module, Vec::new());
    assert_eq!(l.module.globals().len(), 2);
}

#[test]
fn module_holds_what_was_put_into_it() {
    let mut module = IrModule::new("m.c".to_string());
    module.add_function(IrFunction {
        name: "main".to_string(),
        return_type: IrType::I32,
        params: Vec::new(),
        is_definition: true,
        blocks: vec![BasicBlock {
            instructions: vec![Instruction {
                result: None,
                operation: "ret".to_string(),
                ty: IrType::I32,
                operands: vec![Value(0)],
                targets: Vec::new(),
            }],
            successors: Vec::new(),
            predecessors: Vec::new(),
        }],
    });
    module.add_declaration(FunctionDeclaration {
        name: "puts".to_string(),
        return_type: IrType::I32,
        params: vec![IrType::Ptr],
        variadic: false,
        linkage: Linkage::External,
    });
    assert_eq!(module.functions().len(), 1);
    assert_eq!(module.functions()[0].name, "main");
    assert_eq!(module.functions()[0].blocks[0].instructions[0].operands, vec![Value(0)]);
    assert_eq!(module.declarations().len(), 1);
    assert_eq!(module.declarations()[0].name, "puts");
    assert_eq!(module.globals().len(), 0);

    for (name, byte) in [("a", 1), ("b", 2)] {
        add_anonymous_globals(
            &mut module,
            vec![
                AnonymousGlobal {
                    name: name.to_string(),
                    ty: IrType::I8,
                    initializer: Constant::Bytes(vec![byte]),
                    c_type: CType::Char,
                },
                AnonymousGlobal {
                    name: "twice".to_string(),
                    ty: IrType::I16,
                    initializer: Constant::Zero,
                    c_type: if byte == 1 { CType::Short } else { CType::UShort },
                },
            ],
        );
    }
    let names: Vec<&str> = module.globals().iter().map(|g| g.name.as_str()).collect();
    assert_eq!(names, vec!["a", "twice", "b", "twice"]);
    assert_eq!(
        module.globals()[2].initializer,
        Some(Constant::Bytes(vec![2]))
    );
    assert_eq!(module.global_c_type("twice"), Some(&CType::UShort));
}

#[test]
fn wrong_unit_is_not_lowered() {
    let mut interner = Interner::new();
    let x = interner.intern("x");
    let unit = TranslationUnit {
        declarations: vec![
            declaration(specifiers(TypeSpecifier::Int, None), vec![plain(x)]),
            declaration(specifiers(TypeSpecifier::Int, None), vec![function(x)]),
        ],
        span: at(),
    };
    let (lowering, diag) = lower(&interner, &unit);
    assert!(lowering.is_none());
    assert_eq!(diag.error_count(), 1);
}

#[test]
fn errors_of_lowering_are_counted() {
    let mut diag = DiagnosticEngine::new();
    assert!(finish_lowering(IrModule::new("m".to_string()), &diag).is_ok());
    diag.emit_error(at(), "one");
    diag.emit_warning(at(), "between");
    diag.emit_error(at(), "two");
    match finish_lowering(IrModule::new("m".to_string()), &diag) {
        Err(LoweringError::InternalError { message }) => {
            assert_eq!(message, "IR lowering produced 2 error(s)");
        }
        other => panic!("{:?}", other),
    }
}
