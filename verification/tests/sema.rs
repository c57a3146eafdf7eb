use bcc::common::diagnostics::{DiagnosticEngine, Span};
use bcc::common::string_interner::Interner;
use bcc::common::target::Target;
use bcc::common::type_builder::TypeBuilder;
use bcc::common::types::{CType, TypeQualifiers};
use bcc::frontend::parser::ast::{IntegerSuffix, TranslationUnit};
use bcc::frontend::sema::analyzer::SemanticAnalyzer;
use bcc::frontend::sema::scope::ScopeStack;

#[test]
fn test_semantic_analyzer_construction() {
    let mut diag = DiagnosticEngine::new();
    let tb = TypeBuilder::new(Target::X86_64);
    let interner = Interner::new();
    let sema = SemanticAnalyzer::new(&mut diag, &tb, Target::X86_64, &interner);
    assert_eq!(sema.max_recursion_depth, 512);
    assert_eq!(sema.recursion_depth, 0);
    assert!(!sema.in_loop);
    assert!(!sema.in_switch);
    assert!(sema.current_function_return_type.is_none());
}

#[test]
fn test_recursion_depth_limit() {
    let mut diag = DiagnosticEngine::new();
    let tb = TypeBuilder::new(Target::X86_64);
    let interner = Interner::new();
    let mut sema = SemanticAnalyzer::new(&mut diag, &tb, Target::X86_64, &interner);

    // Set depth to just below the limit.
    sema.recursion_depth = 511;
    assert!(sema.check_recursion_depth(Span::dummy()).is_ok());
    assert_eq!(sema.recursion_depth, 512);

    // Now at the limit: it must fail.
    assert!(sema.check_recursion_depth(Span::dummy()).is_err());
    assert!(sema.diagnostics.has_errors());
}

#[test]
fn test_analyze_empty_translation_unit() {
    let mut diag = DiagnosticEngine::new();
    let tb = TypeBuilder::new(Target::X86_64);
    let interner = Interner::new();
    let mut sema = SemanticAnalyzer::new(&mut diag, &tb, Target::X86_64, &interner);

    let tu = TranslationUnit {
        declarations: Vec::new(),
        span: Span::dummy(),
    };
    assert!(sema.analyze(&tu).is_ok());
}

#[test]
fn test_integer_literal_types() {
    let mut diag = DiagnosticEngine::new();
    let tb = TypeBuilder::new(Target::X86_64);
    let interner = Interner::new();
    let sema = SemanticAnalyzer::new(&mut diag, &tb, Target::X86_64, &interner);

    // Decimal 42 is an int.
    assert_eq!(
        sema.integer_literal_type(42, &IntegerSuffix::Plain, false),
        CType::Int
    );
    // Hexadecimal 42 is an int: it fits.
    assert_eq!(
        sema.integer_literal_type(42, &IntegerSuffix::Plain, true),
        CType::Int
    );
    // A decimal literal passes unsigned int over.
    assert_eq!(
        sema.integer_literal_type(0x83fd4005, &IntegerSuffix::Plain, false),
        CType::Long
    );
    // A hexadecimal one does not.
    assert_eq!(
        sema.integer_literal_type(0x83fd4005, &IntegerSuffix::Plain, true),
        CType::UInt
    );
    assert_eq!(
        sema.integer_literal_type(42, &IntegerSuffix::U, false),
        CType::UInt
    );
    assert_eq!(
        sema.integer_literal_type(42, &IntegerSuffix::ULL, false),
        CType::ULongLong
    );
}

#[test]
fn test_type_classification() {
    let mut diag = DiagnosticEngine::new();
    let tb = TypeBuilder::new(Target::X86_64);
    let interner = Interner::new();
    let sema = SemanticAnalyzer::new(&mut diag, &tb, Target::X86_64, &interner);

    assert!(sema.is_integer_type(&CType::Int));
    assert!(sema.is_integer_type(&CType::ULong));
    assert!(!sema.is_integer_type(&CType::Float));
    assert!(sema.is_float_type(&CType::Double));
    assert!(sema.is_scalar_type(&CType::Int));
    assert!(sema.is_pointer_type(&CType::Pointer(
        Box::new(CType::Void),
        TypeQualifiers::default(),
    )));
}

#[test]
fn test_finalize_clean() {
    let mut diag = DiagnosticEngine::new();
    let tb = TypeBuilder::new(Target::X86_64);
    let interner = Interner::new();
    let mut sema = SemanticAnalyzer::new(&mut diag, &tb, Target::X86_64, &interner);
    assert!(sema.finalize().is_ok());
}

#[test]
fn test_scope_depth() {
    let scopes = ScopeStack::new();
    assert_eq!(scopes.depth(), 0);
}
