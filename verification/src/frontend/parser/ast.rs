//! The syntax tree of a C11 translation unit with GNU extensions.

use crate::common::diagnostics::Span;
use crate::common::string_interner::Symbol;
use vstd::prelude::*;

verus! {

/// A whole source file after preprocessing.
#[derive(Debug)]
pub struct TranslationUnit {
    pub declarations: Vec<ExternalDeclaration>,
    pub span: Span,
}

/// What may stand at file scope.
#[derive(Debug)]
pub enum ExternalDeclaration {
    FunctionDefinition(Box<FunctionDefinition>),
    Declaration(Box<Declaration>),
    AsmStatement(AsmStatement),
    /// A stray semicolon.
    Empty,
}

/// A function with its body.
#[derive(Debug)]
pub struct FunctionDefinition {
    pub specifiers: DeclarationSpecifiers,
    pub declarator: Declarator,
    /// Parameter declarations between the declarator and the body of an
    /// old-style definition.
    pub old_style_params: Vec<Declaration>,
    pub body: CompoundStatement,
    pub attributes: Vec<Attribute>,
    pub span: Span,
}

/// A declaration, or a `_Static_assert`.
#[derive(Debug)]
pub struct Declaration {
    pub specifiers: DeclarationSpecifiers,
    pub declarators: Vec<InitDeclarator>,
    pub static_assert: Option<StaticAssert>,
    pub span: Span,
}

/// A `_Static_assert`.
#[derive(Debug)]
pub struct StaticAssert {
    pub condition: Box<Expression>,
    pub message: Option<Vec<u8>>,
    pub span: Span,
}

/// A declarator with its initializer.
#[derive(Debug)]
pub struct InitDeclarator {
    pub declarator: Declarator,
    pub initializer: Option<Initializer>,
    pub span: Span,
}

/// The specifiers that begin a declaration.
#[derive(Debug)]
pub struct DeclarationSpecifiers {
    pub storage_class: Option<StorageClass>,
    pub type_specifiers: Vec<TypeSpecifier>,
    pub type_qualifiers: Vec<TypeQualifier>,
    pub function_specifiers: Vec<FunctionSpecifier>,
    pub attributes: Vec<Attribute>,
    pub span: Span,
}

/// The specifiers and qualifiers of a type name or a struct member.
#[derive(Debug)]
pub struct SpecifierQualifierList {
    pub type_specifiers: Vec<TypeSpecifier>,
    pub type_qualifiers: Vec<TypeQualifier>,
    pub attributes: Vec<Attribute>,
    pub span: Span,
}

/// A storage class as written.
#[derive(Clone, Copy, Debug, PartialEq, Eq, Structural)]
pub enum StorageClass {
    Auto,
    Register,
    Static,
    Extern,
    Typedef,
    ThreadLocal,
}

/// A qualifier as written.
#[derive(Clone, Copy, Debug, PartialEq, Eq, Structural)]
pub enum TypeQualifier {
    Const,
    Volatile,
    Restrict,
    Atomic,
}

/// A function specifier as written.
#[derive(Clone, Copy, Debug, PartialEq, Eq, Structural)]
pub enum FunctionSpecifier {
    Inline,
    Noreturn,
}

/// One keyword or construct that contributes to a type.
#[derive(Debug)]
pub enum TypeSpecifier {
    Void,
    Char,
    Short,
    Int,
    Long,
    Float,
    Double,
    Signed,
    Unsigned,
    Bool,
    Complex,
    Int128,
    Float128,
    Float64,
    Float32,
    Float16,
    TypedefName(Symbol),
    Struct(StructOrUnionSpecifier),
    Union(StructOrUnionSpecifier),
    Enum(EnumSpecifier),
    Atomic(Box<TypeName>),
    Typeof(TypeofArg),
    AutoType,
}

/// What `typeof` is applied to.
#[derive(Debug)]
pub enum TypeofArg {
    TypeName(Box<TypeName>),
    Expression(Box<Expression>),
}

/// Whether a specifier says `struct` or `union`.
#[derive(Clone, Copy, Debug, PartialEq, Eq, Structural)]
pub enum StructOrUnion {
    Struct,
    Union,
}

/// A struct or union specifier; one without members refers to its tag.
#[derive(Debug)]
pub struct StructOrUnionSpecifier {
    pub kind: StructOrUnion,
    pub tag: Option<Symbol>,
    pub members: Option<Vec<StructMember>>,
    pub attributes: Vec<Attribute>,
    pub span: Span,
}

/// A member declaration.
#[derive(Debug)]
pub struct StructMember {
    pub specifiers: SpecifierQualifierList,
    pub declarators: Vec<StructDeclarator>,
    pub attributes: Vec<Attribute>,
    pub span: Span,
}

/// One member of a member declaration.
#[derive(Debug)]
pub struct StructDeclarator {
    pub declarator: Option<Declarator>,
    pub bit_width: Option<Box<Expression>>,
    pub span: Span,
}

/// An enum specifier; one without enumerators refers to its tag.
#[derive(Debug)]
pub struct EnumSpecifier {
    pub tag: Option<Symbol>,
    pub enumerators: Option<Vec<Enumerator>>,
    pub attributes: Vec<Attribute>,
    pub span: Span,
}

/// An enumeration constant.
#[derive(Debug)]
pub struct Enumerator {
    pub name: Symbol,
    pub value: Option<Box<Expression>>,
    pub span: Span,
}

/// A declarator: a pointer prefix round a direct declarator.
#[derive(Debug)]
pub struct Declarator {
    pub pointer: Option<Pointer>,
    pub direct: DirectDeclarator,
    pub attributes: Vec<Attribute>,
    pub span: Span,
}

/// One `*` of a declarator, and those that follow it.
#[derive(Debug)]
pub struct Pointer {
    pub qualifiers: Vec<TypeQualifier>,
    pub inner: Option<Box<Pointer>>,
}

/// A declarator without its pointer prefix.
#[derive(Debug)]
pub enum DirectDeclarator {
    Identifier(Symbol, Span),
    Parenthesized(Box<Declarator>),
    Array { base: Box<DirectDeclarator>, size: Option<Box<Expression>>, span: Span },
    Function {
        base: Box<DirectDeclarator>,
        params: Vec<ParameterDeclaration>,
        is_variadic: bool,
        span: Span,
    },
}

/// A parameter; at most one of its two declarators is present.
#[derive(Debug)]
pub struct ParameterDeclaration {
    pub specifiers: DeclarationSpecifiers,
    pub declarator: Option<Declarator>,
    pub abstract_declarator: Option<AbstractDeclarator>,
    pub span: Span,
}

/// A type name, as in a cast.
#[derive(Debug)]
pub struct TypeName {
    pub specifier_qualifiers: SpecifierQualifierList,
    pub abstract_declarator: Option<AbstractDeclarator>,
    pub span: Span,
}

/// A declarator without a name.
#[derive(Debug)]
pub struct AbstractDeclarator {
    pub pointer: Option<Pointer>,
    pub direct: Option<DirectAbstractDeclarator>,
}

/// A declarator without a name and without its pointer prefix.
#[derive(Debug)]
pub enum DirectAbstractDeclarator {
    Parenthesized(Box<AbstractDeclarator>),
    Array { base: Option<Box<DirectAbstractDeclarator>>, size: Option<Box<Expression>> },
    Function {
        base: Option<Box<DirectAbstractDeclarator>>,
        params: Vec<ParameterDeclaration>,
        is_variadic: bool,
    },
}

/// An initializer.
#[derive(Debug)]
pub enum Initializer {
    Expression(Box<Expression>),
    List { designators_and_initializers: Vec<DesignatedInitializer>, span: Span },
}

/// One entry of an initializer list.
#[derive(Debug)]
pub struct DesignatedInitializer {
    pub designators: Vec<Designator>,
    pub initializer: Initializer,
    pub span: Span,
}

/// One step of a designation.
#[derive(Debug)]
pub enum Designator {
    Index(Box<Expression>, Span),
    IndexRange(Box<Expression>, Box<Expression>, Span),
    Field(Symbol, Span),
}

/// An `__attribute__`.
#[derive(Debug)]
pub struct Attribute {
    pub name: Symbol,
    pub args: Vec<AttributeArg>,
    pub span: Span,
}

/// An argument of an `__attribute__`.
#[derive(Debug)]
pub enum AttributeArg {
    Identifier(Symbol, Span),
    Expression(Box<Expression>),
    String(Vec<u8>, Span),
}

/// The suffix of an integer literal.
#[derive(Clone, Copy, Debug, PartialEq, Eq, Structural)]
pub enum IntegerSuffix {
    Plain,
    U,
    L,
    UL,
    LL,
    ULL,
}

/// The suffix of a floating literal; `I` marks an imaginary one.
#[derive(Clone, Copy, Debug, PartialEq, Eq, Structural)]
pub enum FloatSuffix {
    Plain,
    F,
    L,
    I,
    FI,
    LI,
}

/// The prefix of a string literal.
#[derive(Clone, Copy, Debug, PartialEq, Eq, Structural)]
pub enum StringPrefix {
    Plain,
    L,
    U8,
    U16,
    U32,
}

/// The prefix of a character literal.
#[derive(Clone, Copy, Debug, PartialEq, Eq, Structural)]
pub enum CharPrefix {
    Plain,
    L,
    U16,
    U32,
}

/// One of several adjacent string literals.
#[derive(Debug)]
pub struct StringSegment {
    pub value: Vec<u8>,
    pub span: Span,
}

/// A prefix operator.
#[derive(Clone, Copy, Debug, PartialEq, Eq, Structural)]
pub enum UnaryOp {
    AddressOf,
    Deref,
    Plus,
    Negate,
    BitwiseNot,
    LogicalNot,
    RealPart,
    ImagPart,
}

/// A binary operator.
#[derive(Clone, Copy, Debug, PartialEq, Eq, Structural)]
pub enum BinaryOp {
    Add,
    Sub,
    Mul,
    Div,
    Mod,
    BitwiseAnd,
    BitwiseOr,
    BitwiseXor,
    ShiftLeft,
    ShiftRight,
    LogicalAnd,
    LogicalOr,
    Equal,
    NotEqual,
    Less,
    Greater,
    LessEqual,
    GreaterEqual,
}

/// An assignment operator.
#[derive(Clone, Copy, Debug, PartialEq, Eq, Structural)]
pub enum AssignOp {
    Assign,
    AddAssign,
    SubAssign,
    MulAssign,
    DivAssign,
    ModAssign,
    AndAssign,
    OrAssign,
    XorAssign,
    ShlAssign,
    ShrAssign,
}

/// A GNU builtin that the parser recognises by name.
#[derive(Clone, Copy, Debug, PartialEq, Eq, Structural)]
pub enum BuiltinKind {
    ConstantP,
    TypesCompatibleP,
    ChooseExpr,
    Offsetof,
    Expect,
    Unreachable,
    Trap,
    Clz,
    ClzL,
    ClzLL,
    Ctz,
    CtzL,
    CtzLL,
    Popcount,
    PopcountL,
    PopcountLL,
    Ffs,
    Ffsll,
    Bswap16,
    Bswap32,
    Bswap64,
    VaStart,
    VaEnd,
    VaCopy,
    VaArg,
    FrameAddress,
    ReturnAddress,
    AssumeAligned,
    AddOverflow,
    SubOverflow,
    MulOverflow,
    PrefetchData,
    ObjectSize,
    ExtractReturnAddr,
    Parity,
    ParityL,
    ParityLL,
    Alloca,
}

/// An expression.
#[derive(Debug)]
pub enum Expression {
    IntegerLiteral { value: u128, suffix: IntegerSuffix, is_hex_or_octal: bool, span: Span },
    /// A floating literal, given by the bits of its IEEE double.
    FloatLiteral { bits: u64, suffix: FloatSuffix, span: Span },
    StringLiteral { segments: Vec<StringSegment>, prefix: StringPrefix, span: Span },
    CharLiteral { value: u32, prefix: CharPrefix, span: Span },
    Identifier { name: Symbol, span: Span },
    Parenthesized { inner: Box<Expression>, span: Span },
    ArraySubscript { base: Box<Expression>, index: Box<Expression>, span: Span },
    FunctionCall { callee: Box<Expression>, args: Vec<Expression>, span: Span },
    MemberAccess { object: Box<Expression>, member: Symbol, span: Span },
    PointerMemberAccess { object: Box<Expression>, member: Symbol, span: Span },
    PostIncrement { operand: Box<Expression>, span: Span },
    PostDecrement { operand: Box<Expression>, span: Span },
    PreIncrement { operand: Box<Expression>, span: Span },
    PreDecrement { operand: Box<Expression>, span: Span },
    UnaryOp { op: UnaryOp, operand: Box<Expression>, span: Span },
    SizeofExpr { operand: Box<Expression>, span: Span },
    SizeofType { ty_name: Box<TypeName>, span: Span },
    AlignofType { ty_name: Box<TypeName>, span: Span },
    AlignofExpr { expr: Box<Expression>, span: Span },
    Cast { ty_name: Box<TypeName>, operand: Box<Expression>, span: Span },
    Binary { op: BinaryOp, left: Box<Expression>, right: Box<Expression>, span: Span },
    /// `c ? t : e`; `t` is absent in the GNU form `c ?: e`.
    Conditional {
        condition: Box<Expression>,
        then_expr: Option<Box<Expression>>,
        else_expr: Box<Expression>,
        span: Span,
    },
    Assignment { op: AssignOp, target: Box<Expression>, value: Box<Expression>, span: Span },
    Comma { exprs: Vec<Expression>, span: Span },
    CompoundLiteral { ty_name: Box<TypeName>, initializer: Initializer, span: Span },
    StatementExpression { compound: CompoundStatement, span: Span },
    BuiltinCall { builtin: BuiltinKind, args: Vec<Expression>, span: Span },
    Generic {
        controlling: Box<Expression>,
        associations: Vec<GenericAssociation>,
        span: Span,
    },
    /// `&&label`.
    AddressOfLabel { label: Symbol, span: Span },
}

/// One association of a `_Generic`; without a type name it is the default.
#[derive(Debug)]
pub struct GenericAssociation {
    pub ty_name: Option<TypeName>,
    pub expression: Box<Expression>,
    pub span: Span,
}

/// A statement.
#[derive(Debug)]
pub enum Statement {
    Compound(CompoundStatement),
    Expression(Option<Box<Expression>>),
    If {
        condition: Box<Expression>,
        then_branch: Box<Statement>,
        else_branch: Option<Box<Statement>>,
        span: Span,
    },
    Switch { condition: Box<Expression>, body: Box<Statement>, span: Span },
    While { condition: Box<Expression>, body: Box<Statement>, span: Span },
    DoWhile { body: Box<Statement>, condition: Box<Expression>, span: Span },
    For {
        init: Option<ForInit>,
        condition: Option<Box<Expression>>,
        increment: Option<Box<Expression>>,
        body: Box<Statement>,
        span: Span,
    },
    Goto { label: Symbol, span: Span },
    ComputedGoto { target: Box<Expression>, span: Span },
    Continue { span: Span },
    Break { span: Span },
    Return { value: Option<Box<Expression>>, span: Span },
    Labeled { label: Symbol, attributes: Vec<Attribute>, statement: Box<Statement>, span: Span },
    Case { value: Box<Expression>, statement: Box<Statement>, span: Span },
    CaseRange {
        low: Box<Expression>,
        high: Box<Expression>,
        statement: Box<Statement>,
        span: Span,
    },
    Default { statement: Box<Statement>, span: Span },
    Declaration(Box<Declaration>),
    Asm(AsmStatement),
    /// `__label__ a, b;`.
    LocalLabel(Vec<Symbol>, Span),
}

/// The first clause of a `for`.
#[derive(Debug)]
pub enum ForInit {
    Declaration(Box<Declaration>),
    Expression(Box<Expression>),
}

/// A block.
#[derive(Debug)]
pub struct CompoundStatement {
    pub items: Vec<BlockItem>,
    pub span: Span,
}

/// One item of a block.
#[derive(Debug)]
pub enum BlockItem {
    Declaration(Box<Declaration>),
    Statement(Statement),
}

/// Inline assembly.
#[derive(Debug)]
pub struct AsmStatement {
    pub is_volatile: bool,
    pub template: Vec<u8>,
    pub outputs: Vec<AsmOperand>,
    pub inputs: Vec<AsmOperand>,
    pub clobbers: Vec<AsmClobber>,
    pub goto_labels: Vec<Symbol>,
    pub span: Span,
}

/// An operand of inline assembly.
#[derive(Debug)]
pub struct AsmOperand {
    pub symbolic_name: Option<Symbol>,
    pub constraint: Vec<u8>,
    pub expression: Box<Expression>,
    pub span: Span,
}

/// A register, or `memory` or `cc`, that inline assembly overwrites.
#[derive(Debug)]
pub struct AsmClobber {
    pub register: Vec<u8>,
    pub span: Span,
}

/// Where an expression stands.
#[verifier::opaque]
pub open spec fn span_of(e: Expression) -> Span {
    match e {
        Expression::IntegerLiteral { span, .. } => span,
        Expression::FloatLiteral { span, .. } => span,
        Expression::StringLiteral { span, .. } => span,
        Expression::CharLiteral { span, .. } => span,
        Expression::Identifier { span, .. } => span,
        Expression::Parenthesized { span, .. } => span,
        Expression::ArraySubscript { span, .. } => span,
        Expression::FunctionCall { span, .. } => span,
        Expression::MemberAccess { span, .. } => span,
        Expression::PointerMemberAccess { span, .. } => span,
        Expression::PostIncrement { span, .. } => span,
        Expression::PostDecrement { span, .. } => span,
        Expression::PreIncrement { span, .. } => span,
        Expression::PreDecrement { span, .. } => span,
        Expression::UnaryOp { span, .. } => span,
        Expression::SizeofExpr { span, .. } => span,
        Expression::SizeofType { span, .. } => span,
        Expression::AlignofType { span, .. } => span,
        Expression::AlignofExpr { span, .. } => span,
        Expression::Cast { span, .. } => span,
        Expression::Binary { span, .. } => span,
        Expression::Conditional { span, .. } => span,
        Expression::Assignment { span, .. } => span,
        Expression::Comma { span, .. } => span,
        Expression::CompoundLiteral { span, .. } => span,
        Expression::StatementExpression { span, .. } => span,
        Expression::BuiltinCall { span, .. } => span,
        Expression::Generic { span, .. } => span,
        Expression::AddressOfLabel { span, .. } => span,
    }
}

} // verus!
