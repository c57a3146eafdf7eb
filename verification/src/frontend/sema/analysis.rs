//! What analysis makes of expressions, statements and declarations: the state
//! after each, and its outcome.
//!
//! An expression gives its type, or `None` where an error was reported that
//! keeps it from having one. A statement or declaration tells whether analysis
//! of it went through to its end.

use crate::common::diagnostics::{error_with_note, Span};
use crate::common::string_interner::Symbol;
use crate::common::text::utf8_lossy;
use crate::common::types::{pointer_ty, stripped, void_ptr_ty, Ty};
use crate::frontend::parser::ast::{
    span_of, AsmOperand, AsmStatement, BlockItem, Declaration, DeclarationSpecifiers,
    DesignatedInitializer, Designator, Expression, ForInit, GenericAssociation, InitDeclarator,
    Initializer, Statement, TypeSpecifier, UnaryOp,
};
use crate::frontend::sema::analyzer::size_t;
use crate::frontend::sema::attribute_handler::{
    first_aligned, first_section, first_visibility, has_packed, has_weak, Attr,
};
use crate::frontend::sema::attributes::validated;
use crate::frontend::sema::constants::element_count;
use crate::frontend::sema::identifiers::{builtin_call_type, identifier_use};
use crate::frontend::sema::literals::{
    char_literal_ty, float_literal_ty, integer_literal_ty, string_literal_ty,
};
use crate::frontend::sema::resolve::{base_type, cast_type, full_type};
use crate::frontend::sema::scope::{
    at_file_scope, depth_of, label_defined, label_definition_log, label_referenced,
    local_label_declared, local_label_log, ordinary_declared, typedef_registered, ScopeKind,
    SymbolId,
};
use crate::frontend::sema::specifiers::{direct_name, storage_of};
use crate::frontend::sema::state::{too_deep, State};
use crate::frontend::sema::static_assert::static_assertion;
use crate::frontend::sema::symbol_table::{
    declared, defined, entry_at, linkage_of, retyped, Linkage, StorageClass, SymbolKind,
    SymbolModel,
};
use crate::frontend::sema::tags::tags_defined;
use crate::frontend::sema::typing::{
    binary_result, call_result, common, generic_match, is_fallback, is_integer, is_pointer,
    is_scalar, member_access, pointee, unary_result,
};
use vstd::prelude::*;

verus! {

// ---------------------------------------------------------------------------
// Inline assembly
// ---------------------------------------------------------------------------

/// Whether a constraint begins with the given character.
pub open spec fn begins_with(constraint: Seq<u8>, c: u8) -> bool {
    constraint.len() > 0 && constraint[0] == c
}

/// Whether an expression has the form of an lvalue. Which alternative a `_Generic`
/// or a `__builtin_choose_expr` takes is not asked here: both count as lvalues.
pub open spec fn is_lvalue(e: Expression) -> bool
    decreases e,
{
    match e {
        Expression::Identifier { .. } => true,
        Expression::StringLiteral { .. } => true,
        Expression::CompoundLiteral { .. } => true,
        Expression::ArraySubscript { .. } => true,
        Expression::PointerMemberAccess { .. } => true,
        Expression::MemberAccess { object, .. } => is_lvalue(*object),
        Expression::Parenthesized { inner, .. } => is_lvalue(*inner),
        Expression::UnaryOp { op, operand, .. } => match op {
            UnaryOp::Deref => true,
            UnaryOp::RealPart | UnaryOp::ImagPart => is_lvalue(*operand),
            _ => false,
        },
        Expression::Generic { .. } => true,
        Expression::BuiltinCall { builtin, .. } => builtin is ChooseExpr,
        _ => false,
    }
}

/// What is reported of an operand by itself: the constraint of an output must begin
/// with `=` or `+`, and its expression must be an lvalue; the constraint of an input
/// must not begin with `=`.
#[verifier::opaque]
pub open spec fn constraint_checked(st: State, o: AsmOperand, is_output: bool) -> State {
    let c = o.constraint@;
    if is_output {
        st.error_if(
            !begins_with(c, 0x3d) && !begins_with(c, 0x2b),
            o.span,
            "invalid output constraint '"@ + utf8_lossy(c) + "': must start with '=' or '+'"@,
        ).error_if(!is_lvalue(*o.expression), o.span, "asm output operand is not an lvalue"@)
    } else {
        st.error_if(
            begins_with(c, 0x3d),
            o.span,
            "invalid input constraint '"@ + utf8_lossy(c)
                + "': input constraints must not start with '='"@,
        )
    }
}

/// The operands from the `i`-th on; `seen` holds the names so far, each of
/// which may be given once.
pub open spec fn operands_checked(
    st: State,
    seen: Map<u32, Span>,
    os: Seq<AsmOperand>,
    i: int,
    is_output: bool,
) -> (State, Map<u32, Span>)
    decreases os.len() - i,
{
    if i < 0 || i >= os.len() {
        (st, seen)
    } else {
        let o = os[i];
        let st1 = constraint_checked(st, o, is_output);
        match o.symbolic_name {
            None => operands_checked(st1, seen, os, i + 1, is_output),
            Some(n) => if seen.contains_key(n.0) {
                let st2 = State {
                    log: st1.log.push(
                        error_with_note(
                            o.span,
                            "duplicate asm operand name"@,
                            seen[n.0],
                            "previous operand with this name"@,
                        ),
                    ),
                    ..st1
                };
                operands_checked(st2, seen, os, i + 1, is_output)
            } else {
                operands_checked(st1, seen.insert(n.0, o.span), os, i + 1, is_output)
            },
        }
    }
}

/// The jump targets from the `i`-th on.
pub open spec fn targets_referenced(st: State, labels: Seq<Symbol>, i: int, span: Span) -> State
    decreases labels.len() - i,
{
    if i < 0 || i >= labels.len() {
        st
    } else {
        targets_referenced(
            State { scopes: label_referenced(st.scopes, labels[i], span), ..st },
            labels,
            i + 1,
            span,
        )
    }
}

/// Inline assembly: its outputs, then its inputs, then its jump targets.
#[verifier::opaque]
pub open spec fn asm_checked(st: State, a: AsmStatement) -> State {
    let (st1, seen) = operands_checked(st, Map::empty(), a.outputs@, 0, true);
    let (st2, _) = operands_checked(st1, seen, a.inputs@, 0, false);
    targets_referenced(st2, a.goto_labels@, 0, a.span)
}

/// The labels of a `__label__` from the `i`-th on.
pub open spec fn local_labels(st: State, labels: Seq<Symbol>, i: int, span: Span) -> State
    decreases labels.len() - i,
{
    if i < 0 || i >= labels.len() {
        st
    } else {
        local_labels(
            State {
                scopes: local_label_declared(st.scopes, labels[i], span, true),
                log: local_label_log(st.log, st.scopes, labels[i], span),
                ..st
            },
            labels,
            i + 1,
            span,
        )
    }
}

// ---------------------------------------------------------------------------
// Generic selections
// ---------------------------------------------------------------------------

/// Whether a type matches one of several.
pub open spec fn matches_any(t: Ty, seen: Seq<Ty>) -> bool {
    exists|i: int| 0 <= i < seen.len() && generic_match(t, #[trigger] seen[i])
}

/// The associations from the `i`-th on: two of matching types earn a warning, a
/// second default an error.
pub open spec fn associations_checked(
    st: State,
    assocs: Seq<GenericAssociation>,
    i: int,
    seen: Seq<Ty>,
    seen_default: bool,
    span: Span,
) -> (State, bool)
    decreases assocs.len() - i,
{
    if i < 0 || i >= assocs.len() {
        (st, true)
    } else {
        match assocs[i].ty_name {
            Some(tn) => {
                let t = stripped(cast_type(st, tn));
                let st1 = if matches_any(t, seen) {
                    st.warning(span, "duplicate type name in _Generic association"@)
                } else {
                    st
                };
                associations_checked(st1, assocs, i + 1, seen.push(t), seen_default, span)
            },
            None => if seen_default {
                (st.error(span, "duplicate default case in _Generic association"@), false)
            } else {
                associations_checked(st, assocs, i + 1, seen, true, span)
            },
        }
    }
}

/// The associations of a `_Generic`, taken together.
#[verifier::opaque]
pub open spec fn selection_checked(
    st: State,
    assocs: Seq<GenericAssociation>,
    span: Span,
) -> (State, bool) {
    associations_checked(st, assocs, 0, Seq::empty(), false, span)
}

/// The labels of a `__label__`.
#[verifier::opaque]
pub open spec fn labels_declared(st: State, labels: Seq<Symbol>, span: Span) -> State {
    local_labels(st, labels, 0, span)
}

/// The controlling type after array and function types have become pointers and
/// qualifiers are gone.
pub open spec fn controlling(t: Ty) -> Ty {
    stripped(
        match stripped(t) {
            Ty::Array(elem, _) => pointer_ty(*elem),
            Ty::Function { .. } => pointer_ty(t),
            _ => t,
        },
    )
}

// ---------------------------------------------------------------------------
// Declared names
// ---------------------------------------------------------------------------

/// A struct or union with the attributes of the typedef that names it.
pub open spec fn with_typedef_attributes(t: Ty, attrs: Seq<Attr>) -> Ty {
    let wanted = match first_aligned(attrs, 0) {
        Some(n) => Some(n as usize),
        None => None,
    };
    let packs = has_packed(attrs);
    match t {
        Ty::Struct { name, fields, packed, aligned } => Ty::Struct {
            name,
            fields,
            packed: packed || packs,
            aligned: crate::frontend::sema::attributes::stricter(aligned, wanted),
        },
        Ty::Union { name, fields, packed, aligned } => Ty::Union {
            name,
            fields,
            packed: packed || packs,
            aligned: crate::frontend::sema::attributes::stricter(aligned, wanted),
        },
        _ => t,
    }
}

/// A typedef as a declaration gives it.
pub open spec fn typedef_symbol(name: Symbol, ty: Ty, attrs: Seq<Attr>, span: Span) -> SymbolModel {
    SymbolModel {
        name,
        ty,
        kind: SymbolKind::TypedefName,
        linkage: Linkage::Unlinked,
        storage_class: StorageClass::Typedef,
        is_defined: true,
        is_tentative: false,
        span,
        attributes: attrs,
        is_weak: false,
        visibility: None,
        section: None,
        is_used: false,
        scope_depth: 0,
    }
}

/// Whether a declaration without an initializer can define an object of this
/// type.
pub open spec fn is_object(t: Ty) -> bool {
    !(t is Void) && !(t is Function) && !(t is Complex) && !(t is Atomic)
}

/// A variable or function as a declaration gives it.
pub open spec fn object_symbol(
    st: State,
    name: Symbol,
    ty: Ty,
    attrs: Seq<Attr>,
    storage: StorageClass,
    has_init: bool,
    span: Span,
) -> SymbolModel {
    SymbolModel {
        name,
        ty,
        kind: if ty is Function {
            SymbolKind::Function
        } else {
            SymbolKind::Variable
        },
        linkage: linkage_of(storage, depth_of(st.scopes)),
        storage_class: storage,
        is_defined: has_init,
        is_tentative: !has_init && at_file_scope(st.scopes) && storage != StorageClass::Extern
            && is_object(ty),
        span,
        attributes: attrs,
        is_weak: has_weak(attrs),
        visibility: first_visibility(attrs, 0),
        section: first_section(attrs, 0),
        is_used: false,
        scope_depth: 0,
    }
}

/// Whether a type is an array whose length its initializer is to give.
pub open spec fn is_open_array(t: Ty) -> bool {
    match t {
        Ty::Array(_, None) => true,
        Ty::Qualified(inner, _) => match *inner {
            Ty::Array(_, None) => true,
            _ => false,
        },
        _ => false,
    }
}

/// An array that was given its length.
pub open spec fn completed_array(t: Ty, count: usize) -> Ty {
    match t {
        Ty::Array(elem, None) => Ty::Array(elem, Some(count)),
        Ty::Qualified(inner, q) => match *inner {
            Ty::Array(elem, None) => Ty::Qualified(
                Box::new(Ty::Array(elem, Some(count))),
                q,
            ),
            _ => t,
        },
        _ => t,
    }
}

/// The state after a declared symbol got its initializer: it is defined, and an
/// array without a length has one.
pub open spec fn initialized(st: State, id: SymbolId, init: Initializer) -> State {
    let count = element_count(init, st.enums, st.names);
    let completed = match entry_at(st.symbols, id) {
        Some(e) => if is_open_array(e.ty) && count > 0 {
            retyped(st.symbols, id, completed_array(e.ty, count))
        } else {
            st.symbols
        },
        None => st.symbols,
    };
    State { symbols: defined(completed, id), ..st }
}

/// The state after a name was declared as `ty`.
#[verifier::opaque]
pub open spec fn name_declared(
    st: State,
    specs: DeclarationSpecifiers,
    d: InitDeclarator,
    ty: Ty,
) -> State {
    let name = direct_name(d.declarator.direct);
    let attrs = validated(st, d.declarator.attributes@, specs.attributes@);
    let storage = storage_of(specs.storage_class);
    if storage == StorageClass::Typedef {
        let e = typedef_symbol(name, with_typedef_attributes(ty, attrs), attrs, d.span);
        let r = declared(st.symbols, st.log, e);
        let st1 = State { symbols: r.0, log: r.1, ..st };
        match r.2 {
            Some(id) => State {
                scopes: typedef_registered(ordinary_declared(st.scopes, name, id), name),
                ..st1
            },
            None => st1,
        }
    } else {
        let e = object_symbol(st, name, ty, attrs, storage, d.initializer is Some, d.span);
        let r = declared(st.symbols, st.log, e);
        let st1 = State { symbols: r.0, log: r.1, ..st };
        match r.2 {
            Some(id) => {
                let st2 = State { scopes: ordinary_declared(st.scopes, name, id), ..st1 };
                match d.initializer {
                    Some(init) => initialized(st2, id, init),
                    None => st2,
                }
            },
            None => st1,
        }
    }
}

/// Whether one of the type specifiers is `__auto_type`.
pub open spec fn says_auto(specs: Seq<TypeSpecifier>) -> bool {
    exists|i: int| 0 <= i < specs.len() && (#[trigger] specs[i]) is AutoType
}

// ---------------------------------------------------------------------------
// What is done with the types of operands
// ---------------------------------------------------------------------------

/// A subscript on a value of type `base`.
#[verifier::opaque]
pub open spec fn subscripted(st: State, base: Ty, span: Span) -> (State, Option<Ty>) {
    match pointee(base) {
        Some(t) => (st, Some(t)),
        None => if is_fallback(base) {
            (st, Some(Ty::Int))
        } else {
            (st.error(span, "subscripted value is not an array or pointer"@), None)
        },
    }
}

/// An access with `->` through a value of type `t`.
#[verifier::opaque]
pub open spec fn arrow_access(st: State, t: Ty, member: Symbol, span: Span) -> (
    State,
    Option<Ty>,
) {
    match pointee(t) {
        Some(p) => member_access(st, p, member, span),
        None => if is_fallback(t) {
            (st, Some(Ty::Int))
        } else {
            (st.error(span, "member reference base type is not a pointer"@), None)
        },
    }
}

/// A value of type `t` that controls a branch.
#[verifier::opaque]
pub open spec fn branch_checked(st: State, t: Ty, span: Span, message: Seq<char>) -> State {
    st.error_if(!is_scalar(t), span, message)
}

/// An assignment to a value of type `t`.
#[verifier::opaque]
pub open spec fn assigned(st: State, t: Ty, span: Span) -> State {
    st.error_if(
        match t {
            Ty::Qualified(_, q) => q.is_const,
            _ => false,
        },
        span,
        "assignment of read-only variable (const-qualified)"@,
    )
}

/// A value of type `t` that a switch looks at.
#[verifier::opaque]
pub open spec fn switch_checked(st: State, t: Ty, span: Span) -> State {
    st.error_if(
        !is_integer(t),
        span,
        "switch controlling expression is not an integer type"@,
    )
}

/// A value of type `t` that a computed goto jumps to.
#[verifier::opaque]
pub open spec fn goto_checked(st: State, t: Ty, span: Span) -> State {
    st.error_if(!is_pointer(t), span, "argument to computed goto is not a pointer"@)
}

/// A value of type `t` that a function returns.
#[verifier::opaque]
pub open spec fn return_checked(st: State, t: Ty, span: Span) -> State {
    st.error_if(
        st.return_type == Some(Ty::Void) && t != Ty::Void,
        span,
        "void function should not return a value"@,
    )
}

/// A `return` without a value.
#[verifier::opaque]
pub open spec fn bare_return(st: State, span: Span) -> State {
    if st.return_type is Some && st.return_type != Some(Ty::Void) {
        st.warning(span, "non-void function should return a value"@)
    } else {
        st
    }
}

/// The meeting of the branches of a conditional.
#[verifier::opaque]
pub open spec fn met(a: Ty, b: Ty) -> Ty {
    common(a, b)
}

/// The type of a literal.
#[verifier::opaque]
pub open spec fn literal_type(st: State, e: Expression) -> Ty {
    match e {
        Expression::IntegerLiteral { value, suffix, is_hex_or_octal, .. } => integer_literal_ty(
            value,
            suffix,
            is_hex_or_octal,
            st.target.is_lp64(),
        ),
        Expression::FloatLiteral { suffix, .. } => float_literal_ty(suffix),
        Expression::StringLiteral { prefix, .. } => string_literal_ty(prefix),
        Expression::CharLiteral { prefix, .. } => char_literal_ty(prefix),
        _ => Ty::Int,
    }
}

/// A case label with a literal value: a second one of the same value is an
/// error.
#[verifier::opaque]
pub open spec fn case_seen(st: State, value: Expression, span: Span) -> State {
    match value {
        Expression::IntegerLiteral { value: v, .. } => if st.cases.contains_key(v as i128) {
            State {
                log: st.log.push(
                    error_with_note(
                        span,
                        "duplicate case value"@,
                        st.cases[v as i128],
                        "previous case defined here"@,
                    ),
                ),
                ..st
            }
        } else {
            State { cases: st.cases.insert(v as i128, span), ..st }
        },
        _ => st,
    }
}

// ---------------------------------------------------------------------------
// Expressions
// ---------------------------------------------------------------------------

/// An expression, one level of nesting deeper.
pub open spec fn expression(st: State, e: Expression) -> (State, Option<Ty>)
    decreases e, 1int,
{
    if st.depth >= st.max_depth {
        (st.error(span_of(e), too_deep()), None)
    } else {
        let r = expression_inner(st.deeper(), e);
        (r.0.shallower(), r.1)
    }
}

/// An expression.
pub open spec fn expression_inner(st: State, e: Expression) -> (State, Option<Ty>)
    decreases e, 0int,
{
    match e {
        Expression::IntegerLiteral { .. } => (st, Some(literal_type(st, e))),
        Expression::FloatLiteral { .. } => (st, Some(literal_type(st, e))),
        Expression::StringLiteral { .. } => (st, Some(literal_type(st, e))),
        Expression::CharLiteral { .. } => (st, Some(literal_type(st, e))),
        Expression::Identifier { name, span } => {
            let r = identifier_use(st, name, span);
            (r.0, Some(r.1))
        },
        Expression::Parenthesized { inner, .. } => expression(st, *inner),
        Expression::ArraySubscript { base, index, span } => {
            let b = expression(st, *base);
            let i = expression(b.0, *index);
            if b.1 is None {
                (b.0, None)
            } else if i.1 is None {
                (i.0, None)
            } else {
                subscripted(i.0, b.1->0, span)
            }
        },
        Expression::FunctionCall { callee, args, span } => {
            let c = expression(st, *callee);
            let a = arguments(c.0, args@, 0);
            if c.1 is None {
                (c.0, None)
            } else if !a.1 {
                (a.0, None)
            } else {
                call_result(a.0, c.1->0, span)
            }
        },
        Expression::MemberAccess { object, member, span } => {
            let o = expression(st, *object);
            if o.1 is None {
                (o.0, None)
            } else {
                member_access(o.0, o.1->0, member, span)
            }
        },
        Expression::PointerMemberAccess { object, member, span } => {
            let o = expression(st, *object);
            if o.1 is None {
                (o.0, None)
            } else {
                arrow_access(o.0, o.1->0, member, span)
            }
        },
        Expression::PostIncrement { operand, .. } => expression(st, *operand),
        Expression::PostDecrement { operand, .. } => expression(st, *operand),
        Expression::PreIncrement { operand, .. } => expression(st, *operand),
        Expression::PreDecrement { operand, .. } => expression(st, *operand),
        Expression::UnaryOp { op, operand, span } => {
            let o = expression(st, *operand);
            if o.1 is None {
                (o.0, None)
            } else {
                unary_result(o.0, op, o.1->0, span)
            }
        },
        Expression::SizeofExpr { operand, .. } => {
            let o = expression(st, *operand);
            (o.0, Some(size_t(o.0)))
        },
        Expression::SizeofType { .. } => (st, Some(size_t(st))),
        Expression::AlignofType { .. } => (st, Some(size_t(st))),
        Expression::AlignofExpr { expr, .. } => {
            let o = expression(st, *expr);
            (o.0, Some(size_t(o.0)))
        },
        Expression::Cast { ty_name, operand, .. } => {
            let o = expression(st, *operand);
            if o.1 is None {
                (o.0, None)
            } else {
                (o.0, Some(cast_type(o.0, *ty_name)))
            }
        },
        Expression::Binary { op, left, right, .. } => {
            let l = expression(st, *left);
            let r = expression(l.0, *right);
            if l.1 is None {
                (l.0, None)
            } else if r.1 is None {
                (r.0, None)
            } else {
                (r.0, Some(binary_result(op, l.1->0, r.1->0)))
            }
        },
        Expression::Conditional { condition, then_expr, else_expr, span } => {
            let c = expression(st, *condition);
            let s1 = branch_checked(
                c.0,
                c.1->0,
                span,
                "controlling expression of conditional is not scalar"@,
            );
            let t = match then_expr {
                Some(x) => expression(s1, *x),
                None => (s1, c.1),
            };
            let f = expression(t.0, *else_expr);
            if c.1 is None {
                (c.0, None)
            } else if t.1 is None {
                (t.0, None)
            } else if f.1 is None {
                (f.0, None)
            } else {
                (f.0, Some(met(t.1->0, f.1->0)))
            }
        },
        Expression::Assignment { target, value, span, .. } => {
            let t = expression(st, *target);
            let v = expression(t.0, *value);
            if t.1 is None {
                (t.0, None)
            } else if v.1 is None {
                (v.0, None)
            } else {
                (assigned(v.0, t.1->0, span), t.1)
            }
        },
        Expression::Comma { exprs, .. } => sequence(st, exprs@, 0, Ty::Void),
        Expression::CompoundLiteral { ty_name, initializer: init, .. } => (
            initializer(st, init).0,
            Some(cast_type(st, *ty_name)),
        ),
        Expression::StatementExpression { compound, .. } => {
            let v = block_value(st.enter(ScopeKind::Block), compound.items@, 0, Ty::Void);
            (v.0.leave(), v.1)
        },
        Expression::BuiltinCall { builtin, args, .. } => (
            st,
            Some(builtin_call_type(st, builtin, args@)),
        ),
        Expression::Generic { controlling: c, associations, span } => {
            let t = expression(st, *c);
            let k = selection_checked(t.0, associations@, span);
            if t.1 is None {
                (t.0, None)
            } else if !k.1 {
                (k.0, None)
            } else {
                association(k.0, controlling(t.1->0), associations@, 0, None, span)
            }
        },
        Expression::AddressOfLabel { label, span } => (
            State { scopes: label_referenced(st.scopes, label, span), ..st },
            Some(void_ptr_ty()),
        ),
    }
}

/// The arguments from the `i`-th on.
pub open spec fn arguments(st: State, args: Seq<Expression>, i: int) -> (State, bool)
    decreases args, args.len() - i,
{
    if i < 0 || i >= args.len() {
        (st, true)
    } else {
        let r = expression(st, args[i]);
        if r.1 is None {
            (r.0, false)
        } else {
            arguments(r.0, args, i + 1)
        }
    }
}

/// The expressions of a comma expression from the `i`-th on: the type is that of
/// the last.
pub open spec fn sequence(st: State, es: Seq<Expression>, i: int, last: Ty) -> (State, Option<Ty>)
    decreases es, es.len() - i,
{
    if i < 0 || i >= es.len() {
        (st, Some(last))
    } else {
        let r = expression(st, es[i]);
        if r.1 is None {
            (r.0, None)
        } else {
            sequence(r.0, es, i + 1, r.1->0)
        }
    }
}

/// The items of a statement expression from the `i`-th on: the type is that of
/// the last expression statement. Only an expression statement that has no type
/// ends the analysis.
pub open spec fn block_value(st: State, items: Seq<BlockItem>, i: int, last: Ty) -> (
    State,
    Option<Ty>,
)
    decreases items, items.len() - i,
{
    if i < 0 || i >= items.len() {
        (st, Some(last))
    } else {
        match items[i] {
            BlockItem::Declaration(d) => block_value(
                declaration(st, *d).0,
                items,
                i + 1,
                last,
            ),
            BlockItem::Statement(Statement::Expression(Some(e))) => {
                let r = expression(st, *e);
                if r.1 is None {
                    (r.0, None)
                } else {
                    block_value(r.0, items, i + 1, r.1->0)
                }
            },
            BlockItem::Statement(s) => block_value(statement(st, s).0, items, i + 1, last),
        }
    }
}

/// The association that is selected from the `i`-th on: the first that matches,
/// else the default. Where there is neither, that is an error.
pub open spec fn association(
    st: State,
    t: Ty,
    assocs: Seq<GenericAssociation>,
    i: int,
    fallback: Option<Ty>,
    span: Span,
) -> (State, Option<Ty>)
    decreases assocs, assocs.len() - i,
{
    if i < 0 || i >= assocs.len() {
        match fallback {
            Some(d) => (st, Some(d)),
            None => (st.error(span, "_Generic selection has no matching association"@), None),
        }
    } else {
        match assocs[i].ty_name {
            Some(tn) => if generic_match(t, stripped(cast_type(st, tn))) {
                expression(st, *assocs[i].expression)
            } else {
                association(st, t, assocs, i + 1, fallback, span)
            },
            None => {
                let r = expression(st, *assocs[i].expression);
                if r.1 is None {
                    (r.0, None)
                } else {
                    association(r.0, t, assocs, i + 1, r.1, span)
                }
            },
        }
    }
}

/// A `_Generic` selection, given the type of what it is controlled by: the
/// associations are checked, and the selected one gives the type.
pub open spec fn selection(
    st: State,
    t: Ty,
    assocs: Seq<GenericAssociation>,
    span: Span,
) -> (State, Option<Ty>) {
    let k = selection_checked(st, assocs, span);
    if !k.1 {
        (k.0, None)
    } else {
        association(k.0, controlling(t), assocs, 0, None, span)
    }
}

// ---------------------------------------------------------------------------
// Statements
// ---------------------------------------------------------------------------

/// A statement, one level of nesting deeper.
pub open spec fn statement(st: State, s: Statement) -> (State, bool)
    decreases s, 3int,
{
    if st.depth >= st.max_depth {
        (st.error(Span::nowhere(), too_deep()), false)
    } else {
        let r = statement_inner(st.deeper(), s);
        (r.0.shallower(), r.1)
    }
}

/// The items of a block from the `i`-th on. What one of them reports does not
/// keep the next from being analyzed.
pub open spec fn block(st: State, items: Seq<BlockItem>, i: int) -> State
    decreases items, items.len() - i,
{
    if i < 0 || i >= items.len() {
        st
    } else {
        match items[i] {
            BlockItem::Declaration(d) => block(declaration(st, *d).0, items, i + 1),
            BlockItem::Statement(s) => block(statement(st, s).0, items, i + 1),
        }
    }
}

/// A condition that controls a branch, given what its expression comes to.
#[verifier::opaque]
pub open spec fn condition(c: (State, Option<Ty>), span: Span, message: Seq<char>) -> (
    State,
    bool,
) {
    if c.1 is None {
        (c.0, false)
    } else {
        (branch_checked(c.0, c.1->0, span, message), true)
    }
}

/// A jump to what an expression points to, given what the expression comes to.
#[verifier::opaque]
pub open spec fn jumped(r: (State, Option<Ty>), span: Span) -> (State, bool) {
    if r.1 is None {
        (r.0, false)
    } else {
        (goto_checked(r.0, r.1->0, span), true)
    }
}

/// A `return` of a value, given what its expression comes to.
#[verifier::opaque]
pub open spec fn returned(r: (State, Option<Ty>), span: Span) -> (State, bool) {
    if r.1 is None {
        (r.0, false)
    } else {
        (return_checked(r.0, r.1->0, span), true)
    }
}

/// An expression as a statement, given what it comes to.
#[verifier::opaque]
pub open spec fn evaluated(r: (State, Option<Ty>)) -> (State, bool) {
    (r.0, r.1 is Some)
}

/// The body of a loop. Whatever comes of it, the loop is left after it.
pub open spec fn loop_body(st: State, body: Statement) -> (State, bool)
    decreases body, 4int,
{
    let r = statement(State { in_loop: true, ..st }, body);
    (State { in_loop: st.in_loop, ..r.0 }, r.1)
}

/// The body of a switch. Whatever comes of it, the labels of the switch around it
/// are back after it.
pub open spec fn switch_body(st: State, body: Statement) -> (State, bool)
    decreases body, 4int,
{
    let r = statement(
        State { in_switch: true, cases: Map::empty(), has_default: false, ..st },
        body,
    );
    (
        State {
            in_switch: st.in_switch,
            cases: st.cases,
            has_default: st.has_default,
            ..r.0
        },
        r.1,
    )
}

/// An optional expression.
pub open spec fn optional(st: State, e: Option<Box<Expression>>) -> (State, bool)
    decreases e, 0int,
{
    match e {
        None => (st, true),
        Some(x) => evaluated(expression(st, *x)),
    }
}

/// The first clause of a `for`, if it has one.
#[verifier::opaque]
pub open spec fn for_start(st: State, init: Option<ForInit>) -> (State, bool)
    decreases init, 0int,
{
    match init {
        None => (st, true),
        Some(ForInit::Declaration(d)) => declaration(st, *d),
        Some(ForInit::Expression(e)) => evaluated(expression(st, *e)),
    }
}

/// The three clauses of a `for`, up to the first that fails.
pub open spec fn for_head(st: State, s: Statement) -> (State, bool)
    decreases s, 0int,
{
    match s {
        Statement::For { init, condition: c, increment, .. } => {
            let i = for_start(st, init);
            let k = optional(i.0, c);
            if !i.1 {
                i
            } else if !k.1 {
                k
            } else {
                optional(k.0, increment)
            }
        },
        _ => (st, true),
    }
}

/// A block.
pub open spec fn compound_statement(st: State, s: Statement) -> (State, bool)
    decreases s, 1int,
{
    match s {
        Statement::Compound(c) => (block(st.enter(ScopeKind::Block), c.items@, 0).leave(), true),
        _ => (st, true),
    }
}

/// An `if`. The `else` branch is not looked at if the other one fails.
pub open spec fn if_statement(st: State, s: Statement) -> (State, bool)
    decreases s, 1int,
{
    match s {
        Statement::If { condition: c, then_branch, else_branch, span } => {
            let k = condition(
                expression(st, *c),
                span,
                "controlling expression of 'if' is not scalar"@,
            );
            let t = statement(k.0, *then_branch);
            if !k.1 {
                k
            } else {
                match else_branch {
                    Some(x) => if t.1 {
                        statement(t.0, *x)
                    } else {
                        t
                    },
                    None => t,
                }
            }
        },
        _ => (st, true),
    }
}

/// A `switch`.
pub open spec fn switch_statement(st: State, s: Statement) -> (State, bool)
    decreases s, 1int,
{
    match s {
        Statement::Switch { condition: c, body, span } => {
            let r = expression(st, *c);
            if r.1 is None {
                (r.0, false)
            } else {
                switch_body(switch_checked(r.0, r.1->0, span), *body)
            }
        },
        _ => (st, true),
    }
}

/// A `while`.
pub open spec fn while_statement(st: State, s: Statement) -> (State, bool)
    decreases s, 1int,
{
    match s {
        Statement::While { condition: c, body, span } => {
            let k = condition(
                expression(st, *c),
                span,
                "controlling expression of 'while' is not scalar"@,
            );
            if k.1 {
                loop_body(k.0, *body)
            } else {
                k
            }
        },
        _ => (st, true),
    }
}

/// A `do` loop.
pub open spec fn do_while_statement(st: State, s: Statement) -> (State, bool)
    decreases s, 1int,
{
    match s {
        Statement::DoWhile { body, condition: c, span } => {
            let b = loop_body(st, *body);
            if b.1 {
                condition(
                    expression(b.0, *c),
                    span,
                    "controlling expression of 'do-while' is not scalar"@,
                )
            } else {
                b
            }
        },
        _ => (st, true),
    }
}

/// A `for`, in a scope of its own, which is left whatever comes of it.
pub open spec fn for_statement(st: State, s: Statement) -> (State, bool)
    decreases s, 1int,
{
    match s {
        Statement::For { body, .. } => {
            let h = for_head(st.enter(ScopeKind::Block), s);
            let b = loop_body(h.0, *body);
            if !h.1 {
                (h.0.leave(), false)
            } else {
                (b.0.leave(), b.1)
            }
        },
        _ => (st, true),
    }
}

/// A `goto`, to a label or to what an expression points to.
pub open spec fn goto_statement(st: State, s: Statement) -> (State, bool)
    decreases s, 1int,
{
    match s {
        Statement::Goto { label, span } => (
            State { scopes: label_referenced(st.scopes, label, span), ..st },
            true,
        ),
        Statement::ComputedGoto { target, span } => jumped(expression(st, *target), span),
        _ => (st, true),
    }
}

/// A `continue` or `break`, which is reported where there is nothing to leave.
pub open spec fn exit_statement(st: State, s: Statement) -> State {
    match s {
        Statement::Continue { span } => st.error_if(
            !st.in_loop,
            span,
            "'continue' statement not in loop statement"@,
        ),
        Statement::Break { span } => st.error_if(
            !st.in_loop && !st.in_switch,
            span,
            "'break' statement not in loop or switch statement"@,
        ),
        _ => st,
    }
}

/// A `return`.
pub open spec fn return_statement(st: State, s: Statement) -> (State, bool)
    decreases s, 1int,
{
    match s {
        Statement::Return { value, span } => match value {
            Some(x) => returned(expression(st, *x), span),
            None => (bare_return(st, span), true),
        },
        _ => (st, true),
    }
}

/// A labeled statement.
pub open spec fn labeled_statement(st: State, s: Statement) -> (State, bool)
    decreases s, 1int,
{
    match s {
        Statement::Labeled { label, statement: x, span, .. } => statement(
            State {
                scopes: label_defined(st.scopes, label, span),
                log: label_definition_log(st.log, st.scopes, label, span),
                ..st
            },
            *x,
        ),
        _ => (st, true),
    }
}

/// A statement behind a `case` label.
pub open spec fn case_statement(st: State, s: Statement) -> (State, bool)
    decreases s, 1int,
{
    match s {
        Statement::Case { value, statement: x, span } => statement(
            case_seen(
                st.error_if(
                    !st.in_switch,
                    span,
                    "'case' label not within a switch statement"@,
                ),
                *value,
                span,
            ),
            *x,
        ),
        Statement::CaseRange { statement: x, span, .. } => statement(
            st.error_if(!st.in_switch, span, "'case' label not within a switch statement"@),
            *x,
        ),
        _ => (st, true),
    }
}

/// A statement behind a `default` label.
pub open spec fn default_statement(st: State, s: Statement) -> (State, bool)
    decreases s, 1int,
{
    match s {
        Statement::Default { statement: x, span } => {
            let s1 = st.error_if(
                !st.in_switch,
                span,
                "'default' label not within a switch statement"@,
            );
            let s2 = s1.error_if(
                s1.has_default,
                span,
                "multiple default labels in one switch"@,
            );
            statement(State { has_default: true, ..s2 }, *x)
        },
        _ => (st, true),
    }
}

/// A statement.
pub open spec fn statement_inner(st: State, s: Statement) -> (State, bool)
    decreases s, 2int,
{
    match s {
        Statement::Compound(_) => compound_statement(st, s),
        Statement::Expression(e) => optional(st, e),
        Statement::If { .. } => if_statement(st, s),
        Statement::Switch { .. } => switch_statement(st, s),
        Statement::While { .. } => while_statement(st, s),
        Statement::DoWhile { .. } => do_while_statement(st, s),
        Statement::For { .. } => for_statement(st, s),
        Statement::Goto { .. } => goto_statement(st, s),
        Statement::ComputedGoto { .. } => goto_statement(st, s),
        Statement::Continue { .. } => (exit_statement(st, s), true),
        Statement::Break { .. } => (exit_statement(st, s), true),
        Statement::Return { .. } => return_statement(st, s),
        Statement::Labeled { .. } => labeled_statement(st, s),
        Statement::Case { .. } => case_statement(st, s),
        Statement::CaseRange { .. } => case_statement(st, s),
        Statement::Default { .. } => default_statement(st, s),
        Statement::Declaration(d) => declaration(st, *d),
        Statement::Asm(a) => (asm_checked(st, a), true),
        Statement::LocalLabel(labels, span) => (labels_declared(st, labels@, span), true),
    }
}

// ---------------------------------------------------------------------------
// Declarations
// ---------------------------------------------------------------------------

/// A declaration. It fails only as a static assertion.
pub open spec fn declaration(st: State, d: Declaration) -> (State, bool)
    decreases d, 0int,
{
    match d.static_assert {
        Some(a) => static_assertion(st, a),
        None => {
            let base = base_type(st, d.specifiers);
            let st1 = tags_defined(st, d.specifiers);
            (declarators(st1, d.specifiers, base, d.declarators@, 0), true)
        },
    }
}

/// The declarators from the `i`-th on.
pub open spec fn declarators(
    st: State,
    specs: DeclarationSpecifiers,
    base: Ty,
    ds: Seq<InitDeclarator>,
    i: int,
) -> State
    decreases ds, ds.len() - i,
{
    if i < 0 || i >= ds.len() {
        st
    } else {
        declarators(declarator(st, specs, base, ds[i]), specs, base, ds, i + 1)
    }
}

/// An initializer, if there is one, and its type where it is an expression.
pub open spec fn optional_initializer(st: State, init: Option<Initializer>) -> (State, Option<Ty>)
    decreases init, 0int,
{
    match init {
        Some(x) => initializer(st, x),
        None => (st, None),
    }
}

/// An initializer, and its type where it is an expression.
pub open spec fn initializer(st: State, init: Initializer) -> (State, Option<Ty>)
    decreases init, 0int,
{
    match init {
        Initializer::Expression(e) => expression(st, *e),
        Initializer::List { designators_and_initializers: items, .. } => (
            initializer_list(st, items@, 0),
            None,
        ),
    }
}

/// The entries of an initializer list from the `i`-th on. What one of them reports
/// does not keep the next from being analyzed.
pub open spec fn initializer_list(st: State, items: Seq<DesignatedInitializer>, i: int) -> State
    decreases items, items.len() - i,
{
    if i < 0 || i >= items.len() {
        st
    } else {
        let st1 = designation(st, items[i].designators@, 0);
        initializer_list(initializer(st1, items[i].initializer).0, items, i + 1)
    }
}

/// The designators from the `i`-th on.
pub open spec fn designation(st: State, ds: Seq<Designator>, i: int) -> State
    decreases ds, ds.len() - i,
{
    if i < 0 || i >= ds.len() {
        st
    } else {
        designation(designator(st, ds[i]), ds, i + 1)
    }
}

/// A designator: the indices that it states are expressions.
#[verifier::opaque]
pub open spec fn designator(st: State, d: Designator) -> State
    decreases d, 0int,
{
    match d {
        Designator::Index(e, _) => expression(st, *e).0,
        Designator::IndexRange(low, high, _) => expression(expression(st, *low).0, *high).0,
        Designator::Field(..) => st,
    }
}

/// What a designator comes to, by its kind.
pub proof fn lemma_designator_is(st: State, d: Designator)
    ensures
        d matches Designator::Index(e, _) ==> designator(st, d) == expression(st, *e).0,
        d matches Designator::IndexRange(low, high, _) ==> designator(st, d) == expression(
            expression(st, *low).0,
            *high,
        ).0,
        d is Field ==> designator(st, d) == st,
{
    reveal(designator);
}

/// One declarator. The initializer of a name is analyzed where the name is
/// declared already. Only a name declared with `__auto_type`, which has the type of
/// its initializer, is declared after it.
pub open spec fn declarator(
    st: State,
    specs: DeclarationSpecifiers,
    base: Ty,
    d: InitDeclarator,
) -> State
    decreases d, 0int,
{
    let t = full_type(st, base, d.declarator);
    if says_auto(specs.type_specifiers@) {
        let r = optional_initializer(st, d.initializer);
        name_declared(
            r.0,
            specs,
            d,
            if r.1 is Some {
                r.1->0
            } else {
                t
            },
        )
    } else {
        optional_initializer(name_declared(st, specs, d, t), d.initializer).0
    }
}

} // verus!
