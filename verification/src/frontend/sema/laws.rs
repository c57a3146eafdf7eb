//! What the analysis of expressions, statements and declarations keeps.

use crate::common::diagnostics::{
    count_of, error_at, error_with_note, warning_at, DiagnosticModel, Severity, Span,
};
use crate::common::string_interner::{symbol_of, text_of, Symbol};
use crate::common::target::Target;
use crate::common::types::{Field, Ty};
use crate::frontend::parser::ast::{
    span_of, AsmOperand, AsmStatement, BlockItem, Declaration, DeclarationSpecifiers,
    DesignatedInitializer, Designator, EnumSpecifier, Enumerator, Expression, ExternalDeclaration,
    ForInit, FunctionDefinition, GenericAssociation, InitDeclarator, Initializer, Statement,
    StaticAssert, StructMember, StructOrUnionSpecifier, TypeSpecifier, UnaryOp,
};
use crate::frontend::sema::analysis::{
    arguments, arrow_access, asm_checked, assigned, association, associations_checked, bare_return,
    begins_with, block, block_value, branch_checked, case_seen, case_statement, condition,
    constraint_checked, controlling, declaration, declarator, declarators, default_statement,
    designation, designator, do_while_statement, evaluated, expression, expression_inner, for_head,
    for_start, for_statement, goto_checked, goto_statement, if_statement, initializer,
    initializer_list, is_lvalue, jumped, labeled_statement, labels_declared, lemma_designator_is,
    local_labels, loop_body, name_declared, operands_checked, optional, optional_initializer,
    return_checked, return_statement, returned, says_auto, selection_checked, sequence, statement,
    statement_inner, subscripted, switch_body, switch_checked, switch_statement, targets_referenced,
    while_statement,
};
use crate::frontend::sema::analyzer::{blank_state, builtin_registered, builtin_typedef};
use crate::frontend::sema::attribute_handler::Attr;
use crate::frontend::sema::attributes::validated;
use crate::frontend::sema::functions::{
    attributes_given, body_analyzed, body_left, external_declaration, external_declarations,
    finalized, function_declared, function_definition, parameter_declared, parameter_names,
    parameter_symbol, parameters_declared, signature,
};
use crate::frontend::sema::identifiers::identifier_use;
use crate::frontend::sema::resolve::{base_type, full_type};
use crate::frontend::sema::scope::{
    innermost_labels, label_defined, label_definition_log, label_referenced, labels_checked,
    LabelEntry, ScopeKind, ScopeModel, SymbolId,
};
use crate::frontend::sema::specifiers::{direct_name, storage_of};
use crate::frontend::sema::state::{too_deep, State};
use crate::frontend::sema::static_assert::static_assertion;
use crate::frontend::sema::symbol_table::{
    attributed, declared, defined, function_symbol, is_idle, tentative_settled, usage_checked,
    SymbolModel, SymbolsModel,
};
use crate::frontend::sema::tags::{
    embedded_definitions, enum_definition, enumerators_declared, members_definition,
    struct_definition, tags_defined, EnumRange,
};
use crate::frontend::sema::typing::{call_result, member_access, unary_result};
use vstd::prelude::*;

verus! {

// ---------------------------------------------------------------------------
// What is kept
// ---------------------------------------------------------------------------

/// How many errors a state has seen.
pub open spec fn errors(st: State) -> nat {
    count_of(st.log, Severity::Error)
}

/// Whether a state has its outermost scopes.
pub open spec fn is_sound(st: State) -> bool {
    st.scopes.len() >= 1 && st.symbols.visible.len() >= 1
}

/// Whether what holds for a whole translation unit or a whole function is the same
/// in two states: the names, the target, the limit, the depth and the type that is
/// to be returned.
pub open spec fn same_frame(a: State, b: State) -> bool {
    &&& b.names == a.names
    &&& b.target == a.target
    &&& b.builder_target == a.builder_target
    &&& b.max_depth == a.max_depth
    &&& b.depth == a.depth
    &&& b.return_type == a.return_type
}

/// Whether two states are equally deep in scopes, and alike in a loop and in a
/// switch.
pub open spec fn same_place(a: State, b: State) -> bool {
    &&& b.scopes.len() == a.scopes.len()
    &&& b.symbols.visible.len() == a.symbols.visible.len()
    &&& b.in_loop == a.in_loop
    &&& b.in_switch == a.in_switch
}

/// What an analysis that leads from `a` to `b` keeps. What was reported stays,
/// and so does the frame. Every scope, loop and switch that it entered it has left,
/// whatever it reported. If no error came to it, then it succeeded.
#[verifier::opaque]
pub open spec fn kept(a: State, b: State, ok: bool) -> bool {
    &&& a.log.is_prefix_of(b.log)
    &&& same_frame(a, b)
    &&& same_place(a, b)
    &&& is_sound(b)
    &&& errors(a) <= errors(b)
    &&& errors(a) == errors(b) ==> ok
}

proof fn lemma_counts_grow(s: Seq<DiagnosticModel>, t: Seq<DiagnosticModel>)
    requires
        s.is_prefix_of(t),
    ensures
        count_of(s, Severity::Error) <= count_of(t, Severity::Error),
    decreases t.len(),
{
    if t.len() > s.len() {
        assert(s.is_prefix_of(t.drop_last()));
        lemma_counts_grow(s, t.drop_last());
    } else {
        assert(s =~= t);
    }
}

proof fn lemma_count_push(s: Seq<DiagnosticModel>, d: DiagnosticModel)
    ensures
        count_of(s.push(d), Severity::Error) == count_of(s, Severity::Error) + if d.severity
            == Severity::Error {
            1nat
        } else {
            0nat
        },
        s.is_prefix_of(s.push(d)),
{
    assert(s.push(d).drop_last() =~= s);
}

proof fn lemma_quiet(a: State, b: State)
    requires
        is_sound(a),
        b.log == a.log,
        same_frame(a, b),
        same_place(a, b),
    ensures
        kept(a, b, true),
{
    reveal(kept);
    assert(a.log.is_prefix_of(a.log));
}

proof fn lemma_logged(a: State, b: State, d: DiagnosticModel, ok: bool)
    requires
        is_sound(a),
        b.log == a.log.push(d),
        same_frame(a, b),
        same_place(a, b),
        d.severity == Severity::Error || ok,
    ensures
        kept(a, b, ok),
{
    reveal(kept);
    lemma_count_push(a.log, d);
}

proof fn lemma_error(st: State, span: Span, message: Seq<char>, ok: bool)
    requires
        is_sound(st),
    ensures
        kept(st, st.error(span, message), ok),
{
    lemma_logged(
        st,
        st.error(span, message),
        error_at(span, message),
        ok,
    );
}

proof fn lemma_warning(st: State, span: Span, message: Seq<char>)
    requires
        is_sound(st),
    ensures
        kept(st, st.warning(span, message), true),
{
    lemma_logged(
        st,
        st.warning(span, message),
        warning_at(span, message),
        true,
    );
}

proof fn lemma_error_if(st: State, wrong: bool, span: Span, message: Seq<char>)
    requires
        is_sound(st),
    ensures
        kept(st, st.error_if(wrong, span, message), true),
{
    if wrong {
        lemma_error(st, span, message, true);
    } else {
        lemma_quiet(st, st);
    }
}

broadcast proof fn lemma_sound(a: State, b: State, ok: bool)
    ensures
        #[trigger] kept(a, b, ok) ==> is_sound(b),
{
    reveal(kept);
}

proof fn lemma_chain(a: State, b: State, c: State, ok: bool)
    requires
        kept(a, b, true),
        kept(b, c, ok),
    ensures
        kept(a, c, ok),
{
    reveal(kept);
    assert(a.log.is_prefix_of(c.log)) by {
        assert(a.log =~= c.log.subrange(0, a.log.len() as int));
    }
}

proof fn lemma_deeper(st: State, r: State, ok: bool)
    requires
        is_sound(st),
        st.depth < st.max_depth,
        kept(st.deeper(), r, ok),
    ensures
        kept(st, r.shallower(), ok),
{
    reveal(kept);
}

proof fn lemma_left(st: State, kind: ScopeKind, r: State, ok: bool)
    requires
        is_sound(st),
        kept(st.enter(kind), r, ok),
    ensures
        kept(st, r.leave(), ok),
{
    reveal(kept);
}

proof fn lemma_declared(t: SymbolsModel, log: Seq<DiagnosticModel>, e: SymbolModel)
    ensures
        ({
            let d = declared(t, log, e);
            &&& d.0.visible.len() == t.visible.len()
            &&& d.1 == log || exists|x: DiagnosticModel|
                d.1 == #[trigger] log.push(x) && x.severity == Severity::Error
        }),
{
}

// ---------------------------------------------------------------------------
// Single steps
// ---------------------------------------------------------------------------

proof fn lemma_subscripted(st: State, base: Ty, span: Span)
    requires
        is_sound(st),
    ensures
        kept(st, subscripted(st, base, span).0, subscripted(st, base, span).1 is Some),
{
    reveal(subscripted);
    lemma_quiet(st, st);
    lemma_error(st, span, "subscripted value is not an array or pointer"@, false);
}

proof fn lemma_member_access(st: State, t: Ty, member: Symbol, span: Span)
    requires
        is_sound(st),
    ensures
        kept(
            st,
            member_access(st, t, member, span).0,
            member_access(st, t, member, span).1 is Some,
        ),
{
    reveal(member_access);
    lemma_quiet(st, st);
    lemma_error(st, span, "member reference base type is not a struct or union"@, false);
    lemma_error(st, span, "no member named '"@ + st.text(member) + "' in struct/union"@, false);
}

proof fn lemma_arrow_access(st: State, t: Ty, member: Symbol, span: Span)
    requires
        is_sound(st),
    ensures
        kept(st, arrow_access(st, t, member, span).0, arrow_access(st, t, member, span).1 is Some),
{
    reveal(arrow_access);
    lemma_quiet(st, st);
    lemma_error(st, span, "member reference base type is not a pointer"@, false);
    match crate::frontend::sema::typing::pointee(t) {
        Some(p) => lemma_member_access(st, p, member, span),
        None => {},
    }
}

proof fn lemma_call_result(st: State, callee: Ty, span: Span)
    requires
        is_sound(st),
    ensures
        kept(st, call_result(st, callee, span).0, call_result(st, callee, span).1 is Some),
{
    reveal(call_result);
    lemma_quiet(st, st);
    lemma_error(st, span, "called object is not a function or function pointer"@, false);
}

proof fn lemma_unary_result(st: State, op: UnaryOp, t: Ty, span: Span)
    requires
        is_sound(st),
    ensures
        kept(st, unary_result(st, op, t, span).0, unary_result(st, op, t, span).1 is Some),
{
    reveal(unary_result);
    lemma_quiet(st, st);
    lemma_error(st, span, "indirection requires pointer operand"@, false);
}

proof fn lemma_identifier_use(st: State, name: Symbol, span: Span)
    requires
        is_sound(st),
    ensures
        kept(st, identifier_use(st, name, span).0, true),
{
    reveal(identifier_use);
    lemma_quiet(st, st);
    lemma_warning(st, span, "implicit declaration of function '"@ + st.text(name) + "'"@);
    lemma_quiet(
        st,
        State {
            symbols: crate::frontend::sema::symbol_table::used(st.symbols, name),
            ..st
        },
    );
}

proof fn lemma_static_assertion(st: State, a: StaticAssert)
    requires
        is_sound(st),
    ensures
        kept(st, static_assertion(st, a).0, static_assertion(st, a).1),
{
    reveal(static_assertion);
    lemma_quiet(st, st);
    lemma_error(st, a.span, crate::frontend::sema::static_assert::failure_text(a.message), false);
}

proof fn lemma_checks(st: State, t: Ty, span: Span, message: Seq<char>)
    requires
        is_sound(st),
    ensures
        kept(st, branch_checked(st, t, span, message), true),
        kept(st, assigned(st, t, span), true),
        kept(st, switch_checked(st, t, span), true),
        kept(st, goto_checked(st, t, span), true),
        kept(st, return_checked(st, t, span), true),
        kept(st, bare_return(st, span), true),
{
    reveal(branch_checked);
    reveal(assigned);
    reveal(switch_checked);
    reveal(goto_checked);
    reveal(return_checked);
    reveal(bare_return);
    lemma_quiet(st, st);
    lemma_error(st, span, message, true);
    lemma_error(st, span, "assignment of read-only variable (const-qualified)"@, true);
    lemma_error(st, span, "switch controlling expression is not an integer type"@, true);
    lemma_error(st, span, "argument to computed goto is not a pointer"@, true);
    lemma_error(st, span, "void function should not return a value"@, true);
    lemma_warning(st, span, "non-void function should return a value"@);
}

proof fn lemma_case_seen(st: State, value: Expression, span: Span)
    requires
        is_sound(st),
    ensures
        kept(st, case_seen(st, value, span), true),
{
    reveal(case_seen);
    lemma_quiet(st, st);
    match value {
        Expression::IntegerLiteral { value: v, .. } => {
            let d = error_with_note(
                span,
                "duplicate case value"@,
                st.cases[v as i128],
                "previous case defined here"@,
            );
            lemma_logged(st, State { log: st.log.push(d), ..st }, d, true);
            lemma_quiet(st, State { cases: st.cases.insert(v as i128, span), ..st });
        },
        _ => {},
    }
}

proof fn lemma_scopes(st: State, scopes: Seq<ScopeModel>)
    requires
        is_sound(st),
        scopes.len() == st.scopes.len(),
    ensures
        kept(st, State { scopes, ..st }, true),
{
    lemma_quiet(st, State { scopes, ..st });
}

proof fn lemma_operands(
    st: State,
    seen: Map<u32, Span>,
    os: Seq<AsmOperand>,
    i: int,
    is_output: bool,
)
    requires
        is_sound(st),
    ensures
        kept(st, operands_checked(st, seen, os, i, is_output).0, true),
    decreases os.len() - i,
{
    broadcast use lemma_sound;

    reveal(constraint_checked);
    if i < 0 || i >= os.len() {
        lemma_quiet(st, st);
    } else {
        let o = os[i];
        let c = o.constraint@;
        let st1 = constraint_checked(st, o, is_output);
        let m1 = "invalid output constraint '"@ + crate::common::text::utf8_lossy(c)
            + "': must start with '=' or '+'"@;
        let m2 = "invalid input constraint '"@ + crate::common::text::utf8_lossy(c)
            + "': input constraints must not start with '='"@;
        lemma_quiet(st, st);
        lemma_error(st, o.span, m1, true);
        lemma_error(st, o.span, m2, true);
        if is_output {
            let m3 = "asm output operand is not an lvalue"@;
            let first = st.error_if(!begins_with(c, 0x3d) && !begins_with(c, 0x2b), o.span, m1);
            assert(kept(st, first, true));
            lemma_quiet(first, first);
            lemma_error(first, o.span, m3, true);
            lemma_chain(st, first, first.error_if(!is_lvalue(*o.expression), o.span, m3), true);
        }
        assert(kept(st, st1, true));
        match o.symbolic_name {
            None => {
                lemma_operands(st1, seen, os, i + 1, is_output);
                lemma_chain(
                    st,
                    st1,
                    operands_checked(st1, seen, os, i + 1, is_output).0,
                    true,
                );
            },
            Some(n) => if seen.contains_key(n.0) {
                let d = error_with_note(
                    o.span,
                    "duplicate asm operand name"@,
                    seen[n.0],
                    "previous operand with this name"@,
                );
                let st2 = State { log: st1.log.push(d), ..st1 };
                lemma_logged(st1, st2, d, true);
                lemma_chain(st, st1, st2, true);
                lemma_operands(st2, seen, os, i + 1, is_output);
                lemma_chain(
                    st,
                    st2,
                    operands_checked(st2, seen, os, i + 1, is_output).0,
                    true,
                );
            } else {
                let more = seen.insert(n.0, o.span);
                lemma_operands(st1, more, os, i + 1, is_output);
                lemma_chain(
                    st,
                    st1,
                    operands_checked(st1, more, os, i + 1, is_output).0,
                    true,
                );
            },
        }
    }
}

proof fn lemma_targets(st: State, labels: Seq<Symbol>, i: int, span: Span)
    requires
        is_sound(st),
    ensures
        kept(st, targets_referenced(st, labels, i, span), true),
    decreases labels.len() - i,
{
    if i < 0 || i >= labels.len() {
        lemma_quiet(st, st);
    } else {
        let scopes = label_referenced(st.scopes, labels[i], span);
        let st1 = State { scopes, ..st };
        lemma_scopes(st, scopes);
        lemma_targets(st1, labels, i + 1, span);
        lemma_chain(st, st1, targets_referenced(st1, labels, i + 1, span), true);
    }
}

proof fn lemma_asm_checked(st: State, a: AsmStatement)
    requires
        is_sound(st),
    ensures
        kept(st, asm_checked(st, a), true),
{
    broadcast use lemma_sound;

    reveal(asm_checked);
    lemma_operands(st, Map::empty(), a.outputs@, 0, true);
    let (st1, seen) = operands_checked(st, Map::empty(), a.outputs@, 0, true);
    lemma_operands(st1, seen, a.inputs@, 0, false);
    let st2 = operands_checked(st1, seen, a.inputs@, 0, false).0;
    lemma_chain(st, st1, st2, true);
    lemma_targets(st2, a.goto_labels@, 0, a.span);
    lemma_chain(st, st2, targets_referenced(st2, a.goto_labels@, 0, a.span), true);
}

proof fn lemma_local_labels(st: State, labels: Seq<Symbol>, i: int, span: Span)
    requires
        is_sound(st),
    ensures
        kept(st, local_labels(st, labels, i, span), true),
    decreases labels.len() - i,
{
    broadcast use lemma_sound;

    if i < 0 || i >= labels.len() {
        lemma_quiet(st, st);
    } else {
        let scopes = crate::frontend::sema::scope::local_label_declared(
            st.scopes,
            labels[i],
            span,
            true,
        );
        let log = crate::frontend::sema::scope::local_label_log(
            st.log,
            st.scopes,
            labels[i],
            span,
        );
        let st1 = State { scopes, log, ..st };
        if log == st.log {
            lemma_quiet(st, st1);
        } else {
            lemma_logged(st, st1, log.last(), true);
        }
        lemma_local_labels(st1, labels, i + 1, span);
        lemma_chain(st, st1, local_labels(st1, labels, i + 1, span), true);
    }
}

proof fn lemma_associations(
    st: State,
    assocs: Seq<GenericAssociation>,
    i: int,
    seen: Seq<Ty>,
    seen_default: bool,
    span: Span,
)
    requires
        is_sound(st),
    ensures
        kept(
            st,
            associations_checked(st, assocs, i, seen, seen_default, span).0,
            associations_checked(st, assocs, i, seen, seen_default, span).1,
        ),
    decreases assocs.len() - i,
{
    broadcast use lemma_sound;

    lemma_quiet(st, st);
    if i < 0 || i >= assocs.len() {
    } else {
        match assocs[i].ty_name {
            Some(tn) => {
                let t = crate::common::types::stripped(
                    crate::frontend::sema::resolve::cast_type(st, tn),
                );
                let message = "duplicate type name in _Generic association"@;
                let st1 = if crate::frontend::sema::analysis::matches_any(t, seen) {
                    st.warning(span, message)
                } else {
                    st
                };
                lemma_warning(st, span, message);
                lemma_associations(st1, assocs, i + 1, seen.push(t), seen_default, span);
                let r = associations_checked(
                    st1,
                    assocs,
                    i + 1,
                    seen.push(t),
                    seen_default,
                    span,
                );
                lemma_chain(st, st1, r.0, r.1);
            },
            None => if seen_default {
                lemma_error(st, span, "duplicate default case in _Generic association"@, false);
            } else {
                lemma_associations(st, assocs, i + 1, seen, true, span);
            },
        }
    }
}

proof fn lemma_selection_checked(st: State, assocs: Seq<GenericAssociation>, span: Span)
    requires
        is_sound(st),
    ensures
        kept(st, selection_checked(st, assocs, span).0, selection_checked(st, assocs, span).1),
{
    reveal(selection_checked);
    lemma_associations(st, assocs, 0, Seq::empty(), false, span);
}

proof fn lemma_name_declared(st: State, specs: DeclarationSpecifiers, d: InitDeclarator, ty: Ty)
    requires
        is_sound(st),
    ensures
        kept(st, name_declared(st, specs, d, ty), true),
{
    reveal(name_declared);
    let b = name_declared(st, specs, d, ty);
    let name = direct_name(d.declarator.direct);
    let attrs = validated(
        st,
        d.declarator.attributes@,
        specs.attributes@,
    );
    let storage = storage_of(specs.storage_class);
    let e = if storage == crate::frontend::sema::symbol_table::StorageClass::Typedef {
        crate::frontend::sema::analysis::typedef_symbol(
            name,
            crate::frontend::sema::analysis::with_typedef_attributes(ty, attrs),
            attrs,
            d.span,
        )
    } else {
        crate::frontend::sema::analysis::object_symbol(
            st,
            name,
            ty,
            attrs,
            storage,
            d.initializer is Some,
            d.span,
        )
    };
    lemma_declared(st.symbols, st.log, e);
    let r = declared(st.symbols, st.log, e);
    assert(b.log == r.1);
    assert(b.symbols.visible.len() == st.symbols.visible.len());
    assert(b.scopes.len() == st.scopes.len());
    if r.1 == st.log {
        lemma_quiet(st, b);
    } else {
        lemma_logged(st, b, r.1.last(), true);
    }
}

// ---------------------------------------------------------------------------
// Definitions
// ---------------------------------------------------------------------------

proof fn lemma_enumerators(st: State, es: Seq<Enumerator>, i: int, r: EnumRange)
    requires
        is_sound(st),
    ensures
        kept(st, enumerators_declared(st, es, i, r).0, true),
    decreases es.len() - i,
{
    broadcast use lemma_sound;

    if i < 0 || i >= es.len() {
        lemma_quiet(st, st);
    } else {
        let v = crate::frontend::sema::tags::value_of(st, es[i], r.next);
        let st1 = crate::frontend::sema::tags::constant_declared(st, es[i], v);
        let r1 = crate::frontend::sema::tags::range_with(r, v);
        lemma_quiet(st, st1);
        lemma_enumerators(st1, es, i + 1, r1);
        lemma_chain(st, st1, enumerators_declared(st1, es, i + 1, r1).0, true);
    }
}

proof fn lemma_enum_definition(st: State, e: EnumSpecifier)
    requires
        is_sound(st),
    ensures
        kept(st, enum_definition(st, e).0, true),
{
    broadcast use lemma_sound;

    match e.enumerators {
        None => {
            lemma_quiet(st, enum_definition(st, e).0);
        },
        Some(es) => {
            let empty = crate::frontend::sema::tags::empty_range();
            lemma_enumerators(st, es@, 0, empty);
            let st1 = enumerators_declared(st, es@, 0, empty).0;
            lemma_quiet(st1, enum_definition(st, e).0);
            lemma_chain(st, st1, enum_definition(st, e).0, true);
        },
    }
}

proof fn lemma_struct_definition(st: State, s: StructOrUnionSpecifier)
    requires
        is_sound(st),
    ensures
        kept(st, struct_definition(st, s).0, struct_definition(st, s).1 is Some),
    decreases s, 0int,
{
    broadcast use lemma_sound;

    lemma_quiet(st, st);
    lemma_error(st, s.span, "use of tag with wrong kind (struct vs union vs enum)"@, false);
    let known = match s.tag {
        Some(tag) => crate::frontend::sema::scope::tag_in(st.scopes, tag),
        None => None,
    };
    if known is Some && known->0.kind != crate::frontend::sema::tags::kind_of(s) {
    } else if known is Some && known->0.is_complete && s.members is Some {
    } else {
        match s.members {
            None => {
                lemma_quiet(st, struct_definition(st, s).0);
            },
            Some(ms) => {
                lemma_members_definition(st, ms@, 0, Seq::empty());
                let st1 = members_definition(st, ms@, 0, Seq::empty()).0;
                lemma_quiet(st1, struct_definition(st, s).0);
                lemma_chain(st, st1, struct_definition(st, s).0, true);
            },
        }
    }
}

proof fn lemma_members_definition(st: State, ms: Seq<StructMember>, i: int, fields: Seq<Field>)
    requires
        is_sound(st),
    ensures
        kept(st, members_definition(st, ms, i, fields).0, true),
    decreases ms, ms.len() - i,
{
    broadcast use lemma_sound;

    if i < 0 || i >= ms.len() {
        lemma_quiet(st, st);
    } else {
        lemma_embedded(st, ms[i].specifiers.type_specifiers@, 0);
        let st1 = embedded_definitions(st, ms[i].specifiers.type_specifiers@, 0);
        let more = fields + crate::frontend::sema::resolve::member_fields(st1, ms[i]);
        lemma_members_definition(st1, ms, i + 1, more);
        lemma_chain(st, st1, members_definition(st1, ms, i + 1, more).0, true);
    }
}

proof fn lemma_ignored(a: State, b: State, ok: bool)
    requires
        kept(a, b, ok),
    ensures
        kept(a, b, true),
{
    reveal(kept);
}

proof fn lemma_embedded(st: State, specs: Seq<TypeSpecifier>, i: int)
    requires
        is_sound(st),
    ensures
        kept(st, embedded_definitions(st, specs, i), true),
    decreases specs, specs.len() - i,
{
    broadcast use lemma_sound;

    lemma_quiet(st, st);
    if i < 0 || i >= specs.len() {
    } else {
        let st1 = match specs[i] {
            TypeSpecifier::Struct(s) => if s.members is Some {
                struct_definition(st, s).0
            } else {
                st
            },
            TypeSpecifier::Union(s) => if s.members is Some {
                struct_definition(st, s).0
            } else {
                st
            },
            TypeSpecifier::Enum(e) => if e.enumerators is Some {
                enum_definition(st, e).0
            } else {
                st
            },
            _ => st,
        };
        match specs[i] {
            TypeSpecifier::Struct(s) => {
                lemma_struct_definition(st, s);
                lemma_ignored(st, struct_definition(st, s).0, struct_definition(st, s).1 is Some);
            },
            TypeSpecifier::Union(s) => {
                lemma_struct_definition(st, s);
                lemma_ignored(st, struct_definition(st, s).0, struct_definition(st, s).1 is Some);
            },
            TypeSpecifier::Enum(e) => lemma_enum_definition(st, e),
            _ => {},
        }
        lemma_embedded(st1, specs, i + 1);
        lemma_chain(st, st1, embedded_definitions(st1, specs, i + 1), true);
    }
}

proof fn lemma_tags_defined(st: State, specs: DeclarationSpecifiers)
    requires
        is_sound(st),
    ensures
        kept(st, tags_defined(st, specs), true),
{
    reveal(tags_defined);
    lemma_embedded(st, specs.type_specifiers@, 0);
}

// ---------------------------------------------------------------------------
// Expressions
// ---------------------------------------------------------------------------

proof fn lemma_subscript(st: State, e: Expression)
    requires
        is_sound(st),
        e is ArraySubscript,
    ensures
        kept(st, expression_inner(st, e).0, expression_inner(st, e).1 is Some),
    decreases e, 0int,
{
    broadcast use lemma_sound;

    match e {
        Expression::ArraySubscript { base, index, span } => {
            lemma_expression(st, *base);
            let b = expression(st, *base);
            if b.1 is Some {
                lemma_expression(b.0, *index);
                let i = expression(b.0, *index);
                lemma_chain(st, b.0, i.0, i.1 is Some);
                if i.1 is Some {
                    lemma_subscripted(i.0, b.1->0, span);
                    let r = subscripted(i.0, b.1->0, span);
                    lemma_chain(st, i.0, r.0, r.1 is Some);
                }
            }
        },
        _ => {},
    }
}

proof fn lemma_call(st: State, e: Expression)
    requires
        is_sound(st),
        e is FunctionCall,
    ensures
        kept(st, expression_inner(st, e).0, expression_inner(st, e).1 is Some),
    decreases e, 0int,
{
    broadcast use lemma_sound;

    match e {
        Expression::FunctionCall { callee, args, span } => {
            lemma_expression(st, *callee);
            let c = expression(st, *callee);
            if c.1 is Some {
                lemma_arguments(c.0, args@, 0);
                let a = arguments(c.0, args@, 0);
                lemma_chain(st, c.0, a.0, a.1);
                if a.1 {
                    lemma_call_result(a.0, c.1->0, span);
                    let r = call_result(a.0, c.1->0, span);
                    lemma_chain(st, a.0, r.0, r.1 is Some);
                }
            }
        },
        _ => {},
    }
}

proof fn lemma_member(st: State, e: Expression)
    requires
        is_sound(st),
        e is MemberAccess,
    ensures
        kept(st, expression_inner(st, e).0, expression_inner(st, e).1 is Some),
    decreases e, 0int,
{
    broadcast use lemma_sound;

    match e {
        Expression::MemberAccess { object, member, span } => {
            lemma_expression(st, *object);
            let o = expression(st, *object);
            if o.1 is Some {
                lemma_member_access(o.0, o.1->0, member, span);
                let r = member_access(o.0, o.1->0, member, span);
                lemma_chain(st, o.0, r.0, r.1 is Some);
            }
        },
        _ => {},
    }
}

proof fn lemma_arrow(st: State, e: Expression)
    requires
        is_sound(st),
        e is PointerMemberAccess,
    ensures
        kept(st, expression_inner(st, e).0, expression_inner(st, e).1 is Some),
    decreases e, 0int,
{
    broadcast use lemma_sound;

    match e {
        Expression::PointerMemberAccess { object, member, span } => {
            lemma_expression(st, *object);
            let o = expression(st, *object);
            if o.1 is Some {
                lemma_arrow_access(o.0, o.1->0, member, span);
                let r = arrow_access(o.0, o.1->0, member, span);
                lemma_chain(st, o.0, r.0, r.1 is Some);
            }
        },
        _ => {},
    }
}

proof fn lemma_unary(st: State, e: Expression)
    requires
        is_sound(st),
        e is UnaryOp,
    ensures
        kept(st, expression_inner(st, e).0, expression_inner(st, e).1 is Some),
    decreases e, 0int,
{
    broadcast use lemma_sound;

    match e {
        Expression::UnaryOp { op, operand, span } => {
            lemma_expression(st, *operand);
            let o = expression(st, *operand);
            if o.1 is Some {
                lemma_unary_result(o.0, op, o.1->0, span);
                let r = unary_result(o.0, op, o.1->0, span);
                lemma_chain(st, o.0, r.0, r.1 is Some);
            }
        },
        _ => {},
    }
}

proof fn lemma_binary(st: State, e: Expression)
    requires
        is_sound(st),
        e is Binary,
    ensures
        kept(st, expression_inner(st, e).0, expression_inner(st, e).1 is Some),
    decreases e, 0int,
{
    broadcast use lemma_sound;

    match e {
        Expression::Binary { left, right, .. } => {
            lemma_expression(st, *left);
            let l = expression(st, *left);
            if l.1 is Some {
                lemma_expression(l.0, *right);
                let r = expression(l.0, *right);
                lemma_chain(st, l.0, r.0, r.1 is Some);
            }
        },
        _ => {},
    }
}

proof fn lemma_conditional(st: State, e: Expression)
    requires
        is_sound(st),
        e is Conditional,
    ensures
        kept(st, expression_inner(st, e).0, expression_inner(st, e).1 is Some),
    decreases e, 0int,
{
    broadcast use lemma_sound;

    match e {
        Expression::Conditional { condition, then_expr, else_expr, span } => {
            let message = "controlling expression of conditional is not scalar"@;
            lemma_expression(st, *condition);
            let c = expression(st, *condition);
            if c.1 is Some {
                lemma_checks(c.0, c.1->0, span, message);
                let s1 = branch_checked(c.0, c.1->0, span, message);
                lemma_chain(st, c.0, s1, true);
                let t = match then_expr {
                    Some(x) => expression(s1, *x),
                    None => (s1, c.1),
                };
                match then_expr {
                    Some(x) => {
                        lemma_expression(s1, *x);
                        lemma_chain(st, s1, t.0, t.1 is Some);
                    },
                    None => {},
                }
                if t.1 is Some {
                    lemma_expression(t.0, *else_expr);
                    let f = expression(t.0, *else_expr);
                    lemma_chain(st, t.0, f.0, f.1 is Some);
                }
            }
        },
        _ => {},
    }
}

proof fn lemma_assignment(st: State, e: Expression)
    requires
        is_sound(st),
        e is Assignment,
    ensures
        kept(st, expression_inner(st, e).0, expression_inner(st, e).1 is Some),
    decreases e, 0int,
{
    broadcast use lemma_sound;

    match e {
        Expression::Assignment { target, value, span, .. } => {
            lemma_expression(st, *target);
            let t = expression(st, *target);
            if t.1 is Some {
                lemma_expression(t.0, *value);
                let v = expression(t.0, *value);
                lemma_chain(st, t.0, v.0, v.1 is Some);
                if v.1 is Some {
                    lemma_checks(v.0, t.1->0, span, Seq::empty());
                    lemma_chain(st, v.0, assigned(v.0, t.1->0, span), true);
                }
            }
        },
        _ => {},
    }
}

proof fn lemma_statement_expression(st: State, e: Expression)
    requires
        is_sound(st),
        e is StatementExpression,
    ensures
        kept(st, expression_inner(st, e).0, expression_inner(st, e).1 is Some),
    decreases e, 0int,
{
    broadcast use lemma_sound;

    match e {
        Expression::StatementExpression { compound, .. } => {
            let inside = st.enter(ScopeKind::Block);
            lemma_block_value(inside, compound.items@, 0, Ty::Void);
            let v = block_value(inside, compound.items@, 0, Ty::Void);
            lemma_left(st, ScopeKind::Block, v.0, v.1 is Some);
        },
        _ => {},
    }
}

proof fn lemma_generic(st: State, e: Expression)
    requires
        is_sound(st),
        e is Generic,
    ensures
        kept(st, expression_inner(st, e).0, expression_inner(st, e).1 is Some),
    decreases e, 0int,
{
    broadcast use lemma_sound;

    match e {
        Expression::Generic { controlling: c, associations, span } => {
            lemma_expression(st, *c);
            let t = expression(st, *c);
            if t.1 is Some {
                lemma_selection_checked(t.0, associations@, span);
                let k = selection_checked(t.0, associations@, span);
                lemma_chain(st, t.0, k.0, k.1);
                if k.1 {
                    let ty = controlling(t.1->0);
                    lemma_association(k.0, ty, associations@, 0, None, span);
                    let r = association(k.0, ty, associations@, 0, None, span);
                    lemma_chain(st, k.0, r.0, r.1 is Some);
                }
            }
        },
        _ => {},
    }
}

proof fn lemma_expression_inner(st: State, e: Expression)
    requires
        is_sound(st),
    ensures
        kept(st, expression_inner(st, e).0, expression_inner(st, e).1 is Some),
    decreases e, 1int,
{
    broadcast use lemma_sound;

    lemma_quiet(st, st);
    match e {
        Expression::Identifier { name, span } => lemma_identifier_use(st, name, span),
        Expression::Parenthesized { inner, .. } => lemma_expression(st, *inner),
        Expression::ArraySubscript { .. } => lemma_subscript(st, e),
        Expression::FunctionCall { .. } => lemma_call(st, e),
        Expression::MemberAccess { .. } => lemma_member(st, e),
        Expression::PointerMemberAccess { .. } => lemma_arrow(st, e),
        Expression::PostIncrement { operand, .. } => lemma_expression(st, *operand),
        Expression::PostDecrement { operand, .. } => lemma_expression(st, *operand),
        Expression::PreIncrement { operand, .. } => lemma_expression(st, *operand),
        Expression::PreDecrement { operand, .. } => lemma_expression(st, *operand),
        Expression::UnaryOp { .. } => lemma_unary(st, e),
        Expression::SizeofExpr { operand, .. } => {
            lemma_expression(st, *operand);
            let o = expression(st, *operand);
            lemma_ignored(st, o.0, o.1 is Some);
        },
        Expression::AlignofExpr { expr, .. } => {
            lemma_expression(st, *expr);
            let o = expression(st, *expr);
            lemma_ignored(st, o.0, o.1 is Some);
        },
        Expression::Cast { operand, .. } => lemma_expression(st, *operand),
        Expression::Binary { .. } => lemma_binary(st, e),
        Expression::Conditional { .. } => lemma_conditional(st, e),
        Expression::Assignment { .. } => lemma_assignment(st, e),
        Expression::Comma { exprs, .. } => lemma_sequence(st, exprs@, 0, Ty::Void),
        Expression::CompoundLiteral { initializer: init, .. } => lemma_initializer(st, init),
        Expression::StatementExpression { .. } => lemma_statement_expression(st, e),
        Expression::Generic { .. } => lemma_generic(st, e),
        Expression::AddressOfLabel { label, span } => lemma_scopes(
            st,
            label_referenced(st.scopes, label, span),
        ),
        _ => {},
    }
}

/// An expression that reports no error has a type. Whatever it reports, its analysis
/// ends in the scope, loop and switch that it began in, and what was reported before
/// stays, and so do the names, the target and the depth.
pub proof fn lemma_expression(st: State, e: Expression)
    requires
        is_sound(st),
    ensures
        kept(st, expression(st, e).0, expression(st, e).1 is Some),
    decreases e, 2int,
{
    if st.depth >= st.max_depth {
        lemma_error(
            st,
            span_of(e),
            too_deep(),
            false,
        );
    } else {
        lemma_expression_inner(st.deeper(), e);
        let r = expression_inner(st.deeper(), e);
        lemma_deeper(st, r.0, r.1 is Some);
    }
}

proof fn lemma_arguments(st: State, args: Seq<Expression>, i: int)
    requires
        is_sound(st),
    ensures
        kept(st, arguments(st, args, i).0, arguments(st, args, i).1),
    decreases args, args.len() - i,
{
    broadcast use lemma_sound;

    lemma_quiet(st, st);
    if 0 <= i < args.len() {
        lemma_expression(st, args[i]);
        let r = expression(st, args[i]);
        if r.1 is Some {
            lemma_arguments(r.0, args, i + 1);
            let n = arguments(r.0, args, i + 1);
            lemma_chain(st, r.0, n.0, n.1);
        }
    }
}

proof fn lemma_sequence(st: State, es: Seq<Expression>, i: int, last: Ty)
    requires
        is_sound(st),
    ensures
        kept(st, sequence(st, es, i, last).0, sequence(st, es, i, last).1 is Some),
    decreases es, es.len() - i,
{
    broadcast use lemma_sound;

    lemma_quiet(st, st);
    if 0 <= i < es.len() {
        lemma_expression(st, es[i]);
        let r = expression(st, es[i]);
        if r.1 is Some {
            lemma_sequence(r.0, es, i + 1, r.1->0);
            let n = sequence(r.0, es, i + 1, r.1->0);
            lemma_chain(st, r.0, n.0, n.1 is Some);
        }
    }
}

proof fn lemma_block_value(st: State, items: Seq<BlockItem>, i: int, last: Ty)
    requires
        is_sound(st),
    ensures
        kept(st, block_value(st, items, i, last).0, block_value(st, items, i, last).1 is Some),
    decreases items, items.len() - i,
{
    broadcast use lemma_sound;

    lemma_quiet(st, st);
    if 0 <= i < items.len() {
        match items[i] {
            BlockItem::Declaration(d) => {
                lemma_declaration(st, *d);
                let r = declaration(st, *d);
                lemma_ignored(st, r.0, r.1);
                lemma_block_value(r.0, items, i + 1, last);
                let n = block_value(r.0, items, i + 1, last);
                lemma_chain(st, r.0, n.0, n.1 is Some);
            },
            BlockItem::Statement(Statement::Expression(Some(e))) => {
                lemma_expression(st, *e);
                let r = expression(st, *e);
                if r.1 is Some {
                    lemma_block_value(r.0, items, i + 1, r.1->0);
                    let n = block_value(r.0, items, i + 1, r.1->0);
                    lemma_chain(st, r.0, n.0, n.1 is Some);
                }
            },
            BlockItem::Statement(s) => {
                lemma_statement(st, s);
                let r = statement(st, s);
                lemma_ignored(st, r.0, r.1);
                lemma_block_value(r.0, items, i + 1, last);
                let n = block_value(r.0, items, i + 1, last);
                lemma_chain(st, r.0, n.0, n.1 is Some);
            },
        }
    }
}

proof fn lemma_association(
    st: State,
    t: Ty,
    assocs: Seq<GenericAssociation>,
    i: int,
    fallback: Option<Ty>,
    span: Span,
)
    requires
        is_sound(st),
    ensures
        kept(
            st,
            association(st, t, assocs, i, fallback, span).0,
            association(st, t, assocs, i, fallback, span).1 is Some,
        ),
    decreases assocs, assocs.len() - i,
{
    broadcast use lemma_sound;

    lemma_quiet(st, st);
    if i < 0 || i >= assocs.len() {
        lemma_error(st, span, "_Generic selection has no matching association"@, false);
    } else {
        lemma_expression(st, *assocs[i].expression);
        match assocs[i].ty_name {
            Some(_) => lemma_association(st, t, assocs, i + 1, fallback, span),
            None => {
                let r = expression(st, *assocs[i].expression);
                if r.1 is Some {
                    lemma_association(r.0, t, assocs, i + 1, r.1, span);
                    let n = association(r.0, t, assocs, i + 1, r.1, span);
                    lemma_chain(st, r.0, n.0, n.1 is Some);
                }
            },
        }
    }
}

// ---------------------------------------------------------------------------
// Statements
// ---------------------------------------------------------------------------

/// A statement that reports no error is analyzed to its end. Whatever it reports, it
/// leaves every scope, loop and switch that it enters, and what was reported before
/// stays, and so do the names, the target and the depth.
pub proof fn lemma_statement(st: State, s: Statement)
    requires
        is_sound(st),
    ensures
        kept(st, statement(st, s).0, statement(st, s).1),
    decreases s, 3int,
{
    if st.depth >= st.max_depth {
        lemma_error(st, Span::nowhere(), too_deep(), false);
    } else {
        lemma_statement_inner(st.deeper(), s);
        let r = statement_inner(st.deeper(), s);
        lemma_deeper(st, r.0, r.1);
    }
}

/// The items of a block keep what each of them keeps.
pub proof fn lemma_block(st: State, items: Seq<BlockItem>, i: int)
    requires
        is_sound(st),
    ensures
        kept(st, block(st, items, i), true),
    decreases items, items.len() - i,
{
    broadcast use lemma_sound;

    lemma_quiet(st, st);
    if 0 <= i < items.len() {
        let r = match items[i] {
            BlockItem::Declaration(d) => declaration(st, *d),
            BlockItem::Statement(s) => statement(st, s),
        };
        match items[i] {
            BlockItem::Declaration(d) => lemma_declaration(st, *d),
            BlockItem::Statement(s) => lemma_statement(st, s),
        }
        lemma_ignored(st, r.0, r.1);
        lemma_block(r.0, items, i + 1);
        lemma_chain(st, r.0, block(r.0, items, i + 1), true);
    }
}

proof fn lemma_condition(st: State, e: Expression, span: Span, message: Seq<char>)
    requires
        is_sound(st),
    ensures
        kept(
            st,
            condition(expression(st, e), span, message).0,
            condition(expression(st, e), span, message).1,
        ),
    decreases e, 4int,
{
    reveal(condition);
    broadcast use lemma_sound;

    lemma_expression(st, e);
    let c = expression(st, e);
    if c.1 is Some {
        lemma_checks(c.0, c.1->0, span, message);
        lemma_chain(st, c.0, branch_checked(c.0, c.1->0, span, message), true);
    }
}

proof fn lemma_loop_body(st: State, body: Statement)
    requires
        is_sound(st),
    ensures
        kept(st, loop_body(st, body).0, loop_body(st, body).1),
    decreases body, 4int,
{
    broadcast use lemma_sound;

    reveal(kept);
    lemma_statement(State { in_loop: true, ..st }, body);
}

proof fn lemma_switch_body(st: State, body: Statement)
    requires
        is_sound(st),
    ensures
        kept(st, switch_body(st, body).0, switch_body(st, body).1),
    decreases body, 4int,
{
    broadcast use lemma_sound;

    reveal(kept);
    lemma_statement(
        State { in_switch: true, cases: Map::empty(), has_default: false, ..st },
        body,
    );
}

proof fn lemma_optional(st: State, e: Option<Box<Expression>>)
    requires
        is_sound(st),
    ensures
        kept(st, optional(st, e).0, optional(st, e).1),
    decreases e, 0int,
{
    reveal(evaluated);
    broadcast use lemma_sound;

    lemma_quiet(st, st);
    match e {
        None => {},
        Some(x) => lemma_expression(st, *x),
    }
}

proof fn lemma_for_start(st: State, init: Option<ForInit>)
    requires
        is_sound(st),
    ensures
        kept(st, for_start(st, init).0, for_start(st, init).1),
    decreases init, 0int,
{
    reveal(for_start);
    broadcast use lemma_sound;

    lemma_quiet(st, st);
    reveal(evaluated);
    match init {
        None => {},
        Some(ForInit::Declaration(d)) => lemma_declaration(st, *d),
        Some(ForInit::Expression(e)) => lemma_expression(st, *e),
    }
}

proof fn lemma_for_head(st: State, s: Statement)
    requires
        is_sound(st),
    ensures
        kept(st, for_head(st, s).0, for_head(st, s).1),
    decreases s, 0int,
{
    reveal(for_start);
    broadcast use lemma_sound;

    lemma_quiet(st, st);
    match s {
        Statement::For { init, condition: c, increment, .. } => {
            lemma_for_start(st, init);
            let i = for_start(st, init);
            if i.1 {
                lemma_optional(i.0, c);
                let k = optional(i.0, c);
                lemma_chain(st, i.0, k.0, k.1);
                if k.1 {
                    lemma_optional(k.0, increment);
                    let n = optional(k.0, increment);
                    lemma_chain(st, k.0, n.0, n.1);
                }
            }
        },
        _ => {},
    }
}

#[verifier::spinoff_prover]
proof fn lemma_if(st: State, s: Statement)
    requires
        is_sound(st),
        s is If,
    ensures
        kept(st, if_statement(st, s).0, if_statement(st, s).1),
    decreases s, 1int,
{
    broadcast use lemma_sound;

    match s {
        Statement::If { condition: c, then_branch, else_branch, span } => {
            let message = "controlling expression of 'if' is not scalar"@;
            lemma_condition(st, *c, span, message);
            let k = condition(expression(st, *c), span, message);
            if k.1 {
                lemma_statement(k.0, *then_branch);
                let t = statement(k.0, *then_branch);
                lemma_chain(st, k.0, t.0, t.1);
                match else_branch {
                    Some(x) => if t.1 {
                        lemma_statement(t.0, *x);
                        let f = statement(t.0, *x);
                        lemma_chain(st, t.0, f.0, f.1);
                    },
                    None => {},
                }
            }
        },
        _ => {},
    }
}

proof fn lemma_switch(st: State, s: Statement)
    requires
        is_sound(st),
        s is Switch,
    ensures
        kept(st, switch_statement(st, s).0, switch_statement(st, s).1),
    decreases s, 1int,
{
    broadcast use lemma_sound;

    match s {
        Statement::Switch { condition: c, body, span } => {
            lemma_expression(st, *c);
            let r = expression(st, *c);
            if r.1 is Some {
                lemma_checks(r.0, r.1->0, span, Seq::empty());
                let s1 = switch_checked(r.0, r.1->0, span);
                lemma_chain(st, r.0, s1, true);
                lemma_switch_body(s1, *body);
                let b = switch_body(s1, *body);
                lemma_chain(st, s1, b.0, b.1);
            }
        },
        _ => {},
    }
}

#[verifier::spinoff_prover]
proof fn lemma_while(st: State, s: Statement)
    requires
        is_sound(st),
        s is While,
    ensures
        kept(st, while_statement(st, s).0, while_statement(st, s).1),
    decreases s, 1int,
{
    broadcast use lemma_sound;

    match s {
        Statement::While { condition: c, body, span } => {
            let message = "controlling expression of 'while' is not scalar"@;
            lemma_condition(st, *c, span, message);
            let k = condition(expression(st, *c), span, message);
            if k.1 {
                lemma_loop_body(k.0, *body);
                let b = loop_body(k.0, *body);
                lemma_chain(st, k.0, b.0, b.1);
            }
        },
        _ => {},
    }
}

#[verifier::spinoff_prover]
proof fn lemma_do_while(st: State, s: Statement)
    requires
        is_sound(st),
        s is DoWhile,
    ensures
        kept(st, do_while_statement(st, s).0, do_while_statement(st, s).1),
    decreases s, 1int,
{
    broadcast use lemma_sound;

    match s {
        Statement::DoWhile { body, condition: c, span } => {
            let message = "controlling expression of 'do-while' is not scalar"@;
            lemma_loop_body(st, *body);
            let b = loop_body(st, *body);
            if b.1 {
                lemma_condition(b.0, *c, span, message);
                let k = condition(expression(b.0, *c), span, message);
                lemma_chain(st, b.0, k.0, k.1);
            }
        },
        _ => {},
    }
}

#[verifier::spinoff_prover]
proof fn lemma_for(st: State, s: Statement)
    requires
        is_sound(st),
        s is For,
    ensures
        kept(st, for_statement(st, s).0, for_statement(st, s).1),
    decreases s, 1int,
{
    broadcast use lemma_sound;

    match s {
        Statement::For { body, .. } => {
            let inside = st.enter(ScopeKind::Block);
            lemma_for_head(inside, s);
            let h = for_head(inside, s);
            if h.1 {
                lemma_loop_body(h.0, *body);
                let b = loop_body(h.0, *body);
                lemma_chain(inside, h.0, b.0, b.1);
                lemma_left(st, ScopeKind::Block, b.0, b.1);
            } else {
                lemma_left(st, ScopeKind::Block, h.0, false);
            }
        },
        _ => {},
    }
}

proof fn lemma_jumped(st: State, r: (State, Option<Ty>), span: Span)
    requires
        kept(st, r.0, r.1 is Some),
    ensures
        kept(st, jumped(r, span).0, jumped(r, span).1),
{
    broadcast use lemma_sound;

    reveal(jumped);
    if r.1 is Some {
        lemma_checks(r.0, r.1->0, span, Seq::empty());
        lemma_chain(st, r.0, goto_checked(r.0, r.1->0, span), true);
    }
}

proof fn lemma_jump(st: State, s: Statement)
    requires
        is_sound(st),
        s is ComputedGoto,
    ensures
        kept(st, goto_statement(st, s).0, goto_statement(st, s).1),
    decreases s, 1int,
{
    match s {
        Statement::ComputedGoto { target, span } => {
            lemma_expression(st, *target);
            lemma_jumped(st, expression(st, *target), span);
        },
        _ => {},
    }
}

proof fn lemma_return(st: State, s: Statement)
    requires
        is_sound(st),
        s is Return,
    ensures
        kept(st, return_statement(st, s).0, return_statement(st, s).1),
    decreases s, 1int,
{
    reveal(returned);
    broadcast use lemma_sound;

    match s {
        Statement::Return { value, span } => match value {
            Some(x) => {
                lemma_expression(st, *x);
                let r = expression(st, *x);
                if r.1 is Some {
                    lemma_checks(r.0, r.1->0, span, Seq::empty());
                    lemma_chain(st, r.0, return_checked(r.0, r.1->0, span), true);
                }
            },
            None => lemma_checks(st, Ty::Void, span, Seq::empty()),
        },
        _ => {},
    }
}

proof fn lemma_labeled(st: State, s: Statement)
    requires
        is_sound(st),
        s is Labeled,
    ensures
        kept(st, labeled_statement(st, s).0, labeled_statement(st, s).1),
    decreases s, 1int,
{
    broadcast use lemma_sound;

    match s {
        Statement::Labeled { label, statement: x, span, .. } => {
            let s1 = State {
                scopes: label_defined(st.scopes, label, span),
                log: label_definition_log(
                    st.log,
                    st.scopes,
                    label,
                    span,
                ),
                ..st
            };
            if s1.log == st.log {
                lemma_quiet(st, s1);
            } else {
                lemma_logged(st, s1, s1.log.last(), true);
            }
            lemma_statement(s1, *x);
            let r = statement(s1, *x);
            lemma_chain(st, s1, r.0, r.1);
        },
        _ => {},
    }
}

proof fn lemma_case(st: State, s: Statement)
    requires
        is_sound(st),
        s is Case,
    ensures
        kept(st, case_statement(st, s).0, case_statement(st, s).1),
    decreases s, 1int,
{
    broadcast use lemma_sound;

    match s {
        Statement::Case { value, statement: x, span } => {
            let message = "'case' label not within a switch statement"@;
            lemma_error_if(st, !st.in_switch, span, message);
            let s1 = st.error_if(!st.in_switch, span, message);
            lemma_case_seen(s1, *value, span);
            let s2 = case_seen(s1, *value, span);
            lemma_chain(st, s1, s2, true);
            lemma_statement(s2, *x);
            let r = statement(s2, *x);
            lemma_chain(st, s2, r.0, r.1);
        },
        _ => {},
    }
}

proof fn lemma_case_range(st: State, s: Statement)
    requires
        is_sound(st),
        s is CaseRange,
    ensures
        kept(st, case_statement(st, s).0, case_statement(st, s).1),
    decreases s, 1int,
{
    broadcast use lemma_sound;

    match s {
        Statement::CaseRange { statement: x, span, .. } => {
            let message = "'case' label not within a switch statement"@;
            lemma_error_if(st, !st.in_switch, span, message);
            let s1 = st.error_if(!st.in_switch, span, message);
            lemma_statement(s1, *x);
            let r = statement(s1, *x);
            lemma_chain(st, s1, r.0, r.1);
        },
        _ => {},
    }
}

proof fn lemma_default(st: State, s: Statement)
    requires
        is_sound(st),
        s is Default,
    ensures
        kept(st, default_statement(st, s).0, default_statement(st, s).1),
    decreases s, 1int,
{
    broadcast use lemma_sound;

    match s {
        Statement::Default { statement: x, span } => {
            let outside = "'default' label not within a switch statement"@;
            let again = "multiple default labels in one switch"@;
            lemma_error_if(st, !st.in_switch, span, outside);
            let s1 = st.error_if(!st.in_switch, span, outside);
            lemma_error_if(s1, s1.has_default, span, again);
            let s2 = s1.error_if(s1.has_default, span, again);
            lemma_chain(st, s1, s2, true);
            let s3 = State { has_default: true, ..s2 };
            lemma_quiet(s2, s3);
            lemma_chain(st, s2, s3, true);
            lemma_statement(s3, *x);
            let r = statement(s3, *x);
            lemma_chain(st, s3, r.0, r.1);
        },
        _ => {},
    }
}

proof fn lemma_statement_inner(st: State, s: Statement)
    requires
        is_sound(st),
    ensures
        kept(st, statement_inner(st, s).0, statement_inner(st, s).1),
    decreases s, 2int,
{
    broadcast use lemma_sound;

    match s {
        Statement::Compound(c) => {
            let inside = st.enter(ScopeKind::Block);
            lemma_block(inside, c.items@, 0);
            lemma_left(st, ScopeKind::Block, block(inside, c.items@, 0), true);
        },
        Statement::Expression(e) => lemma_optional(st, e),
        Statement::If { .. } => lemma_if(st, s),
        Statement::Switch { .. } => lemma_switch(st, s),
        Statement::While { .. } => lemma_while(st, s),
        Statement::DoWhile { .. } => lemma_do_while(st, s),
        Statement::For { .. } => lemma_for(st, s),
        Statement::Goto { label, span } => lemma_scopes(
            st,
            label_referenced(st.scopes, label, span),
        ),
        Statement::ComputedGoto { .. } => lemma_jump(st, s),
        Statement::Continue { span } => lemma_error_if(
            st,
            !st.in_loop,
            span,
            "'continue' statement not in loop statement"@,
        ),
        Statement::Break { span } => lemma_error_if(
            st,
            !st.in_loop && !st.in_switch,
            span,
            "'break' statement not in loop or switch statement"@,
        ),
        Statement::Return { .. } => lemma_return(st, s),
        Statement::Labeled { .. } => lemma_labeled(st, s),
        Statement::Case { .. } => lemma_case(st, s),
        Statement::CaseRange { .. } => lemma_case_range(st, s),
        Statement::Default { .. } => lemma_default(st, s),
        Statement::Declaration(d) => lemma_declaration(st, *d),
        Statement::Asm(a) => lemma_asm_checked(st, a),
        Statement::LocalLabel(labels, span) => {
            reveal(labels_declared);
            lemma_local_labels(st, labels@, 0, span);
        },
    }
}

// ---------------------------------------------------------------------------
// Declarations
// ---------------------------------------------------------------------------

/// A declaration that reports no error is analyzed to its end. Whatever it
/// reports, what was reported before stays, and so do the names, the target, the
/// depth and the scopes.
pub proof fn lemma_declaration(st: State, d: Declaration)
    requires
        is_sound(st),
    ensures
        kept(st, declaration(st, d).0, declaration(st, d).1),
    decreases d, 0int,
{
    broadcast use lemma_sound;

    match d.static_assert {
        Some(a) => lemma_static_assertion(st, a),
        None => {
            let base = base_type(st, d.specifiers);
            lemma_tags_defined(st, d.specifiers);
            let st1 = tags_defined(st, d.specifiers);
            lemma_declarators(st1, d.specifiers, base, d.declarators@, 0);
            lemma_chain(st, st1, declarators(st1, d.specifiers, base, d.declarators@, 0), true);
        },
    }
}

proof fn lemma_declarators(
    st: State,
    specs: DeclarationSpecifiers,
    base: Ty,
    ds: Seq<InitDeclarator>,
    i: int,
)
    requires
        is_sound(st),
    ensures
        kept(st, declarators(st, specs, base, ds, i), true),
    decreases ds, ds.len() - i,
{
    broadcast use lemma_sound;

    lemma_quiet(st, st);
    if 0 <= i < ds.len() {
        lemma_declarator(st, specs, base, ds[i]);
        let st1 = declarator(st, specs, base, ds[i]);
        lemma_declarators(st1, specs, base, ds, i + 1);
        lemma_chain(st, st1, declarators(st1, specs, base, ds, i + 1), true);
    }
}

proof fn lemma_optional_initializer(st: State, init: Option<Initializer>)
    requires
        is_sound(st),
    ensures
        kept(st, optional_initializer(st, init).0, true),
    decreases init, 0int,
{
    broadcast use lemma_sound;

    lemma_quiet(st, st);
    match init {
        Some(x) => lemma_initializer(st, x),
        None => {},
    }
}

/// Whatever an initializer reports, what was reported before stays, and so do the
/// names, the target, the depth and the scopes.
pub proof fn lemma_initializer(st: State, init: Initializer)
    requires
        is_sound(st),
    ensures
        kept(st, initializer(st, init).0, true),
    decreases init, 0int,
{
    broadcast use lemma_sound;

    match init {
        Initializer::Expression(e) => {
            lemma_expression(st, *e);
            let r = expression(st, *e);
            lemma_ignored(st, r.0, r.1 is Some);
        },
        Initializer::List { designators_and_initializers: items, .. } => {
            lemma_initializer_list(st, items@, 0);
        },
    }
}

proof fn lemma_initializer_list(st: State, items: Seq<DesignatedInitializer>, i: int)
    requires
        is_sound(st),
    ensures
        kept(st, initializer_list(st, items, i), true),
    decreases items, items.len() - i,
{
    broadcast use lemma_sound;

    lemma_quiet(st, st);
    if 0 <= i < items.len() {
        lemma_designation(st, items[i].designators@, 0);
        let st1 = designation(st, items[i].designators@, 0);
        lemma_initializer(st1, items[i].initializer);
        let st2 = initializer(st1, items[i].initializer).0;
        lemma_chain(st, st1, st2, true);
        lemma_initializer_list(st2, items, i + 1);
        lemma_chain(st, st2, initializer_list(st2, items, i + 1), true);
    }
}

proof fn lemma_designation(st: State, ds: Seq<Designator>, i: int)
    requires
        is_sound(st),
    ensures
        kept(st, designation(st, ds, i), true),
    decreases ds, ds.len() - i,
{
    broadcast use lemma_sound;

    reveal(designator);
    lemma_quiet(st, st);
    if 0 <= i < ds.len() {
        lemma_designator(st, ds[i]);
        let st1 = designator(st, ds[i]);
        lemma_designation(st1, ds, i + 1);
        lemma_chain(st, st1, designation(st1, ds, i + 1), true);
    }
}

proof fn lemma_designator(st: State, d: Designator)
    requires
        is_sound(st),
    ensures
        kept(st, designator(st, d), true),
    decreases d, 0int,
{
    broadcast use lemma_sound;

    lemma_designator_is(st, d);
    lemma_quiet(st, st);
    match d {
        Designator::Index(e, _) => {
            lemma_expression(st, *e);
            let r = expression(st, *e);
            lemma_ignored(st, r.0, r.1 is Some);
        },
        Designator::IndexRange(low, high, _) => {
            lemma_expression(st, *low);
            let l = expression(st, *low);
            lemma_ignored(st, l.0, l.1 is Some);
            lemma_expression(l.0, *high);
            let h = expression(l.0, *high);
            lemma_ignored(l.0, h.0, h.1 is Some);
            lemma_chain(st, l.0, h.0, true);
        },
        Designator::Field(..) => {},
    }
}

proof fn lemma_declarator(st: State, specs: DeclarationSpecifiers, base: Ty, d: InitDeclarator)
    requires
        is_sound(st),
    ensures
        kept(st, declarator(st, specs, base, d), true),
    decreases d, 0int,
{
    broadcast use lemma_sound;

    let t = full_type(st, base, d.declarator);
    if says_auto(specs.type_specifiers@) {
        lemma_optional_initializer(st, d.initializer);
        let r = optional_initializer(st, d.initializer);
        let ty = if r.1 is Some {
            r.1->0
        } else {
            t
        };
        lemma_name_declared(r.0, specs, d, ty);
        lemma_chain(st, r.0, name_declared(r.0, specs, d, ty), true);
    } else {
        lemma_name_declared(st, specs, d, t);
        let st1 = name_declared(st, specs, d, t);
        lemma_optional_initializer(st1, d.initializer);
        lemma_chain(st, st1, optional_initializer(st1, d.initializer).0, true);
    }
}

/// An initializer that has no type because something is wrong with it is reported.
pub proof fn lemma_wrong_initializer_is_reported(
    st: State,
    specs: DeclarationSpecifiers,
    base: Ty,
    d: InitDeclarator,
    e: Expression,
)
    requires
        is_sound(st),
        d.initializer == Some(Initializer::Expression(Box::new(e))),
        ({
            let start = if says_auto(specs.type_specifiers@) {
                st
            } else {
                name_declared(st, specs, d, full_type(st, base, d.declarator))
            };
            expression(start, e).1 is None
        }),
    ensures
        errors(declarator(st, specs, base, d)) > errors(st),
{
    broadcast use lemma_sound;

    reveal(kept);
    let t = full_type(st, base, d.declarator);
    if says_auto(specs.type_specifiers@) {
        lemma_expression(st, e);
        let r = expression(st, e);
        assert(optional_initializer(st, d.initializer) == r);
        lemma_name_declared(r.0, specs, d, t);
    } else {
        lemma_name_declared(st, specs, d, t);
        let st1 = name_declared(st, specs, d, t);
        lemma_expression(st1, e);
        assert(optional_initializer(st1, d.initializer) == expression(st1, e));
    }
}

/// Whatever the body of a loop or of a switch reports, the loop is left after it,
/// and the labels of the switch around it are back.
pub proof fn lemma_bodies_give_back(st: State, body: Statement)
    ensures
        loop_body(st, body).0.in_loop == st.in_loop,
        switch_body(st, body).0.in_switch == st.in_switch,
        switch_body(st, body).0.cases == st.cases,
        switch_body(st, body).0.has_default == st.has_default,
{
}

// ---------------------------------------------------------------------------
// Translation units
// ---------------------------------------------------------------------------

proof fn lemma_attributes_given(t: SymbolsModel, id: SymbolId, attrs: Seq<Attr>, i: int)
    ensures
        attributes_given(t, id, attrs, i).visible == t.visible,
    decreases attrs.len() - i,
{
    if 0 <= i < attrs.len() {
        lemma_attributes_given(attributed(t, id, attrs[i]), id, attrs, i + 1);
    }
}

proof fn lemma_function_declared(st: State, f: FunctionDefinition, ty: Ty)
    requires
        is_sound(st),
    ensures
        kept(st, function_declared(st, f, ty), true),
{
    reveal(function_declared);
    let e = function_symbol(
        direct_name(f.declarator.direct),
        ty,
        storage_of(f.specifiers.storage_class),
        f.span,
    );
    lemma_declared(st.symbols, st.log, e);
    let d = declared(st.symbols, st.log, e);
    let b = function_declared(st, f, ty);
    match d.2 {
        Some(id) => lemma_attributes_given(
            defined(d.0, id),
            id,
            validated(st, f.attributes@, f.specifiers.attributes@),
            0,
        ),
        None => {},
    }
    if d.1 == st.log {
        lemma_quiet(st, b);
    } else {
        lemma_logged(st, b, d.1.last(), true);
    }
}

proof fn lemma_parameters(
    st: State,
    types: Seq<Ty>,
    names: Seq<Option<Symbol>>,
    i: int,
    span: Span,
)
    requires
        is_sound(st),
    ensures
        kept(st, parameters_declared(st, types, names, i, span), true),
    decreases types.len() - i,
{
    broadcast use lemma_sound;

    lemma_quiet(st, st);
    if 0 <= i < types.len() {
        let next = if i < names.len() && names[i] is Some {
            parameter_declared(st, names[i]->0, types[i], span)
        } else {
            st
        };
        if i < names.len() && names[i] is Some {
            let e = parameter_symbol(names[i]->0, types[i], span);
            lemma_declared(st.symbols, st.log, e);
            let d = declared(st.symbols, st.log, e);
            if d.1 == st.log {
                lemma_quiet(st, next);
            } else {
                lemma_logged(st, next, d.1.last(), true);
            }
        }
        lemma_parameters(next, types, names, i + 1, span);
        lemma_chain(st, next, parameters_declared(next, types, names, i + 1, span), true);
    }
}

proof fn lemma_labels_checked(log: Seq<DiagnosticModel>, labels: Seq<LabelEntry>, i: int)
    ensures
        log.is_prefix_of(labels_checked(log, labels, i)),
    decreases labels.len() - i,
{
    if 0 <= i < labels.len() {
        let d = error_at(labels[i].span, "use of undefined label"@);
        lemma_count_push(log, d);
        let next = if labels[i].is_referenced && !labels[i].is_defined {
            log.push(d)
        } else {
            log
        };
        lemma_labels_checked(next, labels, i + 1);
        let end = labels_checked(next, labels, i + 1);
        assert(log =~= end.subrange(0, log.len() as int));
    }
}

proof fn lemma_body_left(st: State, inside: State, returned: Ty, items: Seq<BlockItem>)
    requires
        is_sound(st),
        kept(st.enter(ScopeKind::Function), inside, true),
    ensures
        kept(st, body_analyzed(inside, returned, items), true),
{
    reveal(kept);
    reveal(body_left);
    let start = State {
        return_type: Some(returned),
        in_loop: false,
        in_switch: false,
        cases: Map::empty(),
        has_default: false,
        ..inside
    };
    lemma_block(start, items, 0);
    let r = block(start, items, 0);
    let end = labels_checked(r.log, innermost_labels(r.scopes), 0);
    lemma_labels_checked(r.log, innermost_labels(r.scopes), 0);
    lemma_counts_grow(r.log, end);
    assert(st.log =~= end.subrange(0, st.log.len() as int));
}

proof fn lemma_parameters_keep_surroundings(
    st: State,
    types: Seq<Ty>,
    names: Seq<Option<Symbol>>,
    i: int,
    span: Span,
)
    ensures
        ({
            let r = parameters_declared(st, types, names, i, span);
            &&& r.return_type == st.return_type
            &&& r.in_loop == st.in_loop
            &&& r.in_switch == st.in_switch
            &&& r.cases == st.cases
            &&& r.has_default == st.has_default
        }),
    decreases types.len() - i,
{
    if 0 <= i < types.len() {
        let next = if i < names.len() && names[i] is Some {
            parameter_declared(st, names[i]->0, types[i], span)
        } else {
            st
        };
        lemma_parameters_keep_surroundings(next, types, names, i + 1, span);
    }
}

/// Whatever a function definition reports, the type that is to be returned, the
/// loop, the switch and the labels of the switch are after it what they were before.
pub proof fn lemma_surroundings_stay(st: State, f: FunctionDefinition)
    ensures
        function_definition(st, f).return_type == st.return_type,
        function_definition(st, f).in_loop == st.in_loop,
        function_definition(st, f).in_switch == st.in_switch,
        function_definition(st, f).cases == st.cases,
        function_definition(st, f).has_default == st.has_default,
{
    let sig = signature(st, f);
    let ty = Ty::Function { return_type: Box::new(sig.0), params: sig.1, variadic: sig.2 };
    let names = parameter_names(f.declarator.direct);
    let inside = function_declared(st, f, ty).enter(ScopeKind::Function);
    reveal(function_declared);
    lemma_parameters_keep_surroundings(inside, sig.1, names, 0, f.span);
}

/// Whatever a function definition reports, its scope is left after it, and what was
/// reported before stays.
pub proof fn lemma_function_definition(st: State, f: FunctionDefinition)
    requires
        is_sound(st),
    ensures
        kept(st, function_definition(st, f), true),
        function_definition(st, f).scopes.len() == st.scopes.len(),
        function_definition(st, f).symbols.visible.len() == st.symbols.visible.len(),
        is_sound(function_definition(st, f)),
{
    broadcast use lemma_sound;

    let sig = signature(st, f);
    let ty = Ty::Function { return_type: Box::new(sig.0), params: sig.1, variadic: sig.2 };
    let names = parameter_names(f.declarator.direct);
    lemma_function_declared(st, f, ty);
    let st1 = function_declared(st, f, ty);
    let inside = st1.enter(ScopeKind::Function);
    lemma_parameters(inside, sig.1, names, 0, f.span);
    let st2 = parameters_declared(inside, sig.1, names, 0, f.span);
    lemma_body_left(st1, st2, sig.0, f.body.items@);
    lemma_chain(st, st1, function_definition(st, f), true);
    reveal(kept);
}

/// A declaration at file scope keeps what its parts keep.
pub proof fn lemma_external_declaration(st: State, d: ExternalDeclaration)
    requires
        is_sound(st),
    ensures
        kept(st, external_declaration(st, d).0, external_declaration(st, d).1),
{
    match d {
        ExternalDeclaration::FunctionDefinition(f) => lemma_function_definition(st, *f),
        ExternalDeclaration::Declaration(x) => lemma_declaration(st, *x),
        ExternalDeclaration::AsmStatement(a) => lemma_asm_checked(st, a),
        ExternalDeclaration::Empty => lemma_quiet(st, st),
    }
}

/// A translation unit keeps what its declarations keep: the analysis of a unit ends
/// in the scope that it began in.
pub proof fn lemma_unit(st: State, ds: Seq<ExternalDeclaration>, i: int)
    requires
        is_sound(st),
    ensures
        kept(st, external_declarations(st, ds, i), true),
    decreases ds.len() - i,
{
    broadcast use lemma_sound;

    lemma_quiet(st, st);
    if 0 <= i < ds.len() {
        lemma_external_declaration(st, ds[i]);
        let r = external_declaration(st, ds[i]);
        lemma_ignored(st, r.0, r.1);
        lemma_unit(r.0, ds, i + 1);
        lemma_chain(st, r.0, external_declarations(r.0, ds, i + 1), true);
    }
}

/// What an analyzer is made with: the outermost scopes.
pub proof fn lemma_new_is_sound(
    log: Seq<DiagnosticModel>,
    builder_target: Target,
    target: Target,
    names: Seq<Seq<char>>,
    name: Seq<char>,
    ty: Ty,
)
    ensures
        is_sound(builtin_registered(blank_state(log, builder_target, target, names), name, ty)),
{
    let st = blank_state(log, builder_target, target, names);
    match symbol_of(names, name) {
        Some(sym) => lemma_declared(st.symbols, st.log, builtin_typedef(sym, ty)),
        None => {},
    }
}

/// Nesting beyond the limit is refused: the expression has no type, the statement
/// is not analyzed, and each costs one error and changes nothing else.
pub proof fn lemma_nesting_is_limited(st: State, e: Expression, s: Statement)
    requires
        st.depth >= st.max_depth,
    ensures
        expression(st, e).1 is None,
        !statement(st, s).1,
        expression(st, e).0 == (State { log: expression(st, e).0.log, ..st }),
        statement(st, s).0 == (State { log: statement(st, s).0.log, ..st }),
        errors(expression(st, e).0) == errors(st) + 1,
        errors(statement(st, s).0) == errors(st) + 1,
{
    lemma_count_push(st.log, error_at(span_of(e), too_deep()));
    lemma_count_push(st.log, error_at(Span::nowhere(), too_deep()));
}

proof fn lemma_usage_checked(
    log: Seq<DiagnosticModel>,
    entries: Seq<SymbolModel>,
    names: Seq<Seq<char>>,
    i: int,
)
    ensures
        log.is_prefix_of(usage_checked(log, entries, names, i)),
        count_of(usage_checked(log, entries, names, i), Severity::Error) == count_of(
            log,
            Severity::Error,
        ),
    decreases entries.len() - i,
{
    if 0 <= i < entries.len() {
        let e = entries[i];
        let d = warning_at(e.span, "'"@ + text_of(names, e.name) + "' defined but not used"@);
        lemma_count_push(log, d);
        let next = if is_idle(e) {
            log.push(d)
        } else {
            log
        };
        lemma_usage_checked(next, entries, names, i + 1);
        let end = usage_checked(next, entries, names, i + 1);
        assert(log =~= end.subrange(0, log.len() as int));
    }
}

/// The end of a translation unit adds warnings at most, and leaves no definition
/// tentative.
pub proof fn lemma_finalized(st: State)
    ensures
        st.log.is_prefix_of(finalized(st).log),
        errors(finalized(st)) == errors(st),
        finalized(st).symbols.entries.len() == st.symbols.entries.len(),
        forall|i: int|
            0 <= i < st.symbols.entries.len() ==> !(
            #[trigger] finalized(st).symbols.entries[i]).is_tentative,
{
    lemma_usage_checked(st.log, tentative_settled(st.symbols).entries, st.names, 0);
}

} // verus!
