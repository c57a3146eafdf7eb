//! What the values of enumeration constants are, and that lowering and semantic
//! analysis agree on them.

use crate::common::types::Ty;
use crate::frontend::parser::ast::{
    BlockItem, EnumSpecifier, Enumerator, Expression, ExternalDeclaration, ForInit, Statement,
    StructOrUnionSpecifier, TypeSpecifier, UnaryOp,
};
use crate::frontend::sema::constants::enumerator_value;
use crate::frontend::sema::state::State;
use crate::frontend::sema::tags::{
    constant_declared, empty_range, enumerators_declared, range_with, value_of, EnumRange,
};
use crate::ir::lowering::constants::const_int;
use crate::ir::lowering::enums::{
    numbered, stated_or_next, values, with_aggregate, with_block, with_enum, with_members,
    with_specifiers, with_statement,
};
use crate::ir::lowering::structs::with_statement_definitions;
use crate::ir::lowering::unit::{unit_constants, with_external_constants};
use vstd::prelude::*;

verus! {

/// The text of the name of an enumerator.
pub open spec fn name_of(st: State, e: Enumerator) -> Seq<char> {
    st.names[e.name.0 as int]
}

/// Whether every enumerator has a known name, and each another one.
pub open spec fn names_differ(st: State, es: Seq<Enumerator>) -> bool {
    &&& forall|i: int| 0 <= i < es.len() ==> (#[trigger] es[i]).name.0 < st.names.len()
    &&& forall|i: int, j: int|
        0 <= i < j < es.len() ==> name_of(st, #[trigger] es[i]) != name_of(st, #[trigger] es[j])
}

/// After lowering has collected an enum, its first enumerator is zero, and each
/// other is one more than the one before it, unless it states a value; one that states
/// a value has what that expression comes to, with the enumerators before it known.
pub proof fn lemma_enumerators_follow_each_other(
    st: State,
    e: EnumSpecifier,
    m: Map<Seq<char>, i128>,
    k: int,
)
    requires
        e.enumerators is Some,
        names_differ(st, e.enumerators->0@),
        0 <= k < e.enumerators->0@.len(),
    ensures
        ({
            let es = e.enumerators->0@;
            let r = with_enum(st, e, m);
            let before = numbered(st, es.take(k), 0, m, 0);
            let v = r[name_of(st, es[k])];
            let unstated = es[k].value is None || const_int(st, before, *es[k].value->0) is None;
            &&& r.contains_key(name_of(st, es[k]))
            &&& unstated && k == 0 ==> v == 0
            &&& unstated && k > 0 && r[name_of(st, es[k - 1])] < i128::MAX ==> v == r[name_of(
                st,
                es[k - 1],
            )] + 1
            &&& !unstated ==> Some(v) == const_int(st, before, *es[k].value->0)
            &&& es[k].value matches Some(x) ==> (*x is IntegerLiteral
                && x->IntegerLiteral_value <= i128::MAX ==> v == x->IntegerLiteral_value)
        }),
{
    let es = e.enumerators->0@;
    lemma_value_in_map(st, es, 0, m, 0, k);
    assert(es.take(k).skip(0) =~= es.take(k));
    if k > 0 {
        lemma_value_in_map(st, es, 0, m, 0, k - 1);
    }
}

/// Collecting an enum leaves the constants of other names as they were.
pub proof fn lemma_other_constants_stay(
    st: State,
    e: EnumSpecifier,
    m: Map<Seq<char>, i128>,
    key: Seq<char>,
)
    requires
        e.enumerators matches Some(es) ==> forall|j: int|
            0 <= j < es@.len() ==> key != name_of(st, #[trigger] es@[j]),
    ensures
        with_enum(st, e, m).contains_key(key) == m.contains_key(key),
        m.contains_key(key) ==> with_enum(st, e, m)[key] == m[key],
{
    match e.enumerators {
        Some(es) => lemma_others_stay(st, es@, 0, m, 0, key),
        None => {},
    }
}

proof fn lemma_others_stay(
    st: State,
    es: Seq<Enumerator>,
    i: int,
    m: Map<Seq<char>, i128>,
    next: i128,
    key: Seq<char>,
)
    requires
        0 <= i <= es.len(),
        forall|j: int| i <= j < es.len() ==> key != name_of(st, #[trigger] es[j]),
    ensures
        numbered(st, es, i, m, next).contains_key(key) == m.contains_key(key),
        m.contains_key(key) ==> numbered(st, es, i, m, next)[key] == m[key],
    decreases es.len() - i,
{
    if i < es.len() {
        let v = stated_or_next(st, m, es[i], next);
        let m1 = if es[i].name.0 < st.names.len() {
            m.insert(st.names[es[i].name.0 as int], v)
        } else {
            m
        };
        assert(key != name_of(st, es[i]));
        lemma_others_stay(st, es, i + 1, m1, v.wrapping_add(1), key);
    }
}

/// The constants that are known before the `k`-th enumerator, and the value that it
/// would have if it stated none.
spec fn reached(
    st: State,
    es: Seq<Enumerator>,
    i: int,
    m: Map<Seq<char>, i128>,
    next: i128,
    k: int,
) -> (Map<Seq<char>, i128>, i128)
    decreases k - i,
{
    if i >= k || i < 0 || i >= es.len() {
        (m, next)
    } else {
        let v = stated_or_next(st, m, es[i], next);
        let m1 = if es[i].name.0 < st.names.len() {
            m.insert(st.names[es[i].name.0 as int], v)
        } else {
            m
        };
        reached(st, es, i + 1, m1, v.wrapping_add(1), k)
    }
}

proof fn lemma_reached_prefix(
    st: State,
    es: Seq<Enumerator>,
    i: int,
    m: Map<Seq<char>, i128>,
    next: i128,
    k: int,
)
    requires
        0 <= i <= k <= es.len(),
    ensures
        reached(st, es, i, m, next, k).0 == numbered(st, es.take(k), i, m, next),
    decreases k - i,
{
    if i < k {
        let v = stated_or_next(st, m, es[i], next);
        let m1 = if es[i].name.0 < st.names.len() {
            m.insert(st.names[es[i].name.0 as int], v)
        } else {
            m
        };
        assert(es.take(k)[i] == es[i]);
        lemma_reached_prefix(st, es, i + 1, m1, v.wrapping_add(1), k);
    }
}

proof fn lemma_reached_next(
    st: State,
    es: Seq<Enumerator>,
    i: int,
    m: Map<Seq<char>, i128>,
    next: i128,
    k: int,
)
    requires
        0 <= i < k <= es.len(),
    ensures
        ({
            let before = reached(st, es, i, m, next, k - 1);
            reached(st, es, i, m, next, k).1 == stated_or_next(
                st,
                before.0,
                es[k - 1],
                before.1,
            ).wrapping_add(1)
        }),
    decreases k - i,
{
    let v = stated_or_next(st, m, es[i], next);
    let m1 = if es[i].name.0 < st.names.len() {
        m.insert(st.names[es[i].name.0 as int], v)
    } else {
        m
    };
    if i + 1 < k {
        lemma_reached_next(st, es, i + 1, m1, v.wrapping_add(1), k);
    } else {
        assert(reached(st, es, i + 1, m1, v.wrapping_add(1), k).1 == v.wrapping_add(1));
    }
}

proof fn lemma_reached_value(
    st: State,
    es: Seq<Enumerator>,
    i: int,
    m: Map<Seq<char>, i128>,
    next: i128,
    k: int,
)
    requires
        0 <= i <= k < es.len(),
        names_differ(st, es),
    ensures
        ({
            let at = reached(st, es, i, m, next, k);
            let r = numbered(st, es, i, m, next);
            &&& r.contains_key(name_of(st, es[k]))
            &&& r[name_of(st, es[k])] == stated_or_next(st, at.0, es[k], at.1)
        }),
    decreases k - i,
{
    let v = stated_or_next(st, m, es[i], next);
    assert(es[i].name.0 < st.names.len());
    let m1 = m.insert(st.names[es[i].name.0 as int], v);
    if i < k {
        lemma_reached_value(st, es, i + 1, m1, v.wrapping_add(1), k);
    } else {
        assert forall|j: int| i + 1 <= j < es.len() implies name_of(st, es[i]) != name_of(
            st,
            #[trigger] es[j],
        ) by {}
        lemma_others_stay(st, es, i + 1, m1, v.wrapping_add(1), name_of(st, es[i]));
    }
}

proof fn lemma_value_in_map(
    st: State,
    es: Seq<Enumerator>,
    i: int,
    m: Map<Seq<char>, i128>,
    next: i128,
    k: int,
)
    requires
        0 <= i <= k < es.len(),
        names_differ(st, es),
    ensures
        ({
            let r = numbered(st, es, i, m, next);
            let before = numbered(st, es.take(k), i, m, next);
            let otherwise = if k == i {
                next
            } else {
                r[name_of(st, es[k - 1])].wrapping_add(1)
            };
            &&& r.contains_key(name_of(st, es[k]))
            &&& r[name_of(st, es[k])] == stated_or_next(st, before, es[k], otherwise)
        }),
{
    lemma_reached_value(st, es, i, m, next, k);
    lemma_reached_prefix(st, es, i, m, next, k);
    if k > i {
        lemma_reached_next(st, es, i, m, next, k);
        lemma_reached_value(st, es, i, m, next, k - 1);
    }
}

/// The values that the type of an enum is chosen for follow each other as the
/// constants do: the first is zero, each other is one more than the one before it, and
/// one that is stated is what was stated.
pub proof fn lemma_values_follow_each_other(
    st: State,
    enums: Map<Seq<char>, i128>,
    es: Seq<Enumerator>,
    k: int,
)
    requires
        0 <= k < es.len(),
    ensures
        ({
            let vs = values(st, enums, es, 0, 0);
            let unstated = es[k].value is None || const_int(st, enums, *es[k].value->0) is None;
            &&& vs.len() == es.len()
            &&& unstated && k == 0 ==> vs[k] == 0
            &&& unstated && k > 0 && vs[k - 1] < i128::MAX ==> vs[k] == vs[k - 1] + 1
            &&& !unstated ==> Some(vs[k]) == const_int(st, enums, *es[k].value->0)
        }),
{
    lemma_values_from(st, enums, es, 0, 0, k);
    if k > 0 {
        lemma_values_from(st, enums, es, 0, 0, k - 1);
    }
}

proof fn lemma_values_from(
    st: State,
    enums: Map<Seq<char>, i128>,
    es: Seq<Enumerator>,
    i: int,
    next: i128,
    k: int,
)
    requires
        0 <= i <= k < es.len(),
    ensures
        ({
            let vs = values(st, enums, es, i, next);
            let otherwise = if k == i {
                next
            } else {
                vs[k - i - 1].wrapping_add(1)
            };
            &&& vs.len() == es.len() - i
            &&& vs[k - i] == stated_or_next(st, enums, es[k], otherwise)
        }),
    decreases k - i,
{
    let v = stated_or_next(st, enums, es[i], next);
    let rest = values(st, enums, es, i + 1, v.wrapping_add(1));
    let vs = values(st, enums, es, i, next);
    assert(vs == seq![v] + rest);
    lemma_values_len(st, enums, es, i + 1, v.wrapping_add(1));
    if i < k {
        lemma_values_from(st, enums, es, i + 1, v.wrapping_add(1), k);
        assert(vs[k - i] == rest[k - i - 1]);
        if i + 1 < k {
            assert(vs[k - i - 1] == rest[k - i - 2]);
        }
    }
}

proof fn lemma_values_len(
    st: State,
    enums: Map<Seq<char>, i128>,
    es: Seq<Enumerator>,
    i: int,
    next: i128,
)
    requires
        0 <= i <= es.len(),
    ensures
        values(st, enums, es, i, next).len() == es.len() - i,
    decreases es.len() - i,
{
    if i < es.len() {
        let v = stated_or_next(st, enums, es[i], next);
        lemma_values_len(st, enums, es, i + 1, v.wrapping_add(1));
    }
}

/// Whether an expression holds only literals, known names, casts, signs, `~`, binary
/// operations and conditionals.
pub open spec fn is_ordinary(st: State, e: Expression) -> bool
    decreases e,
{
    match e {
        Expression::IntegerLiteral { .. } => true,
        Expression::Identifier { name, .. } => name.0 < st.names.len(),
        Expression::Parenthesized { inner, .. } => is_ordinary(st, *inner),
        Expression::Cast { operand, .. } => is_ordinary(st, *operand),
        Expression::UnaryOp { op, operand, .. } => (op == UnaryOp::Negate || op == UnaryOp::Plus
            || op == UnaryOp::BitwiseNot) && is_ordinary(st, *operand),
        Expression::Binary { left, right, .. } => is_ordinary(st, *left) && is_ordinary(
            st,
            *right,
        ),
        Expression::Conditional { condition, then_expr, else_expr, .. } => is_ordinary(
            st,
            *condition,
        ) && is_ordinary(st, *else_expr) && (match then_expr {
            Some(t) => is_ordinary(st, *t),
            None => true,
        }),
        _ => false,
    }
}

/// Lowering and semantic analysis find the same value of an ordinary constant
/// expression.
pub proof fn lemma_evaluators_agree(st: State, enums: Map<Seq<char>, i128>, e: Expression)
    requires
        is_ordinary(st, e),
    ensures
        const_int(st, enums, e) == enumerator_value(e, enums, st.names),
    decreases e,
{
    match e {
        Expression::Parenthesized { inner, .. } => lemma_evaluators_agree(st, enums, *inner),
        Expression::Cast { operand, .. } => lemma_evaluators_agree(st, enums, *operand),
        Expression::UnaryOp { operand, .. } => lemma_evaluators_agree(st, enums, *operand),
        Expression::Binary { left, right, .. } => {
            lemma_evaluators_agree(st, enums, *left);
            lemma_evaluators_agree(st, enums, *right);
        },
        Expression::Conditional { condition, then_expr, else_expr, .. } => {
            lemma_evaluators_agree(st, enums, *condition);
            lemma_evaluators_agree(st, enums, *else_expr);
            match then_expr {
                Some(t) => lemma_evaluators_agree(st, enums, *t),
                None => {},
            }
        },
        _ => {},
    }
}

/// Where all stated values are ordinary constant expressions, the constants that
/// lowering collects from an enum are those that semantic analysis records for it.
pub proof fn lemma_lowering_agrees_with_analysis(st: State, es: Seq<Enumerator>)
    requires
        forall|j: int| 0 <= j < es.len() ==> (#[trigger] es[j]).name.0 < st.names.len(),
        forall|j: int|
            0 <= j < es.len() ==> ((#[trigger] es[j]).value matches Some(x) ==> is_ordinary(
                st,
                *x,
            )),
    ensures
        numbered(st, es, 0, st.enums, 0) == enumerators_declared(st, es, 0, empty_range()).0.enums,
{
    lemma_agreement_from(st, st, es, 0, empty_range());
}

proof fn lemma_agreement_from(st: State, now: State, es: Seq<Enumerator>, i: int, r: EnumRange)
    requires
        0 <= i <= es.len(),
        now.names == st.names,
        forall|j: int| 0 <= j < es.len() ==> (#[trigger] es[j]).name.0 < st.names.len(),
        forall|j: int|
            0 <= j < es.len() ==> ((#[trigger] es[j]).value matches Some(x) ==> is_ordinary(
                st,
                *x,
            )),
    ensures
        numbered(st, es, i, now.enums, r.next) == enumerators_declared(now, es, i, r).0.enums,
    decreases es.len() - i,
{
    if i < es.len() {
        match es[i].value {
            Some(x) => lemma_evaluators_agree(st, now.enums, *x),
            None => {},
        }
        let v = value_of(now, es[i], r.next);
        assert(es[i].name.0 < st.names.len());
        lemma_agreement_from(st, constant_declared(now, es[i], v), es, i + 1, range_with(r, v));
    }
}

/// After semantic analysis has declared the enumerators of an enum, the first is
/// zero and each other is one more than the one before it, unless it states a literal,
/// which it then is.
pub proof fn lemma_analyzed_enumerators_follow_each_other(st: State, es: Seq<Enumerator>, k: int)
    requires
        names_differ(st, es),
        0 <= k < es.len(),
        forall|j: int|
            0 <= j < es.len() ==> ((#[trigger] es[j]).value matches Some(x) ==> is_ordinary(
                st,
                *x,
            )),
    ensures
        ({
            let r = enumerators_declared(st, es, 0, empty_range()).0.enums;
            let v = r[name_of(st, es[k])];
            &&& r.contains_key(name_of(st, es[k]))
            &&& es[k].value is None && k == 0 ==> v == 0
            &&& es[k].value is None && k > 0 && r[name_of(st, es[k - 1])] < i128::MAX ==> v
                == r[name_of(st, es[k - 1])] + 1
            &&& es[k].value matches Some(x) ==> (*x is IntegerLiteral
                && x->IntegerLiteral_value <= i128::MAX ==> v == x->IntegerLiteral_value)
        }),
{
    lemma_lowering_agrees_with_analysis(st, es);
    lemma_value_in_map(st, es, 0, st.enums, 0, k);
    if k > 0 {
        lemma_value_in_map(st, es, 0, st.enums, 0, k - 1);
    }
}

/// Constants are collected from the declarations of a unit one after the other:
/// those of a longer unit are what its second part adds to its first.
pub proof fn lemma_units_are_collected_in_order(
    st: State,
    a: Seq<ExternalDeclaration>,
    b: Seq<ExternalDeclaration>,
    i: int,
    m: Map<Seq<char>, i128>,
)
    requires
        0 <= i <= a.len(),
    ensures
        unit_constants(st, a + b, i, m) == unit_constants(st, b, 0, unit_constants(st, a, i, m)),
    decreases a.len() - i,
{
    if i < a.len() {
        assert((a + b)[i] == a[i]);
        lemma_units_are_collected_in_order(
            st,
            a,
            b,
            i + 1,
            with_external_constants(st, a[i], m),
        );
    } else {
        lemma_unit_suffix(st, a, b, 0, m);
    }
}

proof fn lemma_unit_suffix(
    st: State,
    a: Seq<ExternalDeclaration>,
    b: Seq<ExternalDeclaration>,
    j: int,
    m: Map<Seq<char>, i128>,
)
    requires
        0 <= j <= b.len(),
    ensures
        unit_constants(st, a + b, a.len() + j, m) == unit_constants(st, b, j, m),
    decreases b.len() - j,
{
    if j < b.len() {
        assert((a + b)[a.len() + j] == b[j]);
        lemma_unit_suffix(
            st,
            a,
            b,
            j + 1,
            with_external_constants(st, b[j], m),
        );
    }
}

/// An enum adds its constants wherever it is defined: among the specifiers of a
/// declaration, or of a member of a struct or union.
pub proof fn lemma_enum_is_collected_where_it_stands(
    st: State,
    e: EnumSpecifier,
    s: StructOrUnionSpecifier,
    specs: Seq<TypeSpecifier>,
    m: Map<Seq<char>, i128>,
)
    requires
        specs == seq![TypeSpecifier::Enum(e)],
        s.members is Some,
        s.members->0@.len() == 1,
        s.members->0@[0].specifiers.type_specifiers@ == specs,
    ensures
        with_specifiers(st, specs, 0, m) == with_enum(st, e, m),
        with_aggregate(st, s, m) == with_enum(st, e, m),
{
    let ms = s.members->0@;
    let r = with_enum(st, e, m);
    assert(specs[0] == TypeSpecifier::Enum(e));
    assert(with_specifiers(st, specs, 1, r) == r);
    assert(with_specifiers(st, specs, 0, m) == r);
    assert(with_members(st, ms, 1, r) == r);
    assert(with_members(st, ms, 0, m) == r);
}

/// What a statement defines is collected from wherever the statement stands: in a loop, in
/// a branch, in a switch or behind a label.
pub proof fn lemma_statements_are_looked_into(
    st: State,
    s: Statement,
    body: Statement,
    m: Map<Seq<char>, i128>,
    defs: Seq<(Seq<char>, Ty)>,
)
    requires
        ({
            ||| s matches Statement::While { body: b, .. } && *b == body
            ||| s matches Statement::DoWhile { body: b, .. } && *b == body
            ||| s matches Statement::Switch { body: b, .. } && *b == body
            ||| s matches Statement::Labeled { statement: b, .. } && *b == body
            ||| s matches Statement::Case { statement: b, .. } && *b == body
            ||| s matches Statement::Default { statement: b, .. } && *b == body
            ||| s matches Statement::For { init, body: b, .. } && *b == body && init is None
            ||| s matches Statement::If { then_branch: b, else_branch, .. } && *b == body
                && else_branch is None
        }),
    ensures
        with_statement(st, s, m) == with_statement(st, body, m),
        with_statement_definitions(st, s, defs) == with_statement_definitions(st, body, defs),
{
}

/// Both branches of an `if` are looked into, the first one first, and so are the first clause
/// and the body of a `for`.
pub proof fn lemma_both_parts_are_looked_into(st: State, s: Statement, m: Map<Seq<char>, i128>)
    ensures
        s matches Statement::If { then_branch, else_branch, .. } ==> (else_branch matches Some(x)
            ==> with_statement(st, s, m) == with_statement(
            st,
            *x,
            with_statement(st, *then_branch, m),
        )),
        s matches Statement::For { init, body, .. } ==> (init matches Some(
            ForInit::Declaration(d),
        ) ==> with_statement(st, s, m) == with_statement(
            st,
            *body,
            with_specifiers(st, d.specifiers.type_specifiers@, 0, m),
        )),
{
}

/// The constants of a block are those of its items one after the other, and those of a
/// function are those of its specifiers and its body.
pub proof fn lemma_blocks_are_looked_into(
    st: State,
    a: Seq<BlockItem>,
    b: Seq<BlockItem>,
    i: int,
    m: Map<Seq<char>, i128>,
)
    requires
        0 <= i <= a.len(),
    ensures
        with_block(st, a + b, i, m) == with_block(st, b, 0, with_block(st, a, i, m)),
    decreases a.len() - i,
{
    if i < a.len() {
        assert((a + b)[i] == a[i]);
        let m1 = match a[i] {
            BlockItem::Declaration(d) => with_specifiers(
                st,
                d.specifiers.type_specifiers@,
                0,
                m,
            ),
            BlockItem::Statement(s) => with_statement(st, s, m),
        };
        lemma_blocks_are_looked_into(st, a, b, i + 1, m1);
    } else {
        lemma_block_suffix(st, a, b, 0, m);
    }
}

proof fn lemma_block_suffix(
    st: State,
    a: Seq<BlockItem>,
    b: Seq<BlockItem>,
    j: int,
    m: Map<Seq<char>, i128>,
)
    requires
        0 <= j <= b.len(),
    ensures
        with_block(st, a + b, a.len() + j, m) == with_block(st, b, j, m),
    decreases b.len() - j,
{
    if j < b.len() {
        assert((a + b)[a.len() + j] == b[j]);
        let m1 = match b[j] {
            BlockItem::Declaration(d) => with_specifiers(
                st,
                d.specifiers.type_specifiers@,
                0,
                m,
            ),
            BlockItem::Statement(s) => with_statement(st, s, m),
        };
        lemma_block_suffix(st, a, b, j + 1, m1);
    }
}

/// A declaration at file scope gives the constants of its specifiers, a function those of its
/// specifiers and then those of its body, and nothing else gives any.
pub proof fn lemma_external_declarations_are_looked_into(
    st: State,
    d: ExternalDeclaration,
    m: Map<Seq<char>, i128>,
)
    ensures
        d matches ExternalDeclaration::Declaration(x) ==> with_external_constants(st, d, m)
            == with_specifiers(st, x.specifiers.type_specifiers@, 0, m),
        d matches ExternalDeclaration::FunctionDefinition(f) ==> with_external_constants(st, d, m)
            == with_block(
            st,
            f.body.items@,
            0,
            with_specifiers(st, f.specifiers.type_specifiers@, 0, m),
        ),
        d is AsmStatement || d is Empty ==> with_external_constants(st, d, m) == m,
{
}

} // verus!
