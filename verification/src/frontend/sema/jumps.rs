//! What is reported of statements: jumps that lead nowhere, labels of a switch, and
//! values that do not fit their place.

use crate::common::diagnostics::{error_at, DiagnosticModel, Severity, Span};
use crate::common::string_interner::Symbol;
use crate::common::types::{lemma_stripping_is_idempotent, stripped, Ty, TypeQualifiers};
use crate::frontend::parser::ast::{Expression, Statement};
use crate::frontend::sema::analysis::{
    assigned, bare_return, branch_checked, case_seen, goto_checked, loop_body, return_checked,
    statement, switch_body, switch_checked,
};
use crate::frontend::sema::scope::{
    label_defined, label_definition_log, label_home, label_index, label_or_fresh, label_put,
    label_referenced, labels_checked, LabelEntry, ScopeModel,
};
use crate::frontend::sema::state::State;
use crate::frontend::sema::typing::is_integer;
use vstd::prelude::*;

verus! {

/// Whether an error was reported between two states, and nothing else has changed.
pub open spec fn reports(before: State, after: State) -> bool {
    &&& after.log.len() == before.log.len() + 1
    &&& after.log.drop_last() == before.log
    &&& after.log.last().severity == Severity::Error
    &&& after == (State { log: after.log, ..before })
}

/// A `break` is an error exactly where it stands in neither a loop nor a switch, and a
/// `continue` exactly where it stands in no loop. Elsewhere they change nothing.
pub proof fn lemma_jump_needs_something_to_leave(st: State, span: Span)
    requires
        st.depth < st.max_depth,
    ensures
        ({
            let b = statement(st, Statement::Break { span });
            &&& b.1
            &&& st.in_loop || st.in_switch ==> b.0 == st
            &&& !st.in_loop && !st.in_switch ==> reports(st, b.0)
        }),
        ({
            let c = statement(st, Statement::Continue { span });
            &&& c.1
            &&& st.in_loop ==> c.0 == st
            &&& !st.in_loop ==> reports(st, c.0)
        }),
{
    let b = statement(st, Statement::Break { span }).0;
    let c = statement(st, Statement::Continue { span }).0;
    if !st.in_loop && !st.in_switch {
        assert(b.log.drop_last() =~= st.log);
    }
    if !st.in_loop {
        assert(c.log.drop_last() =~= st.log);
    }
}

/// In the body of a loop both can stand, whatever surrounds it; in the body of a
/// switch `break` can, and `continue` where a loop surrounds the switch.
pub proof fn lemma_bodies_can_be_left(st: State, span: Span)
    requires
        st.depth < st.max_depth,
    ensures
        loop_body(st, Statement::Break { span }) == (st, true),
        loop_body(st, Statement::Continue { span }) == (st, true),
        switch_body(st, Statement::Break { span }) == (st, true),
        st.in_loop ==> switch_body(st, Statement::Continue { span }) == (st, true),
        !st.in_loop ==> switch_body(st, Statement::Continue { span }).0.log.len() == st.log.len()
            + 1,
{
    let inside = State { in_loop: true, ..st };
    lemma_jump_needs_something_to_leave(inside, span);
    let chosen = State { in_switch: true, cases: Map::empty(), has_default: false, ..st };
    lemma_jump_needs_something_to_leave(chosen, span);
}

/// A second `case` of the same value in one switch is an error; one of another value
/// is not. Each switch has labels of its own.
pub proof fn lemma_cases_differ(st: State, a: Expression, b: Expression, span: Span)
    requires
        a is IntegerLiteral,
        b is IntegerLiteral,
        a->IntegerLiteral_value <= i128::MAX,
        b->IntegerLiteral_value <= i128::MAX,
        !st.cases.contains_key(a->IntegerLiteral_value as i128),
        !st.cases.contains_key(b->IntegerLiteral_value as i128),
    ensures
        case_seen(st, a, span).log == st.log,
        a->IntegerLiteral_value == b->IntegerLiteral_value ==> reports(
            case_seen(st, a, span),
            case_seen(case_seen(st, a, span), b, span),
        ),
        a->IntegerLiteral_value != b->IntegerLiteral_value ==> case_seen(
            case_seen(st, a, span),
            b,
            span,
        ).log == st.log,
{
    reveal(case_seen);
    let one = case_seen(st, a, span);
    let two = case_seen(one, b, span);
    if a->IntegerLiteral_value == b->IntegerLiteral_value {
        assert(two.log.drop_last() =~= one.log);
    }
}

/// A `case` outside a switch is an error.
pub proof fn lemma_case_needs_a_switch(st: State, s: Statement, value: Expression, span: Span)
    requires
        st.depth + 1 < st.max_depth,
        s matches Statement::Case { value: v, statement, span: at } && *statement
            == Statement::Expression(None) && *v == value && at == span,
        value is IntegerLiteral,
        !st.cases.contains_key(value->IntegerLiteral_value as i128),
    ensures
        st.in_switch ==> statement(st, s).0.log == st.log,
        !st.in_switch ==> statement(st, s).0.log.len() == st.log.len() + 1,
{
    reveal(case_seen);
    let s1 = st.deeper().error_if(
        !st.in_switch,
        span,
        "'case' label not within a switch statement"@,
    );
    let s2 = case_seen(s1, value, span);
    assert(s2.log == s1.log);
    assert(statement(s2, Statement::Expression(None)).0.log == s2.log);
}

/// A `default` outside a switch is an error; inside a switch the first one is none, and
/// a second one is.
pub proof fn lemma_default_needs_a_switch(st: State, s: Statement, inner: Statement, span: Span)
    requires
        st.depth + 1 < st.max_depth,
        inner == Statement::Expression(None),
        s matches Statement::Default { statement, span: at } && *statement == inner && at == span,
    ensures
        ({
            let r = statement(st, s).0;
            &&& r.has_default
            &&& st.in_switch && !st.has_default ==> r.log == st.log
            &&& st.in_switch && st.has_default ==> r.log.len() == st.log.len() + 1
            &&& !st.in_switch && !st.has_default ==> r.log.len() == st.log.len() + 1
        }),
{
    let s1 = st.deeper().error_if(
        !st.in_switch,
        span,
        "'default' label not within a switch statement"@,
    );
    let s2 = s1.error_if(s1.has_default, span, "multiple default labels in one switch"@);
    let s3 = State { has_default: true, ..s2 };
    assert(statement(s3, inner).0.log == s3.log);
    assert(statement(s3, inner).0.has_default);
}

/// A condition must be something that is zero or not: it is an error exactly where
/// its type is a struct, a union, `void` or atomic. What a switch looks at must be an
/// integer, and what a computed `goto` jumps to a pointer.
pub proof fn lemma_conditions_are_checked(st: State, t: Ty, span: Span, message: Seq<char>)
    ensures
        ({
            let s = stripped(t);
            let wrong = s is Void || s is Struct || s is Union || s is Atomic;
            &&& wrong ==> reports(st, branch_checked(st, t, span, message))
            &&& !wrong ==> branch_checked(st, t, span, message) == st
        }),
        !is_integer(t) ==> reports(st, switch_checked(st, t, span)),
        is_integer(t) ==> switch_checked(st, t, span) == st,
        !(stripped(t) is Pointer) ==> reports(st, goto_checked(st, t, span)),
        stripped(t) is Pointer ==> goto_checked(st, t, span) == st,
{
    reveal(branch_checked);
    reveal(switch_checked);
    reveal(goto_checked);
    lemma_stripping_is_idempotent(t);
    let a = branch_checked(st, t, span, message);
    let b = switch_checked(st, t, span);
    let c = goto_checked(st, t, span);
    assert(a != st ==> a.log.drop_last() =~= st.log);
    assert(b != st ==> b.log.drop_last() =~= st.log);
    assert(c != st ==> c.log.drop_last() =~= st.log);
}

/// An assignment to something of a `const` type is an error, and to anything else
/// it is not.
pub proof fn lemma_constants_are_not_assigned(st: State, t: Ty, q: TypeQualifiers, span: Span)
    ensures
        q.is_const ==> reports(st, assigned(st, Ty::Qualified(Box::new(t), q), span)),
        !q.is_const ==> assigned(st, Ty::Qualified(Box::new(t), q), span) == st,
        !(t is Qualified) ==> assigned(st, t, span) == st,
{
    reveal(assigned);
    let a = assigned(st, Ty::Qualified(Box::new(t), q), span);
    assert(a != st ==> a.log.drop_last() =~= st.log);
}

/// A value that is returned is an error exactly in a `void` function, unless it is
/// itself `void`. To return nothing is worth a warning exactly where a value is due.
pub proof fn lemma_returns_are_checked(st: State, t: Ty, span: Span)
    ensures
        st.return_type == Some(Ty::Void) && !(t is Void) ==> reports(
            st,
            return_checked(st, t, span),
        ),
        st.return_type != Some(Ty::Void) || t is Void ==> return_checked(st, t, span) == st,
        st.return_type is None || st.return_type == Some(Ty::Void) ==> bare_return(st, span) == st,
        st.return_type is Some && !(st.return_type->0 is Void) ==> bare_return(st, span).log.len()
            == st.log.len() + 1 && bare_return(st, span).log.last().severity == Severity::Warning,
{
    reveal(return_checked);
    reveal(bare_return);
    let a = return_checked(st, t, span);
    assert(a != st ==> a.log.drop_last() =~= st.log);
}

/// Whether a label is used and nowhere defined.
pub open spec fn is_missing(l: LabelEntry) -> bool {
    l.is_referenced && !l.is_defined
}

/// At the end of a function one error is reported for each label that is used and not
/// defined, and none for any other.
pub proof fn lemma_missing_labels_are_reported(log: Seq<DiagnosticModel>, labels: Seq<LabelEntry>)
    ensures
        labels_checked(log, labels, 0).len() == log.len() + labels.filter(
            |l: LabelEntry| is_missing(l),
        ).len(),
{
    lemma_missing_from(log, labels, 0);
    assert(labels.skip(0) =~= labels);
}

proof fn lemma_missing_from(log: Seq<DiagnosticModel>, labels: Seq<LabelEntry>, i: int)
    requires
        0 <= i <= labels.len(),
    ensures
        labels_checked(log, labels, i).len() == log.len() + labels.skip(i).filter(
            |l: LabelEntry| is_missing(l),
        ).len(),
    decreases labels.len() - i,
{
    let pred = |l: LabelEntry| is_missing(l);
    if i < labels.len() {
        let next = if labels[i].is_referenced && !labels[i].is_defined {
            log.push(error_at(labels[i].span, "use of undefined label"@))
        } else {
            log
        };
        lemma_missing_from(next, labels, i + 1);
        let one = seq![labels[i]];
        assert(labels.skip(i) =~= one + labels.skip(i + 1));
        Seq::filter_distributes_over_add(one, labels.skip(i + 1), pred);
        reveal_with_fuel(Seq::<LabelEntry>::filter, 2);
        assert(one.drop_last() =~= Seq::<LabelEntry>::empty());
        assert(one.filter(pred).len() == if is_missing(labels[i]) {
            1nat
        } else {
            0
        });
    } else {
        reveal(Seq::filter);
        assert(labels.skip(i).len() == 0);
    }
}

/// A label that was defined is known as defined in its scope: to define it again is an
/// error, and a jump to it finds it.
pub proof fn lemma_label_is_defined_once(
    scopes: Seq<ScopeModel>,
    name: Symbol,
    span: Span,
    log: Seq<DiagnosticModel>,
)
    requires
        scopes.len() > 0,
    ensures
        label_definition_log(log, label_defined(scopes, name, span), name, span).len() == log.len()
            + 1,
        ({
            let after = label_referenced(label_defined(scopes, name, span), name, span);
            let h = label_home(scopes, scopes.len() as int, name);
            let entry = label_or_fresh(after[h].labels, name, span);
            entry.is_defined && entry.is_referenced
        }),
{
    let h = label_home(scopes, scopes.len() as int, name);
    lemma_home_is_a_scope(scopes, scopes.len() as int, name);
    let entry = label_or_fresh(scopes[h].labels, name, span);
    let put = label_put(scopes[h].labels, LabelEntry { is_defined: true, span, ..entry });
    lemma_index_names(scopes[h].labels, scopes[h].labels.len() as int, name);
    lemma_put_is_found(scopes[h].labels, LabelEntry { is_defined: true, span, ..entry });
    let after = label_defined(scopes, name, span);
    assert(after[h].labels == put);
    lemma_home_stays(scopes, after, h, scopes.len() as int, name);
    let again = LabelEntry { is_referenced: true, ..label_or_fresh(put, name, span) };
    lemma_index_names(put, put.len() as int, name);
    lemma_put_is_found(put, again);
}

proof fn lemma_home_is_a_scope(scopes: Seq<ScopeModel>, n: int, name: Symbol)
    requires
        0 < n <= scopes.len(),
    ensures
        0 <= label_home(scopes, n, name) < n,
    decreases n,
{
    if n > 1 {
        lemma_home_is_a_scope(scopes, n - 1, name);
    }
}

proof fn lemma_index_names(labels: Seq<LabelEntry>, n: int, name: Symbol)
    requires
        0 <= n <= labels.len(),
    ensures
        label_index(labels, n, name) matches Some(i) ==> 0 <= i < n && labels[i].name == name,
    decreases n,
{
    if n > 0 {
        lemma_index_names(labels, n - 1, name);
    }
}

proof fn lemma_put_is_found(labels: Seq<LabelEntry>, entry: LabelEntry)
    ensures
        ({
            let put = label_put(labels, entry);
            let i = label_index(put, put.len() as int, entry.name);
            i is Some && put[i->0] == entry
        }),
{
    let put = label_put(labels, entry);
    match label_index(labels, labels.len() as int, entry.name) {
        Some(i) => {
            lemma_index_names(labels, labels.len() as int, entry.name);
            lemma_same_index(labels, put, labels.len() as int, entry.name);
        },
        None => {},
    }
}

proof fn lemma_same_index(a: Seq<LabelEntry>, b: Seq<LabelEntry>, n: int, name: Symbol)
    requires
        a.len() == b.len(),
        0 <= n <= a.len(),
        forall|j: int| 0 <= j < a.len() ==> (#[trigger] a[j]).name == b[j].name,
    ensures
        label_index(a, n, name) == label_index(b, n, name),
    decreases n,
{
    if n > 0 {
        assert(a[n - 1].name == b[n - 1].name);
        lemma_same_index(a, b, n - 1, name);
    }
}

proof fn lemma_home_stays(
    scopes: Seq<ScopeModel>,
    after: Seq<ScopeModel>,
    h: int,
    n: int,
    name: Symbol,
)
    requires
        0 < n <= scopes.len(),
        after.len() == scopes.len(),
        h == label_home(scopes, n, name),
        forall|j: int| 0 <= j < scopes.len() && j != h ==> after[j] == #[trigger] scopes[j],
        0 <= h < scopes.len(),
        after[h].kind == scopes[h].kind,
        label_index(after[h].labels, after[h].labels.len() as int, name) is Some,
    ensures
        label_home(after, n, name) == h,
    decreases n,
{
    if n > 1 {
        lemma_home_is_a_scope(scopes, n - 1, name);
        if n - 1 != h {
            assert(after[n - 1] == scopes[n - 1]);
            lemma_home_stays(scopes, after, h, n - 1, name);
        }
    }
}

} // verus!
