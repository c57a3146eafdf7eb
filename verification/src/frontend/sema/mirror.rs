//! Declarations mirror use: what a declarator does to a name is undone by using the
//! name as the declarator shows it.

use crate::common::types::{Field, Ty};
use crate::frontend::parser::ast::{
    AbstractDeclarator, Declarator, DirectAbstractDeclarator, DirectDeclarator, Expression,
    ParameterDeclaration, Pointer, StructDeclarator, StructMember, TypeName, TypeQualifier,
};
use crate::frontend::sema::resolve::{
    abstract_type, array_length, declarator_type, declared_field, declared_fields,
    direct_abstract_type, direct_type, member_fields, members_fields, named_type, parameter_type,
    parameter_types, specified_type,
};
use crate::frontend::sema::specifiers::{
    behind_pointer, behind_pointers, direct_name, quals_of,
};
use crate::frontend::sema::state::State;
use vstd::prelude::*;

verus! {

/// What one `*` with the given qualifiers leads to.
pub open spec fn dereferenced(t: Ty, quals: Seq<TypeQualifier>) -> Option<Ty> {
    match t {
        Ty::Pointer(inner, q) => if q.is_const == quals.contains(TypeQualifier::Const)
            && q.is_volatile == quals.contains(TypeQualifier::Volatile) && q.is_restrict
            == quals.contains(TypeQualifier::Restrict) && q.is_atomic == quals.contains(
            TypeQualifier::Atomic,
        ) {
            Some(*inner)
        } else {
            None
        },
        _ => None,
    }
}

/// What the `*` of a declarator lead to, the last one first.
pub open spec fn unpointed(t: Ty, p: Pointer) -> Option<Ty>
    decreases p,
{
    match p.inner {
        Some(inner) => match unpointed(t, *inner) {
            Some(u) => dereferenced(u, p.qualifiers@),
            None => None,
        },
        None => dereferenced(t, p.qualifiers@),
    }
}

/// What the `*` of a declarator lead to, if it has any.
pub open spec fn all_unpointed(t: Ty, p: Option<Pointer>) -> Option<Ty> {
    match p {
        Some(x) => unpointed(t, x),
        None => Some(t),
    }
}

/// Whether the length of an array is the one that a declarator states: a literal as
/// it stands, none where there is none.
pub open spec fn is_length(st: State, size: Option<Box<Expression>>, n: Option<usize>) -> bool {
    match size {
        None => n is None,
        Some(e) => *e is IntegerLiteral && e->IntegerLiteral_value <= usize::MAX ==> n == Some(
            e->IntegerLiteral_value as usize,
        ),
    }
}

/// What an element of an array is whose length a declarator states.
pub open spec fn indexed(st: State, t: Option<Ty>, size: Option<Box<Expression>>) -> Option<Ty> {
    match t {
        Some(Ty::Array(elem, n)) => if is_length(st, size, n) {
            Some(*elem)
        } else {
            None
        },
        _ => None,
    }
}

/// Whether each parameter of a function has the type of its declaration.
pub open spec fn are_parameters(
    st: State,
    params: Seq<ParameterDeclaration>,
    ts: Seq<Ty>,
) -> bool {
    &&& ts.len() == params.len()
    &&& forall|i: int|
        0 <= i < params.len() ==> #[trigger] ts[i] == parameter_type(st, params[i])
}

/// What a function returns whose parameters a declarator lists.
pub open spec fn called(
    st: State,
    t: Option<Ty>,
    ps: Seq<ParameterDeclaration>,
    more: bool,
) -> Option<Ty> {
    match t {
        Some(Ty::Function { return_type, params, variadic }) => if variadic == more
            && are_parameters(st, ps, params) {
            Some(*return_type)
        } else {
            None
        },
        _ => None,
    }
}

/// What a name of type `t` gives when it is used as the declarator shows it.
pub open spec fn used(st: State, t: Ty, d: Declarator) -> Option<Ty>
    decreases d, 1int,
{
    match used_directly(st, t, d.direct) {
        Some(u) => all_unpointed(u, d.pointer),
        None => None,
    }
}

/// The same for what follows the `*` of a declarator.
pub open spec fn used_directly(st: State, t: Ty, d: DirectDeclarator) -> Option<Ty>
    decreases d, 0int,
{
    match d {
        DirectDeclarator::Identifier(_, _) => Some(t),
        DirectDeclarator::Parenthesized(inner) => used(st, t, *inner),
        DirectDeclarator::Array { base, size, .. } => indexed(
            st,
            used_directly(st, t, *base),
            size,
        ),
        DirectDeclarator::Function { base, params, is_variadic, .. } => called(
            st,
            used_directly(st, t, *base),
            params@,
            is_variadic,
        ),
    }
}

/// Whether a declarator declares no function that returns an array or a function,
/// and no array of functions.
pub open spec fn is_proper(d: Declarator) -> bool
    decreases d, 1int,
{
    is_properly_direct(d.direct)
}

/// The same for what follows the `*` of a declarator.
pub open spec fn is_properly_direct(d: DirectDeclarator) -> bool
    decreases d, 0int,
{
    match d {
        DirectDeclarator::Identifier(_, _) => true,
        DirectDeclarator::Parenthesized(inner) => is_proper(*inner),
        DirectDeclarator::Array { base, .. } => is_properly_direct(*base),
        DirectDeclarator::Function { base, .. } => (*base is Identifier || *base is Parenthesized)
            && is_properly_direct(*base),
    }
}

/// A name of the type that a declarator gives it, used as the declarator shows it, is
/// of the type that the specifiers name.
pub proof fn lemma_declaration_mirrors_use(st: State, base: Ty, d: Declarator)
    requires
        is_proper(d),
    ensures
        used(st, declarator_type(st, base, d), d) == Some(base),
    decreases d, 2int,
{
    lemma_pointers_lead_back(base, d.pointer);
    lemma_direct_mirrors_use(st, behind_pointers(base, d.pointer), d.direct);
}

proof fn lemma_direct_mirrors_use(st: State, base: Ty, d: DirectDeclarator)
    requires
        is_properly_direct(d),
    ensures
        used_directly(st, direct_type(st, base, d), d) == Some(base),
    decreases d, 1int,
{
    match d {
        DirectDeclarator::Identifier(_, _) => {},
        DirectDeclarator::Parenthesized(inner) => lemma_declaration_mirrors_use(st, base, *inner),
        DirectDeclarator::Array { .. } => lemma_array_mirrors_use(st, base, d),
        DirectDeclarator::Function { .. } => lemma_function_mirrors_use(st, base, d),
    }
}

proof fn lemma_array_mirrors_use(st: State, base: Ty, d: DirectDeclarator)
    requires
        d is Array,
        is_properly_direct(d),
    ensures
        used_directly(st, direct_type(st, base, d), d) == Some(base),
    decreases d, 0int,
{
    match d {
        DirectDeclarator::Array { base: inner, size, .. } => {
            let n = array_length(st, size);
            lemma_length_is_stated(st, size);
            let a = Ty::Array(Box::new(base), n);
            lemma_direct_mirrors_use(st, a, *inner);
            assert(direct_type(st, base, d) == direct_type(st, a, *inner));
            assert(indexed(st, Some(a), size) == Some(base));
        },
        _ => {},
    }
}

proof fn lemma_length_is_stated(st: State, size: Option<Box<Expression>>)
    ensures
        is_length(st, size, array_length(st, size)),
{
}

proof fn lemma_function_mirrors_use(st: State, base: Ty, d: DirectDeclarator)
    requires
        d is Function,
        is_properly_direct(d),
    ensures
        used_directly(st, direct_type(st, base, d), d) == Some(base),
    decreases d, 0int,
{
    match d {
        DirectDeclarator::Function { base: inner, params, is_variadic, .. } => {
            let f = Ty::Function {
                return_type: Box::new(base),
                params: parameter_types(st, params@, 0),
                variadic: is_variadic,
            };
            lemma_parameters(st, params@);
            assert(called(st, Some(f), params@, is_variadic) == Some(base));
            match *inner {
                DirectDeclarator::Parenthesized(x) => {
                    assert(is_properly_direct(*inner));
                    assert(is_properly_direct(*inner) == is_proper(*x));
                    lemma_declaration_mirrors_use(st, f, *x);
                    assert(direct_type(st, base, d) == declarator_type(st, f, *x));
                    assert(used_directly(st, declarator_type(st, f, *x), *inner) == Some(f));
                },
                DirectDeclarator::Identifier(_, _) => {
                    assert(direct_type(st, base, *inner) == base);
                    assert(direct_type(st, base, d) == f);
                    assert(used_directly(st, f, *inner) == Some(f));
                },
                _ => {},
            }
        },
        _ => {},
    }
}

proof fn lemma_pointers_lead_back(t: Ty, p: Option<Pointer>)
    ensures
        all_unpointed(behind_pointers(t, p), p) == Some(t),
{
    match p {
        Some(x) => lemma_pointer_leads_back(t, x),
        None => {},
    }
}

proof fn lemma_pointer_leads_back(t: Ty, p: Pointer)
    ensures
        unpointed(behind_pointer(t, p), p) == Some(t),
    decreases p,
{
    match p.inner {
        Some(inner) => {
            let one = Ty::Pointer(Box::new(t), quals_of(p.qualifiers@));
            lemma_pointer_leads_back(one, *inner);
        },
        None => {},
    }
}

proof fn lemma_parameters(st: State, ps: Seq<ParameterDeclaration>)
    ensures
        are_parameters(st, ps, parameter_types(st, ps, 0)),
{
    lemma_parameters_from(st, ps, 0);
}

proof fn lemma_parameters_from(st: State, ps: Seq<ParameterDeclaration>, i: int)
    requires
        0 <= i <= ps.len(),
    ensures
        parameter_types(st, ps, i).len() == ps.len() - i,
        forall|k: int|
            0 <= k < ps.len() - i ==> #[trigger] parameter_types(st, ps, i)[k] == parameter_type(
                st,
                ps[i + k],
            ),
    decreases ps.len() - i,
{
    if i < ps.len() {
        lemma_parameters_from(st, ps, i + 1);
        let rest = parameter_types(st, ps, i + 1);
        let all = parameter_types(st, ps, i);
        assert(all == seq![parameter_type(st, ps[i])] + rest);
        assert forall|k: int| 0 <= k < ps.len() - i implies #[trigger] all[k] == parameter_type(
            st,
            ps[i + k],
        ) by {
            if k > 0 {
                assert(all[k] == rest[k - 1]);
            }
        }
    }
}

/// What an abstract declarator leads to from a type.
pub open spec fn used_abstractly(st: State, t: Ty, a: AbstractDeclarator) -> Option<Ty>
    decreases a, 1int,
{
    match a.direct {
        Some(d) => match used_direct_abstractly(st, t, d) {
            Some(u) => all_unpointed(u, a.pointer),
            None => None,
        },
        None => all_unpointed(t, a.pointer),
    }
}

/// The same for what follows the `*` of an abstract declarator.
pub open spec fn used_direct_abstractly(
    st: State,
    t: Ty,
    d: DirectAbstractDeclarator,
) -> Option<Ty>
    decreases d, 0int,
{
    match d {
        DirectAbstractDeclarator::Parenthesized(inner) => used_abstractly(st, t, *inner),
        DirectAbstractDeclarator::Array { base, size } => indexed(
            st,
            match base {
                Some(x) => used_direct_abstractly(st, t, *x),
                None => Some(t),
            },
            size,
        ),
        DirectAbstractDeclarator::Function { base, params, is_variadic } => called(
            st,
            match base {
                Some(x) => used_direct_abstractly(st, t, *x),
                None => Some(t),
            },
            params@,
            is_variadic,
        ),
    }
}

/// The type of a type name, used as its abstract declarator shows it, is the type
/// that its specifiers name.
pub proof fn lemma_type_name_mirrors_use(st: State, tn: TypeName)
    ensures
        ({
            let base = specified_type(
                st,
                tn.specifier_qualifiers.type_specifiers@,
                tn.specifier_qualifiers.type_qualifiers@,
            );
            match tn.abstract_declarator {
                Some(a) => used_abstractly(st, named_type(st, tn), a) == Some(base),
                None => named_type(st, tn) == base,
            }
        }),
{
    let base = specified_type(
        st,
        tn.specifier_qualifiers.type_specifiers@,
        tn.specifier_qualifiers.type_qualifiers@,
    );
    match tn.abstract_declarator {
        Some(a) => lemma_abstract_mirrors_use(st, base, a),
        None => {},
    }
}

proof fn lemma_abstract_mirrors_use(st: State, base: Ty, a: AbstractDeclarator)
    ensures
        used_abstractly(st, abstract_type(st, base, a), a) == Some(base),
    decreases a, 1int,
{
    lemma_pointers_lead_back(base, a.pointer);
    match a.direct {
        Some(d) => lemma_direct_abstract_mirrors_use(st, behind_pointers(base, a.pointer), d),
        None => {},
    }
}

proof fn lemma_direct_abstract_mirrors_use(st: State, base: Ty, d: DirectAbstractDeclarator)
    ensures
        used_direct_abstractly(st, direct_abstract_type(st, base, d), d) == Some(base),
    decreases d, 0int,
{
    match d {
        DirectAbstractDeclarator::Parenthesized(inner) => lemma_abstract_mirrors_use(
            st,
            base,
            *inner,
        ),
        DirectAbstractDeclarator::Array { base: inner, size } => {
            let n = array_length(st, size);
            assert(is_length(st, size, n));
            match inner {
                Some(x) => lemma_direct_abstract_mirrors_use(
                    st,
                    Ty::Array(Box::new(base), n),
                    *x,
                ),
                None => {},
            }
        },
        DirectAbstractDeclarator::Function { base: inner, params, is_variadic } => {
            lemma_parameters(st, params@);
            let f = Ty::Function {
                return_type: Box::new(base),
                params: parameter_types(st, params@, 0),
                variadic: is_variadic,
            };
            match inner {
                Some(x) => lemma_direct_abstract_mirrors_use(st, f, *x),
                None => {},
            }
        },
    }
}

/// The members of a struct or union stand in the order of their declarations: those
/// of a longer list are those of its first part and behind them those of its second.
pub proof fn lemma_members_stand_in_order(st: State, a: Seq<StructMember>, b: Seq<StructMember>)
    ensures
        members_fields(st, a + b, 0) == members_fields(st, a, 0) + members_fields(st, b, 0),
{
    lemma_members_from(st, a, b, 0);
}

proof fn lemma_members_from(st: State, a: Seq<StructMember>, b: Seq<StructMember>, i: int)
    requires
        0 <= i <= a.len(),
    ensures
        members_fields(st, a + b, i) == members_fields(st, a, i) + members_fields(st, b, 0),
    decreases a.len() - i,
{
    if i < a.len() {
        assert((a + b)[i] == a[i]);
        lemma_members_from(st, a, b, i + 1);
        assert(members_fields(st, a + b, i) =~= members_fields(st, a, i) + members_fields(
            st,
            b,
            0,
        ));
    } else {
        lemma_members_suffix(st, a, b, 0);
        assert(members_fields(st, a, i) =~= Seq::<Field>::empty());
        assert(members_fields(st, a, i) + members_fields(st, b, 0) =~= members_fields(st, b, 0));
    }
}

proof fn lemma_members_suffix(st: State, a: Seq<StructMember>, b: Seq<StructMember>, j: int)
    requires
        0 <= j <= b.len(),
    ensures
        members_fields(st, a + b, a.len() + j) == members_fields(st, b, j),
    decreases b.len() - j,
{
    if j < b.len() {
        assert((a + b)[a.len() + j] == b[j]);
        lemma_members_suffix(st, a, b, j + 1);
    }
}

/// A member declaration gives one member for each of its declarators, in order: with
/// the name that the declarator declares, and of a type that mirrors its use.
pub proof fn lemma_member_declaration(st: State, m: StructMember, k: int)
    requires
        0 <= k < m.declarators@.len(),
        m.declarators@[k].declarator is Some,
        is_proper(m.declarators@[k].declarator->0),
    ensures
        ({
            let base = specified_type(
                st,
                m.specifiers.type_specifiers@,
                m.specifiers.type_qualifiers@,
            );
            let d = m.declarators@[k];
            let fs = member_fields(st, m);
            &&& fs.len() == m.declarators@.len()
            &&& fs[k].name == Some(st.text(direct_name(d.declarator->0.direct)))
            &&& used(st, fs[k].ty, d.declarator->0) == Some(base)
            &&& fs[k].bit_width is Some <==> d.bit_width is Some
        }),
{
    let base = specified_type(
        st,
        m.specifiers.type_specifiers@,
        m.specifiers.type_qualifiers@,
    );
    lemma_declared_from(st, base, m.declarators@, 0);
    assert(member_fields(st, m)[k] == declared_field(st, base, m.declarators@[k]));
    lemma_declaration_mirrors_use(st, base, m.declarators@[k].declarator->0);
}

proof fn lemma_declared_from(st: State, base: Ty, ds: Seq<StructDeclarator>, i: int)
    requires
        0 <= i <= ds.len(),
    ensures
        declared_fields(st, base, ds, i).len() == ds.len() - i,
        forall|k: int|
            0 <= k < ds.len() - i ==> #[trigger] declared_fields(st, base, ds, i)[k]
                == declared_field(st, base, ds[i + k]),
    decreases ds.len() - i,
{
    if i < ds.len() {
        lemma_declared_from(st, base, ds, i + 1);
        let rest = declared_fields(st, base, ds, i + 1);
        let all = declared_fields(st, base, ds, i);
        assert(all == seq![declared_field(st, base, ds[i])] + rest);
        assert forall|k: int| 0 <= k < ds.len() - i implies #[trigger] all[k] == declared_field(
            st,
            base,
            ds[i + k],
        ) by {
            if k > 0 {
                assert(all[k] == rest[k - 1]);
            }
        }
    }
}

/// The type of a parameter, used as its declarator shows it, is the type that its specifiers
/// name.
pub proof fn lemma_parameter_mirrors_use(st: State, p: ParameterDeclaration)
    ensures
        ({
            let base = specified_type(
                st,
                p.specifiers.type_specifiers@,
                p.specifiers.type_qualifiers@,
            );
            &&& p.declarator matches Some(d) ==> (is_proper(d) ==> used(
                st,
                parameter_type(st, p),
                d,
            ) == Some(base))
            &&& p.declarator is None ==> match p.abstract_declarator {
                Some(a) => used_abstractly(st, parameter_type(st, p), a) == Some(base),
                None => parameter_type(st, p) == base,
            }
        }),
{
    let base = specified_type(
        st,
        p.specifiers.type_specifiers@,
        p.specifiers.type_qualifiers@,
    );
    match p.declarator {
        Some(d) => if is_proper(d) {
            lemma_declaration_mirrors_use(st, base, d);
        },
        None => match p.abstract_declarator {
            Some(a) => lemma_abstract_mirrors_use(st, base, a),
            None => {},
        },
    }
}

/// A member declaration without declarators gives one unnamed member of the type that its
/// specifiers name.
pub proof fn lemma_member_without_declarator(st: State, m: StructMember)
    requires
        m.declarators@.len() == 0,
    ensures
        member_fields(st, m).len() == 1,
        member_fields(st, m)[0].name is None,
        member_fields(st, m)[0].bit_width is None,
        member_fields(st, m)[0].ty == specified_type(
            st,
            m.specifiers.type_specifiers@,
            m.specifiers.type_qualifiers@,
        ),
{
}

} // verus!
