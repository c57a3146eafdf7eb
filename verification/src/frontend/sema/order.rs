//! What the type keywords of a declaration mean, in whatever order they stand.

use crate::common::layout::plain_size;
use crate::common::target::Target;
use crate::common::types::Ty;
use crate::frontend::parser::ast::{
    EnumSpecifier, StructOrUnionSpecifier, TypeQualifier, TypeSpecifier,
};
use crate::frontend::sema::resolve::{
    aggregate_type, enum_type, members_fields, no_specs, scan, specified_type, Scan, Specs,
};
use crate::frontend::sema::scope::tag_in;
use crate::frontend::sema::specifiers::{
    combined, is_keyword, no_keywords, qualified, quals_of, with_keyword, Keywords,
};
use crate::frontend::sema::state::State;
use vstd::prelude::*;
use vstd::seq_lib::{commutative_foldl, lemma_fold_left_permutation};

verus! {

/// The keywords of a list of type specifiers.
pub open spec fn keywords_in(specs: Seq<TypeSpecifier>) -> Seq<TypeSpecifier> {
    specs.filter(|s: TypeSpecifier| is_keyword(s))
}

/// The specifiers of a list that are no keywords.
pub open spec fn others_in(specs: Seq<TypeSpecifier>) -> Seq<TypeSpecifier> {
    specs.filter(|s: TypeSpecifier| !is_keyword(s))
}

/// The order of type keywords does not matter, nor where they stand among other
/// specifiers; neither does the order of qualifiers.
pub proof fn lemma_keyword_order_does_not_matter(
    st: State,
    a: Seq<TypeSpecifier>,
    b: Seq<TypeSpecifier>,
    p: Seq<TypeQualifier>,
    q: Seq<TypeQualifier>,
)
    requires
        keywords_in(a).to_multiset() == keywords_in(b).to_multiset(),
        others_in(a) == others_in(b),
        forall|x: TypeQualifier| p.contains(x) == q.contains(x),
    ensures
        specified_type(st, a, p) == specified_type(st, b, q),
{
    lemma_scan_reads_all(st, a, a.len() as int);
    lemma_scan_reads_all(st, b, b.len() as int);
    assert(a.take(a.len() as int) =~= a);
    assert(b.take(b.len() as int) =~= b);
    lemma_keywords_stand_apart(st, a);
    lemma_keywords_stand_apart(st, b);
    lemma_keywords_commute();
    lemma_fold_left_permutation(
        keywords_in(a),
        keywords_in(b),
        |k: Keywords, s: TypeSpecifier| with_keyword(k, s),
        no_keywords(),
    );
    assert(quals_of(p) == quals_of(q));
}

/// Whether a list of type specifiers holds only keywords.
pub open spec fn all_keywords(specs: Seq<TypeSpecifier>) -> bool {
    forall|i: int| 0 <= i < specs.len() ==> is_keyword(#[trigger] specs[i])
}

/// Whether a keyword can belong to the name of an integer type.
pub open spec fn is_integer_keyword(s: TypeSpecifier) -> bool {
    s is Char || s is Short || s is Int || s is Long || s is Int128 || s is Signed || s is Unsigned
}

/// Whether a list of type specifiers names an integer type by keywords.
pub open spec fn all_integer_keywords(specs: Seq<TypeSpecifier>) -> bool {
    forall|i: int| 0 <= i < specs.len() ==> is_integer_keyword(#[trigger] specs[i])
}

/// How many times `long` stands in a list.
pub open spec fn longs_in(specs: Seq<TypeSpecifier>) -> nat {
    specs.filter(|s: TypeSpecifier| s is Long).len()
}

/// Whether an integer type is unsigned.
pub open spec fn is_unsigned(t: Ty) -> bool {
    t is UChar || t is UShort || t is UInt || t is ULong || t is ULongLong || t is UInt128
}

/// Whether an integer type is signed; `char` stands for one that is.
pub open spec fn is_signed(t: Ty) -> bool {
    t is Char || t is SChar || t is Short || t is Int || t is Long || t is LongLong || t is Int128
}

/// The bytes that the keywords of an integer type ask for on a target.
pub open spec fn bytes_asked_for(specs: Seq<TypeSpecifier>, target: Target) -> int {
    if specs.contains(TypeSpecifier::Char) {
        1
    } else if specs.contains(TypeSpecifier::Int128) {
        16
    } else if specs.contains(TypeSpecifier::Short) {
        2
    } else if longs_in(specs) >= 2 {
        8
    } else if longs_in(specs) == 1 && target != Target::I686 {
        8
    } else {
        4
    }
}

/// A list of integer keywords names an integer type: an unsigned one exactly where
/// `unsigned` stands in it, of the size that the keywords ask for on every target. It
/// is `long long` exactly where its size comes from two `long`, and `long` exactly
/// where it comes from one. A `char` is explicitly signed where `signed` stands with it.
pub proof fn lemma_integer_keywords(st: State, specs: Seq<TypeSpecifier>, target: Target)
    requires
        all_integer_keywords(specs),
    ensures
        ({
            let t = specified_type(st, specs, Seq::empty());
            let narrow = specs.contains(TypeSpecifier::Char) || specs.contains(
                TypeSpecifier::Int128,
            ) || specs.contains(TypeSpecifier::Short);
            &&& is_unsigned(t) <==> specs.contains(TypeSpecifier::Unsigned)
            &&& is_signed(t) <==> !specs.contains(TypeSpecifier::Unsigned)
            &&& plain_size(t, target) == bytes_asked_for(specs, target)
            &&& t is LongLong || t is ULongLong <==> !narrow && longs_in(specs) >= 2
            &&& t is Long || t is ULong <==> !narrow && longs_in(specs) == 1
            &&& t is SChar <==> specs.contains(TypeSpecifier::Char) && specs.contains(
                TypeSpecifier::Signed,
            ) && !specs.contains(TypeSpecifier::Unsigned)
        }),
{
    assert(all_keywords(specs)) by {
        assert forall|i: int| 0 <= i < specs.len() implies is_keyword(#[trigger] specs[i]) by {
            assert(is_integer_keyword(specs[i]));
        }
    }
    lemma_keywords_alone(st, specs, Seq::empty());
    lemma_no_quals();
    lemma_keywords_say_what_stands(specs);
    lemma_absent(specs);
}

/// Beside other integer keywords, `unsigned` gives the unsigned type of the same size,
/// wherever it stands among them.
pub proof fn lemma_unsigned_keeps_size(
    st: State,
    before: Seq<TypeSpecifier>,
    after: Seq<TypeSpecifier>,
    target: Target,
)
    requires
        all_integer_keywords(before + after),
        !(before + after).contains(TypeSpecifier::Unsigned),
    ensures
        ({
            let without = specified_type(st, before + after, Seq::empty());
            let with = specified_type(
                st,
                before + seq![TypeSpecifier::Unsigned] + after,
                Seq::empty(),
            );
            &&& is_signed(without)
            &&& is_unsigned(with)
            &&& with != without
            &&& plain_size(with, target) == plain_size(without, target)
        }),
{
    let a = before + after;
    let b = before + seq![TypeSpecifier::Unsigned] + after;
    assert forall|i: int| 0 <= i < b.len() implies is_integer_keyword(#[trigger] b[i]) by {
        if i < before.len() {
            assert(b[i] == a[i]);
        } else if i > before.len() {
            assert(b[i] == a[i - 1]);
        }
    }
    assert(b[before.len() as int] == TypeSpecifier::Unsigned);
    assert forall|s: TypeSpecifier| !(s is Unsigned) implies a.contains(s) == #[trigger] b.contains(
        s,
    ) by {
        if a.contains(s) {
            let i = choose|i: int| 0 <= i < a.len() && a[i] == s;
            assert(i < before.len() ==> b[i] == s);
            assert(i >= before.len() ==> b[i + 1] == s);
        }
        if b.contains(s) {
            let i = choose|i: int| 0 <= i < b.len() && b[i] == s;
            assert(i < before.len() ==> a[i] == s);
            assert(i > before.len() ==> a[i - 1] == s);
        }
    }
    let pred = |s: TypeSpecifier| s is Long;
    Seq::filter_distributes_over_add(before, after, pred);
    Seq::filter_distributes_over_add(before + seq![TypeSpecifier::Unsigned], after, pred);
    Seq::filter_distributes_over_add(before, seq![TypeSpecifier::Unsigned], pred);
    lemma_single(TypeSpecifier::Unsigned);
    lemma_integer_keywords(st, a, target);
    lemma_integer_keywords(st, b, target);
}

/// A list with `float`, or with `double`, and no keyword for a smaller integer names a
/// floating type: `long` beside `double` asks for the most precise one.
pub proof fn lemma_floating_keywords(st: State, specs: Seq<TypeSpecifier>)
    requires
        forall|i: int|
            0 <= i < specs.len() ==> (#[trigger] specs[i]) is Float || specs[i] is Double
                || specs[i] is Long,
        specs.contains(TypeSpecifier::Float) || specs.contains(TypeSpecifier::Double),
    ensures
        ({
            let t = specified_type(st, specs, Seq::empty());
            &&& t is Float <==> specs.contains(TypeSpecifier::Float)
            &&& t is LongDouble <==> !specs.contains(TypeSpecifier::Float) && longs_in(specs) > 0
            &&& t is Double <==> !specs.contains(TypeSpecifier::Float) && longs_in(specs) == 0
        }),
{
    assert(all_keywords(specs)) by {
        assert forall|i: int| 0 <= i < specs.len() implies is_keyword(#[trigger] specs[i]) by {
            assert(specs[i] is Float || specs[i] is Double || specs[i] is Long);
        }
    }
    lemma_keywords_alone(st, specs, Seq::empty());
    lemma_no_quals();
    lemma_keywords_say_what_stands(specs);
    assert(!specs.contains(TypeSpecifier::Void));
    assert(!specs.contains(TypeSpecifier::Bool));
    assert(!specs.contains(TypeSpecifier::Char));
    assert(!specs.contains(TypeSpecifier::Short));
    assert(!specs.contains(TypeSpecifier::Complex));
    assert(!specs.contains(TypeSpecifier::Int128));
}

/// `_Complex` beside keywords that name an arithmetic type gives the complex type
/// of that type; alone it gives that of `double`. `void` and `_Bool` decide alone.
pub proof fn lemma_other_keywords(st: State, specs: Seq<TypeSpecifier>)
    requires
        all_keywords(specs),
    ensures
        specs.contains(TypeSpecifier::Void) ==> specified_type(st, specs, Seq::empty()) is Void,
        !specs.contains(TypeSpecifier::Void) && specs.contains(TypeSpecifier::Bool)
            ==> specified_type(st, specs, Seq::empty()) is Bool,
        specs.len() > 0 && !specs.contains(TypeSpecifier::Void) && !specs.contains(
            TypeSpecifier::Bool,
        ) && !specs.contains(TypeSpecifier::Complex) ==> specified_type(
            st,
            specs.push(TypeSpecifier::Complex),
            Seq::empty(),
        ) == Ty::Complex(Box::new(specified_type(st, specs, Seq::empty()))),
        specified_type(st, seq![TypeSpecifier::Complex], Seq::empty()) == Ty::Complex(
            Box::new(specified_type(st, seq![TypeSpecifier::Double], Seq::empty())),
        ),
{
    let more = specs.push(TypeSpecifier::Complex);
    lemma_keywords_alone(st, specs, Seq::empty());
    lemma_keywords_alone(st, more, Seq::empty());
    lemma_no_quals();
    lemma_keywords_say_what_stands(specs);
    assert(more.drop_last() =~= specs);
    lemma_keywords_are_all(specs);
    lemma_keywords_are_all(more);
    assert(said_by_keywords(more) == with_keyword(
        said_by_keywords(specs),
        TypeSpecifier::Complex,
    ));
    lemma_keyword_by_fields(said_by_keywords(specs), TypeSpecifier::Complex);
    if specs.len() > 0 {
        assert(specs.contains(specs[0]));
        lemma_some_keyword(specs);
    }
    let c = seq![TypeSpecifier::Complex];
    let d = seq![TypeSpecifier::Double];
    lemma_keywords_alone(st, c, Seq::empty());
    lemma_keywords_alone(st, d, Seq::empty());
    lemma_keywords_say_what_stands(c);
    lemma_keywords_say_what_stands(d);
    lemma_single(TypeSpecifier::Complex);
    lemma_single(TypeSpecifier::Double);
}

/// Qualifiers stand on top of the type that keywords name, each exactly where it is
/// listed; without any the type stands alone.
pub proof fn lemma_qualifiers_stand_on_top(
    st: State,
    specs: Seq<TypeSpecifier>,
    quals: Seq<TypeQualifier>,
)
    requires
        all_keywords(specs),
    ensures
        ({
            let bare = specified_type(st, specs, Seq::empty());
            let t = specified_type(st, specs, quals);
            &&& quals.len() == 0 ==> t == bare
            &&& quals.len() > 0 ==> (t matches Ty::Qualified(inner, q) && *inner == bare && {
                &&& q.is_const == quals.contains(TypeQualifier::Const)
                &&& q.is_volatile == quals.contains(TypeQualifier::Volatile)
                &&& q.is_restrict == quals.contains(TypeQualifier::Restrict)
                &&& q.is_atomic == quals.contains(TypeQualifier::Atomic)
            })
        }),
{
    lemma_keywords_alone(st, specs, Seq::empty());
    lemma_keywords_alone(st, specs, quals);
    lemma_no_quals();
    if quals.len() == 0 {
        assert(quals =~= Seq::empty());
    } else {
        assert(quals.contains(quals[0]));
    }
}

/// A typedef name gives the type that it was declared with, whatever keywords stand
/// beside it.
pub proof fn lemma_typedef_name_decides(st: State, specs: Seq<TypeSpecifier>, i: int, t: Ty)
    requires
        0 <= i < specs.len(),
        specs[i] is TypedefName,
        st.declared_type(specs[i]->TypedefName_0) == Some(t),
        forall|j: int| 0 <= j < specs.len() && j != i ==> is_keyword(#[trigger] specs[j]),
    ensures
        specified_type(st, specs, Seq::empty()) == t,
{
    let s = specs[i];
    lemma_scan_reads_all(st, specs, specs.len() as int);
    assert(specs.take(specs.len() as int) =~= specs);
    lemma_keywords_stand_apart(st, specs);
    lemma_only_other(specs, i, specs.len() as int);
    assert(specs.take(specs.len() as int) =~= specs);
    assert(others_in(specs) == seq![s]);
    assert(seq![s].drop_last() =~= Seq::<TypeSpecifier>::empty());
    reveal_with_fuel(scan, 2);
    reveal_with_fuel(Seq::fold_left, 2);
    assert(read_all(st, seq![s]) == read(st, Scan::Collected(no_specs()), s));
    lemma_no_quals();
}

proof fn lemma_only_other(specs: Seq<TypeSpecifier>, i: int, n: int)
    requires
        0 <= i < specs.len(),
        0 <= n <= specs.len(),
        !is_keyword(specs[i]),
        forall|j: int| 0 <= j < specs.len() && j != i ==> is_keyword(#[trigger] specs[j]),
    ensures
        others_in(specs.take(n)) == if i < n {
            seq![specs[i]]
        } else {
            Seq::empty()
        },
    decreases n,
{
    reveal(Seq::filter);
    if n > 0 {
        lemma_only_other(specs, i, n - 1);
        assert(specs.take(n).drop_last() =~= specs.take(n - 1));
        if n - 1 == i {
            assert(Seq::<TypeSpecifier>::empty().push(specs[i]) =~= seq![specs[i]]);
        }
    }
}

proof fn lemma_no_quals()
    ensures
        forall|t: Ty| #[trigger] qualified(t, quals_of(Seq::empty())) == t,
{
    let none = Seq::<TypeQualifier>::empty();
    assert(!none.contains(TypeQualifier::Const));
    assert(!none.contains(TypeQualifier::Volatile));
    assert(!none.contains(TypeQualifier::Restrict));
    assert(!none.contains(TypeQualifier::Atomic));
}

proof fn lemma_single(s: TypeSpecifier)
    ensures
        seq![s][0] == s,
        forall|x: TypeSpecifier| #[trigger] seq![s].contains(x) <==> x == s,
        longs_in(seq![s]) == if s is Long {
            1nat
        } else {
            0
        },
{
    reveal_with_fuel(Seq::<TypeSpecifier>::filter, 2);
    assert(seq![s][0] == s);
    assert(seq![s].drop_last() =~= Seq::<TypeSpecifier>::empty());
}

proof fn lemma_keywords_are_all(specs: Seq<TypeSpecifier>)
    requires
        all_keywords(specs),
    ensures
        keywords_in(specs) == specs,
        others_in(specs) == Seq::<TypeSpecifier>::empty(),
    decreases specs.len(),
{
    reveal(Seq::filter);
    if specs.len() > 0 {
        let before = specs.drop_last();
        assert(all_keywords(before)) by {
            assert forall|i: int| 0 <= i < before.len() implies is_keyword(
                #[trigger] before[i],
            ) by {
                assert(before[i] == specs[i]);
            }
        }
        lemma_keywords_are_all(before);
        assert(is_keyword(specs[specs.len() - 1]));
        assert(before.push(specs.last()) =~= specs);
    } else {
        assert(specs =~= Seq::<TypeSpecifier>::empty());
    }
}

proof fn lemma_keywords_alone(
    st: State,
    specs: Seq<TypeSpecifier>,
    quals: Seq<TypeQualifier>,
)
    requires
        all_keywords(specs),
    ensures
        specified_type(st, specs, quals) == qualified(
            combined(said_by_keywords(specs)),
            quals_of(quals),
        ),
{
    lemma_scan_reads_all(st, specs, specs.len() as int);
    assert(specs.take(specs.len() as int) =~= specs);
    lemma_keywords_stand_apart(st, specs);
    lemma_keywords_are_all(specs);
}

proof fn lemma_absent(specs: Seq<TypeSpecifier>)
    requires
        all_integer_keywords(specs),
    ensures
        !specs.contains(TypeSpecifier::Void),
        !specs.contains(TypeSpecifier::Bool),
        !specs.contains(TypeSpecifier::Float),
        !specs.contains(TypeSpecifier::Double),
        !specs.contains(TypeSpecifier::Complex),
{
}

/// Some keyword of a list is said.
proof fn lemma_some_keyword(specs: Seq<TypeSpecifier>)
    requires
        all_keywords(specs),
        specs.len() > 0,
    ensures
        said_by_keywords(specs) != no_keywords(),
{
    lemma_keywords_say_what_stands(specs);
    let s = specs[0];
    assert(is_keyword(s));
    assert(specs.contains(s));
    if s is Long {
        lemma_long_counts(specs, 0);
    }
}

proof fn lemma_long_counts(specs: Seq<TypeSpecifier>, i: int)
    requires
        0 <= i < specs.len(),
        specs[i] is Long,
    ensures
        longs_in(specs) > 0,
    decreases specs.len(),
{
    reveal(Seq::filter);
    if i < specs.len() - 1 {
        lemma_long_counts(specs.drop_last(), i);
    }
}

proof fn lemma_keywords_say_what_stands(specs: Seq<TypeSpecifier>)
    requires
        all_keywords(specs),
    ensures
        ({
            let k = said_by_keywords(specs);
            &&& k.has_void == specs.contains(TypeSpecifier::Void)
            &&& k.has_char == specs.contains(TypeSpecifier::Char)
            &&& k.has_short == specs.contains(TypeSpecifier::Short)
            &&& k.has_int == specs.contains(TypeSpecifier::Int)
            &&& k.longs == if longs_in(specs) >= 2 {
                2int
            } else {
                longs_in(specs) as int
            }
            &&& k.has_float == specs.contains(TypeSpecifier::Float)
            &&& k.has_double == specs.contains(TypeSpecifier::Double)
            &&& k.has_signed == specs.contains(TypeSpecifier::Signed)
            &&& k.has_unsigned == specs.contains(TypeSpecifier::Unsigned)
            &&& k.has_bool == specs.contains(TypeSpecifier::Bool)
            &&& k.has_complex == specs.contains(TypeSpecifier::Complex)
            &&& k.has_int128 == specs.contains(TypeSpecifier::Int128)
        }),
    decreases specs.len(),
{
    lemma_keywords_are_all(specs);
    if specs.len() > 0 {
        let before = specs.drop_last();
        let s = specs.last();
        assert(all_keywords(before)) by {
            assert forall|i: int| 0 <= i < before.len() implies is_keyword(
                #[trigger] before[i],
            ) by {
                assert(before[i] == specs[i]);
            }
        }
        lemma_keywords_say_what_stands(before);
        lemma_keywords_are_all(before);
        let k = said_by_keywords(before);
        assert(said_by_keywords(specs) == with_keyword(k, s));
        lemma_keyword_by_fields(k, s);
        assert(before.push(s) =~= specs);
        assert forall|x: TypeSpecifier| #[trigger] specs.contains(x) == (before.contains(x) || x
            == s) by {
            lemma_contains_pushed(before, s, x);
        }
        assert(longs_in(specs) == longs_in(before) + if s is Long {
            1nat
        } else {
            0
        }) by {
            reveal(Seq::filter);
        }
    } else {
        reveal(Seq::filter);
    }
}

proof fn lemma_contains_pushed(before: Seq<TypeSpecifier>, s: TypeSpecifier, x: TypeSpecifier)
    ensures
        before.push(s).contains(x) == (before.contains(x) || x == s),
{
    let specs = before.push(s);
    if before.contains(x) {
        let i = choose|i: int| 0 <= i < before.len() && before[i] == x;
        assert(specs[i] == x);
    }
    assert(specs[before.len() as int] == s);
    if specs.contains(x) {
        let i = choose|i: int| 0 <= i < specs.len() && specs[i] == x;
        if i < before.len() {
            assert(before[i] == x);
        }
    }
}

/// What a list says after one specifier more.
spec fn read(st: State, so_far: Scan, s: TypeSpecifier) -> Scan {
    match so_far {
        Scan::Decided(t) => Scan::Decided(t),
        Scan::Collected(acc) => scan(st, seq![s], 0, acc),
    }
}

/// What a list of type specifiers says.
spec fn read_all(st: State, specs: Seq<TypeSpecifier>) -> Scan {
    specs.fold_left(
        Scan::Collected(no_specs()),
        |so_far: Scan, s: TypeSpecifier| read(st, so_far, s),
    )
}

/// What the keywords of a list say together.
spec fn said_by_keywords(specs: Seq<TypeSpecifier>) -> Keywords {
    keywords_in(specs).fold_left(
        no_keywords(),
        |k: Keywords, s: TypeSpecifier| with_keyword(k, s),
    )
}

/// The same with other keywords.
spec fn with_keywords(so_far: Scan, k: Keywords) -> Scan {
    match so_far {
        Scan::Decided(t) => Scan::Decided(t),
        Scan::Collected(acc) => Scan::Collected(Specs { keywords: k, ..acc }),
    }
}

proof fn lemma_scan_reads_one(st: State, specs: Seq<TypeSpecifier>, i: int, acc: Specs)
    requires
        0 <= i < specs.len(),
    ensures
        scan(st, specs, i, acc) == (match scan(st, seq![specs[i]], 0, acc) {
            Scan::Decided(t) => Scan::Decided(t),
            Scan::Collected(after) => scan(st, specs, i + 1, after),
        }),
{
    reveal_with_fuel(scan, 2);
}

proof fn lemma_scan_reads_all(st: State, specs: Seq<TypeSpecifier>, n: int)
    requires
        0 <= n <= specs.len(),
    ensures
        scan(st, specs, 0, no_specs()) == (match read_all(st, specs.take(n)) {
            Scan::Decided(t) => Scan::Decided(t),
            Scan::Collected(acc) => scan(st, specs, n, acc),
        }),
    decreases n,
{
    if n == 0 {
        assert(specs.take(0) =~= Seq::<TypeSpecifier>::empty());
    } else {
        lemma_scan_reads_all(st, specs, n - 1);
        assert(specs.take(n).drop_last() =~= specs.take(n - 1));
        match read_all(st, specs.take(n - 1)) {
            Scan::Decided(_) => {},
            Scan::Collected(acc) => lemma_scan_reads_one(st, specs, n - 1, acc),
        }
    }
}

proof fn lemma_keyword_is_added(st: State, so_far: Scan, s: TypeSpecifier, k: Keywords)
    requires
        is_keyword(s),
    ensures
        read(st, with_keywords(so_far, k), s) == with_keywords(so_far, with_keyword(k, s)),
{
    reveal_with_fuel(scan, 2);
}

proof fn lemma_keywords_pass_by(st: State, so_far: Scan, s: TypeSpecifier, k: Keywords)
    requires
        !is_keyword(s),
    ensures
        read(st, with_keywords(so_far, k), s) == with_keywords(read(st, so_far, s), k),
{
    reveal_with_fuel(scan, 2);
}

proof fn lemma_keywords_stand_apart(st: State, specs: Seq<TypeSpecifier>)
    ensures
        read_all(st, specs) == with_keywords(
            read_all(st, others_in(specs)),
            said_by_keywords(specs),
        ),
    decreases specs.len(),
{
    reveal(Seq::filter);
    if specs.len() > 0 {
        let before = specs.drop_last();
        let s = specs.last();
        lemma_keywords_stand_apart(st, before);
        let so_far = read_all(st, others_in(before));
        let k = said_by_keywords(before);
        if is_keyword(s) {
            assert(keywords_in(specs).drop_last() =~= keywords_in(before));
            lemma_keyword_is_added(st, so_far, s, k);
        } else {
            assert(others_in(specs).drop_last() =~= others_in(before));
            lemma_keywords_pass_by(st, so_far, s, k);
        }
    }
}

/// Keywords field by field.
spec fn said_by_fields(k: Keywords, s: TypeSpecifier) -> Keywords {
    Keywords {
        has_void: k.has_void || s is Void,
        has_char: k.has_char || s is Char,
        has_short: k.has_short || s is Short,
        has_int: k.has_int || s is Int,
        longs: if s is Long {
            if k.longs >= 1 {
                2
            } else {
                1
            }
        } else {
            k.longs
        },
        has_float: k.has_float || s is Float,
        has_double: k.has_double || s is Double,
        has_signed: k.has_signed || s is Signed,
        has_unsigned: k.has_unsigned || s is Unsigned,
        has_bool: k.has_bool || s is Bool,
        has_complex: k.has_complex || s is Complex,
        has_int128: k.has_int128 || s is Int128,
    }
}

proof fn lemma_keyword_by_fields(k: Keywords, s: TypeSpecifier)
    ensures
        with_keyword(k, s) == said_by_fields(k, s),
{
}

proof fn lemma_keywords_commute()
    ensures
        commutative_foldl(|k: Keywords, s: TypeSpecifier| with_keyword(k, s)),
{
    let f = |k: Keywords, s: TypeSpecifier| with_keyword(k, s);
    assert forall|x: TypeSpecifier, y: TypeSpecifier, k: Keywords| #[trigger]
        f(f(k, x), y) == f(f(k, y), x) by {
        lemma_two_keywords_commute(k, x, y);
    }
}

proof fn lemma_two_keywords_commute(k: Keywords, x: TypeSpecifier, y: TypeSpecifier)
    ensures
        with_keyword(with_keyword(k, x), y) == with_keyword(with_keyword(k, y), x),
{
    lemma_keyword_by_fields(k, x);
    lemma_keyword_by_fields(k, y);
    lemma_keyword_by_fields(with_keyword(k, x), y);
    lemma_keyword_by_fields(with_keyword(k, y), x);
}

/// A struct or union specifier names its tag where it has no members, what its tag was
/// completed as where that is known, and else a type of the members that it declares.
pub proof fn lemma_struct_specifier(
    st: State,
    s: StructOrUnionSpecifier,
    specs: Seq<TypeSpecifier>,
)
    requires
        specs == seq![TypeSpecifier::Struct(s)],
    ensures
        ({
            let t = specified_type(st, specs, Seq::empty());
            &&& s.members is None ==> (t matches Ty::Struct { name, fields, .. } && name
                == st.opt_text(s.tag) && fields.len() == 0)
            &&& s.members is Some && s.tag is None ==> (t matches Ty::Struct { fields, .. }
                && fields == members_fields(st, s.members->0@, 0))
            &&& s.members is Some && s.tag is Some && tag_in(st.scopes, s.tag->0) is None ==> (
            t matches Ty::Struct { name, fields, .. } && name == st.opt_text(s.tag) && fields
                == members_fields(st, s.members->0@, 0))
            &&& s.members is Some && s.tag is Some && tag_in(st.scopes, s.tag->0) is Some
                && tag_in(st.scopes, s.tag->0)->0.is_complete ==> t == tag_in(
                st.scopes,
                s.tag->0,
            )->0.ty
        }),
{
    assert(specs[0] == TypeSpecifier::Struct(s));
    let acc = Specs { tag_ty: Some(aggregate_type(st, s, true)), ..no_specs() };
    assert(scan(st, specs, 1, acc) == Scan::Collected(acc));
    assert(scan(st, specs, 0, no_specs()) == Scan::Collected(acc));
    lemma_no_quals();
    assert(specified_type(st, specs, Seq::empty()) == aggregate_type(st, s, true));
}

/// An enum specifier names what its tag is known as, or an enum of that name.
pub proof fn lemma_enum_specifier(st: State, e: EnumSpecifier, specs: Seq<TypeSpecifier>)
    requires
        specs == seq![TypeSpecifier::Enum(e)],
    ensures
        ({
            let t = specified_type(st, specs, Seq::empty());
            &&& e.tag is Some && tag_in(st.scopes, e.tag->0) is Some ==> t == tag_in(
                st.scopes,
                e.tag->0,
            )->0.ty
            &&& e.tag is None || tag_in(st.scopes, e.tag->0) is None ==> (t matches Ty::Enum {
                name,
                ..
            } && name == st.opt_text(e.tag))
        }),
{
    assert(specs[0] == TypeSpecifier::Enum(e));
    let acc = Specs { enum_ty: Some(enum_type(st, e)), ..no_specs() };
    assert(scan(st, specs, 1, acc) == Scan::Collected(acc));
    assert(scan(st, specs, 0, no_specs()) == Scan::Collected(acc));
    lemma_no_quals();
    assert(specified_type(st, specs, Seq::empty()) == enum_type(st, e));
}

} // verus!
