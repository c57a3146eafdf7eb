//! How long an array is whose length its initializer decides.

use crate::frontend::parser::ast::{
    DesignatedInitializer, Designator, Expression, Initializer, StringSegment,
};
use crate::frontend::sema::constants::{
    designators_seen, element_count, entries_seen, entry_seen, index_seen, index_value,
    segments_len, ListExtent,
};
use vstd::prelude::*;

verus! {

/// A list whose entries have no index designators makes an array of as many elements
/// as it has entries.
pub proof fn lemma_plain_list_counts_entries(
    init: Initializer,
    enums: Map<Seq<char>, i128>,
    names: Seq<Seq<char>>,
)
    requires
        init is List,
        ({
            let s = init->designators_and_initializers@;
            &&& s.len() <= usize::MAX
            &&& forall|k: int|
                0 <= k < s.len() ==> (#[trigger] s[k]).designators@.len() == 0
        }),
    ensures
        element_count(init, enums, names) == init->designators_and_initializers@.len(),
{
    let s = init->designators_and_initializers@;
    let start = ListExtent { max_index: 0, positional: 0, unresolved: false };
    lemma_plain_entries(start, s, 0, enums, names);
}

proof fn lemma_plain_entries(
    x: ListExtent,
    s: Seq<DesignatedInitializer>,
    i: int,
    enums: Map<Seq<char>, i128>,
    names: Seq<Seq<char>>,
)
    requires
        0 <= i <= s.len() <= usize::MAX,
        x.positional == i,
        forall|k: int| 0 <= k < s.len() ==> (#[trigger] s[k]).designators@.len() == 0,
    ensures
        entries_seen(x, s, i, enums, names) == (ListExtent { positional: s.len() as usize, ..x }),
    decreases s.len() - i,
{
    if i < s.len() {
        let y = entry_seen(x, s[i], enums, names);
        assert(s[i].designators@.len() == 0);
        assert(y == (ListExtent { positional: (i + 1) as usize, ..x }));
        lemma_plain_entries(y, s, i + 1, enums, names);
    }
}

/// A list makes an array with a place for each of its entries, and for the element that
/// the index of any entry names.
pub proof fn lemma_indices_have_a_place(
    init: Initializer,
    enums: Map<Seq<char>, i128>,
    names: Seq<Seq<char>>,
    k: int,
    j: int,
    n: i128,
)
    requires
        init is List,
        init->designators_and_initializers@.len() <= usize::MAX,
        0 <= k < init->designators_and_initializers@.len(),
        ({
            let ds = init->designators_and_initializers@[k].designators@;
            &&& 0 <= j < ds.len()
            &&& match ds[j] {
                Designator::Index(e, _) => index_value(*e, enums, names) == Some(n),
                Designator::IndexRange(_, hi, _) => index_value(*hi, enums, names) == Some(n),
                _ => false,
            }
        }),
        0 <= n < usize::MAX,
    ensures
        element_count(init, enums, names) > n,
        element_count(init, enums, names) >= init->designators_and_initializers@.len(),
{
    let s = init->designators_and_initializers@;
    let start = ListExtent { max_index: 0, positional: 0, unresolved: false };
    lemma_index_reaches(start, s, 0, enums, names, k, j, n);
}

proof fn lemma_designators_grow(
    x: ListExtent,
    found: bool,
    ds: Seq<Designator>,
    i: int,
    enums: Map<Seq<char>, i128>,
    names: Seq<Seq<char>>,
)
    ensures
        designators_seen(x, found, ds, i, enums, names).0.max_index >= x.max_index,
    decreases ds.len() - i,
{
    if 0 <= i < ds.len() {
        match ds[i] {
            Designator::Index(e, _) => lemma_designators_grow(
                index_seen(x, index_value(*e, enums, names)),
                true,
                ds,
                i + 1,
                enums,
                names,
            ),
            Designator::IndexRange(_, hi, _) => lemma_designators_grow(
                index_seen(x, index_value(*hi, enums, names)),
                true,
                ds,
                i + 1,
                enums,
                names,
            ),
            Designator::Field(_, _) => lemma_designators_grow(x, found, ds, i + 1, enums, names),
        }
    }
}

proof fn lemma_designator_reaches(
    x: ListExtent,
    found: bool,
    ds: Seq<Designator>,
    i: int,
    enums: Map<Seq<char>, i128>,
    names: Seq<Seq<char>>,
    j: int,
    n: i128,
)
    requires
        0 <= i <= j < ds.len(),
        match ds[j] {
            Designator::Index(e, _) => index_value(*e, enums, names) == Some(n),
            Designator::IndexRange(_, hi, _) => index_value(*hi, enums, names) == Some(n),
            _ => false,
        },
        0 <= n < usize::MAX,
    ensures
        designators_seen(x, found, ds, i, enums, names).0.max_index > n,
    decreases ds.len() - i,
{
    let (y, f) = match ds[i] {
        Designator::Index(e, _) => (index_seen(x, index_value(*e, enums, names)), true),
        Designator::IndexRange(_, hi, _) => (index_seen(x, index_value(*hi, enums, names)), true),
        Designator::Field(_, _) => (x, found),
    };
    if i < j {
        lemma_designator_reaches(y, f, ds, i + 1, enums, names, j, n);
    } else {
        lemma_designators_grow(y, f, ds, i + 1, enums, names);
    }
}

proof fn lemma_entries_grow(
    x: ListExtent,
    s: Seq<DesignatedInitializer>,
    i: int,
    enums: Map<Seq<char>, i128>,
    names: Seq<Seq<char>>,
)
    ensures
        entries_seen(x, s, i, enums, names).max_index >= x.max_index,
    decreases s.len() - i,
{
    if 0 <= i < s.len() {
        lemma_designators_grow(x, false, s[i].designators@, 0, enums, names);
        lemma_entries_grow(entry_seen(x, s[i], enums, names), s, i + 1, enums, names);
    }
}

proof fn lemma_index_reaches(
    x: ListExtent,
    s: Seq<DesignatedInitializer>,
    i: int,
    enums: Map<Seq<char>, i128>,
    names: Seq<Seq<char>>,
    k: int,
    j: int,
    n: i128,
)
    requires
        0 <= i <= k < s.len(),
        0 <= j < s[k].designators@.len(),
        match s[k].designators@[j] {
            Designator::Index(e, _) => index_value(*e, enums, names) == Some(n),
            Designator::IndexRange(_, hi, _) => index_value(*hi, enums, names) == Some(n),
            _ => false,
        },
        0 <= n < usize::MAX,
    ensures
        entries_seen(x, s, i, enums, names).max_index > n,
    decreases s.len() - i,
{
    let y = entry_seen(x, s[i], enums, names);
    if i < k {
        lemma_index_reaches(y, s, i + 1, enums, names, k, j, n);
    } else {
        lemma_designator_reaches(x, false, s[k].designators@, 0, enums, names, j, n);
        lemma_entries_grow(y, s, i + 1, enums, names);
    }
}

/// How many bytes the segments of a string literal have together.
pub open spec fn bytes_together(s: Seq<StringSegment>) -> nat
    decreases s.len(),
{
    if s.len() == 0 {
        0
    } else {
        bytes_together(s.drop_last()) + s.last().value@.len()
    }
}

/// A string literal makes an array of its bytes and one more; anything else that is no
/// list makes an array of one element.
pub proof fn lemma_string_has_room_for_its_end(
    init: Initializer,
    enums: Map<Seq<char>, i128>,
    names: Seq<Seq<char>>,
)
    requires
        init is Expression,
    ensures
        *init->Expression_0 is StringLiteral && bytes_together(
            (*init->Expression_0)->StringLiteral_segments@,
        ) < usize::MAX ==> element_count(init, enums, names) == bytes_together(
            (*init->Expression_0)->StringLiteral_segments@,
        ) + 1,
        !(*init->Expression_0 is StringLiteral) ==> element_count(init, enums, names) == 1,
{
    if *init->Expression_0 is StringLiteral {
        let s = (*init->Expression_0)->StringLiteral_segments@;
        if bytes_together(s) < usize::MAX {
            assert(s.take(0) =~= Seq::<StringSegment>::empty());
            lemma_segments_add_up(s, 0);
        }
    }
}

proof fn lemma_segments_add_up(s: Seq<StringSegment>, i: int)
    requires
        0 <= i <= s.len(),
        bytes_together(s) < usize::MAX,
    ensures
        bytes_together(s.take(i)) <= bytes_together(s),
        segments_len(bytes_together(s.take(i)) as usize, s, i) == bytes_together(s),
    decreases s.len() - i,
{
    if i < s.len() {
        lemma_segments_add_up(s, i + 1);
        assert(s.take(i + 1).drop_last() =~= s.take(i));
    } else {
        assert(s.take(i) =~= s);
    }
}

} // verus!
