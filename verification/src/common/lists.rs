//! Lists of strings.

use crate::common::text::{char_at, find_char, own, str_eq, texts_of};
use vstd::prelude::*;
use vstd::string::*;

verus! {

broadcast use crate::common::text::group_texts;

/// Adds a text to a list.
pub fn push_text(v: &mut Vec<String>, s: &str)
    ensures
        texts_of(final(v)@) == texts_of(old(v)@).push(s@),
{
    v.push(own(s));
    assert(texts_of(v@) =~= texts_of(old(v)@).push(s@));
}

/// Copy of a list of texts.
pub fn copy_texts(v: &Vec<String>) -> (r: Vec<String>)
    ensures
        texts_of(r@) == texts_of(v@),
{
    let mut out: Vec<String> = Vec::new();
    let mut i: usize = 0;
    while i < v.len()
        invariant
            i <= v@.len(),
            texts_of(out@) == texts_of(v@).take(i as int),
        decreases v@.len() - i,
    {
        push_text(&mut out, v[i].as_str());
        i += 1;
        assert(texts_of(out@) =~= texts_of(v@).take(i as int));
    }
    assert(texts_of(out@) =~= texts_of(v@));
    out
}

/// Whether one of the texts is `s`.
pub fn contains_text(v: &Vec<String>, s: &str) -> (r: bool)
    ensures
        r == texts_of(v@).contains(s@),
{
    let mut i: usize = 0;
    while i < v.len()
        invariant
            i <= v@.len(),
            forall|j: int| 0 <= j < i ==> #[trigger] texts_of(v@)[j] != s@,
        decreases v@.len() - i,
    {
        assert(texts_of(v@)[i as int] == v@[i as int]@);
        if str_eq(v[i].as_str(), s) {
            assert(texts_of(v@).contains(s@));
            return true;
        }
        i += 1;
    }
    false
}

/// The texts one behind the other, with `between` between each two.
pub open spec fn joined(s: Seq<Seq<char>>, between: Seq<char>) -> Seq<char>
    decreases s.len(),
{
    if s.len() == 0 {
        Seq::empty()
    } else if s.len() == 1 {
        s[0]
    } else {
        joined(s.drop_last(), between) + between + s.last()
    }
}

/// The texts one behind the other, with `between` between each two.
pub fn join(v: &Vec<String>, between: &str) -> (r: String)
    ensures
        r@ == joined(texts_of(v@), between@),
{
    let mut out: String = String::new();
    let mut i: usize = 0;
    assert(texts_of(v@).take(0) =~= Seq::empty());
    while i < v.len()
        invariant
            i <= v@.len(),
            out@ == joined(texts_of(v@).take(i as int), between@),
        decreases v@.len() - i,
    {
        let ghost all = texts_of(v@).take(i + 1);
        assert(all.drop_last() =~= texts_of(v@).take(i as int));
        assert(all.last() == v@[i as int]@);
        if i > 0 {
            out.append(between);
        }
        out.append(v[i].as_str());
        assert(out@ =~= joined(all, between@));
        i += 1;
    }
    assert(texts_of(v@).take(i as int) =~= texts_of(v@));
    out
}

/// The parts of `s` between the places where `c` stands, from `i` on.
pub open spec fn split_from(s: Seq<char>, c: char, i: int) -> Seq<Seq<char>>
    decreases s.len() - i,
{
    if i < 0 || i > s.len() {
        Seq::empty()
    } else {
        match char_at(s, c, i) {
            Some(k) => if i <= k < s.len() {
                seq![s.subrange(i, k)] + split_from(s, c, k + 1)
            } else {
                Seq::empty()
            },
            None => seq![s.subrange(i, s.len() as int)],
        }
    }
}

/// The parts of `s` between the places where `c` stands.
pub fn split(s: &str, c: char) -> (r: Vec<String>)
    ensures
        texts_of(r@) == split_from(s@, c, 0),
{
    let n: usize = s.unicode_len();
    let mut out: Vec<String> = Vec::new();
    let mut from: usize = 0;
    assert(texts_of(out@) =~= Seq::empty());
    assert(Seq::<Seq<char>>::empty() + split_from(s@, c, 0) =~= split_from(s@, c, 0));
    loop
        invariant
            n == s@.len(),
            from <= n,
            texts_of(out@) + split_from(s@, c, from as int) == split_from(s@, c, 0),
        decreases n - from,
    {
        let ghost before = texts_of(out@);
        match find_char(s, c, from) {
            Some(k) => {
                push_text(&mut out, s.substring_char(from, k));
                assert(before + (seq![s@.subrange(from as int, k as int)] + split_from(
                    s@,
                    c,
                    k + 1,
                )) =~= texts_of(out@) + split_from(s@, c, k + 1));
                from = k + 1;
            },
            None => {
                push_text(&mut out, s.substring_char(from, n));
                assert(before + seq![s@.subrange(from as int, s@.len() as int)] =~= texts_of(
                    out@,
                ));
                return out;
            },
        }
    }
}

} // verus!
