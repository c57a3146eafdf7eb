//! Interned names: every distinct text has one small number.

use crate::common::text::own;
use vstd::hash_map::StringHashMap;
use vstd::prelude::*;

verus! {

/// The number of an interned name.
#[derive(Clone, Copy, Debug, PartialEq, Eq, Structural)]
pub struct Symbol(pub u32);

impl Symbol {
    /// The number as such.
    pub fn as_u32(&self) -> (r: u32)
        ensures
            r == self.0,
    {
        self.0
    }

    /// The symbol with the given number.
    pub fn from_u32(n: u32) -> (r: Symbol)
        ensures
            r == Symbol(n),
    {
        Symbol(n)
    }
}

/// The text that a symbol stands for; the empty text for one that was never
/// handed out.
pub open spec fn text_of(names: Seq<Seq<char>>, sym: Symbol) -> Seq<char> {
    if (sym.0 as int) < names.len() {
        names[sym.0 as int]
    } else {
        Seq::empty()
    }
}

/// The symbol of a text, if it has one.
pub open spec fn symbol_of(names: Seq<Seq<char>>, text: Seq<char>) -> Option<Symbol> {
    if names.contains(text) {
        Some(Symbol(names.index_of(text) as u32))
    } else {
        None
    }
}

/// Hands out symbols for texts and finds the texts again.
pub struct Interner {
    strings: Vec<String>,
    ids: StringHashMap<u32>,
}

impl View for Interner {
    type V = Seq<Seq<char>>;

    closed spec fn view(&self) -> Seq<Seq<char>> {
        Seq::new(self.strings@.len(), |i: int| self.strings@[i]@)
    }
}

impl Interner {
    #[verifier::type_invariant]
    spec fn consistent(self) -> bool {
        &&& self.strings@.len() <= u32::MAX
        &&& forall|i: int|
            0 <= i < self.strings@.len() ==> self.ids@.contains_key(#[trigger] self.strings@[i]@)
                && self.ids@[self.strings@[i]@] == i
        &&& forall|s: Seq<char>| #[trigger]
            self.ids@.contains_key(s) ==> (self.ids@[s] as int) < self.strings@.len()
                && self.strings@[self.ids@[s] as int]@ == s
    }

    /// An interner without names.
    pub fn new() -> (r: Interner)
        ensures
            r@ == Seq::<Seq<char>>::empty(),
    {
        let r = Interner { strings: Vec::new(), ids: StringHashMap::new() };
        assert(r@ =~= Seq::<Seq<char>>::empty());
        r
    }

    /// How many names there are.
    pub fn len(&self) -> (r: usize)
        ensures
            r == self@.len(),
    {
        self.strings.len()
    }

    /// The symbol of `text`, if it was interned.
    pub fn get(&self, text: &str) -> (r: Option<Symbol>)
        ensures
            r == symbol_of(self@, text@),
    {
        proof {
            use_type_invariant(self);
        }
        match self.ids.get(text) {
            Some(id) => {
                proof {
                    assert(self@[*id as int] == text@);
                    let i: int = self@.index_of(text@);
                    assert(0 <= i < self@.len() && self@[i] == text@);
                    assert(self.strings@[i]@ == text@);
                }
                Some(Symbol(*id))
            },
            None => {
                proof {
                    if self@.contains(text@) {
                        let i: int = self@.index_of(text@);
                        assert(self.strings@[i]@ == text@);
                    }
                }
                None
            },
        }
    }

    /// The text of a symbol.
    pub fn resolve(&self, sym: Symbol) -> (r: &str)
        ensures
            r@ == text_of(self@, sym),
    {
        let i: usize = sym.0 as usize;
        if i < self.strings.len() {
            self.strings[i].as_str()
        } else {
            proof {
                reveal_strlit("");
                assert(""@ =~= Seq::<char>::empty());
            }
            ""
        }
    }

    /// The symbol of `text`, which gets the next free one if it has none.
    pub fn intern(&mut self, text: &str) -> (r: Symbol)
        requires
            old(self)@.len() < u32::MAX,
        ensures
            text_of(final(self)@, r) == text@,
            final(self)@ == if old(self)@.contains(text@) {
                old(self)@
            } else {
                old(self)@.push(text@)
            },
            symbol_of(final(self)@, text@) == Some(r),
    {
        match self.get(text) {
            Some(sym) => sym,
            None => {
                let ghost names = self@;
                let mut taken = Interner::new();
                std::mem::swap(self, &mut taken);
                proof {
                    use_type_invariant(&taken);
                }
                let Interner { mut strings, mut ids } = taken;
                let n: u32 = strings.len() as u32;
                let ghost before = strings@;
                strings.push(own(text));
                ids.insert(own(text), n);
                proof {
                    assert forall|i: int| 0 <= i < before.len() implies before[i]@ != text@ by {
                        assert(names[i] == before[i]@);
                    }
                    assert forall|i: int| 0 <= i < strings@.len() implies ids@.contains_key(
                        #[trigger] strings@[i]@,
                    ) && ids@[strings@[i]@] == i by {
                        if i < before.len() {
                            assert(strings@[i] == before[i]);
                        }
                    }
                    assert forall|s: Seq<char>| #[trigger] ids@.contains_key(s) implies (
                    ids@[s] as int) < strings@.len() && strings@[ids@[s] as int]@ == s by {
                        if s != text@ {
                            assert(strings@[ids@[s] as int] == before[ids@[s] as int]);
                        }
                    }
                }
                *self = Interner { strings, ids };
                proof {
                    assert(self@ =~= names.push(text@));
                    assert(self@[n as int] == text@);
                    let i: int = self@.index_of(text@);
                    assert(0 <= i < self@.len() && self@[i] == text@);
                    assert(i == n) by {
                        if i < n {
                            assert(names[i] == text@);
                        }
                    }
                }
                Symbol(n)
            },
        }
    }
}

} // verus!
