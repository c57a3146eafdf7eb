//! A module: what one translation unit becomes.

use crate::common::layout::tags_of;
use crate::common::text::{bytes_eq, own, str_eq};
use crate::common::types::{CType, Ty};
use crate::ir::function::IrFunction;
use crate::ir::types::IrType;
use vstd::hash_map::StringHashMap;
use vstd::prelude::*;

verus! {

/// Who can see a global.
#[derive(Clone, Copy, Debug, PartialEq, Eq, Structural)]
pub enum Linkage {
    Internal,
    External,
}

/// The value that a global starts with.
#[derive(Debug, PartialEq, Eq)]
pub enum Constant {
    /// Zero in every byte.
    Zero,
    Integer(i128),
    /// A floating-point number, by its bits.
    Bits(u128),
    /// The bytes of a string literal.
    Bytes(Vec<u8>),
    Array(Vec<Constant>),
    Struct(Vec<Constant>),
    /// The address of a global, moved by some bytes.
    Address { global: String, offset: i64 },
}

/// A global variable.
#[derive(Debug)]
pub struct GlobalVariable {
    pub name: String,
    pub ty: IrType,
    pub initializer: Option<Constant>,
    pub linkage: Linkage,
}

/// A global variable, as contracts see it.
pub struct GlobalModel {
    pub name: Seq<char>,
    pub ty: IrType,
    pub initializer: Option<Constant>,
    pub linkage: Linkage,
}

impl View for GlobalVariable {
    type V = GlobalModel;

    open spec fn view(&self) -> GlobalModel {
        GlobalModel {
            name: self.name@,
            ty: self.ty,
            initializer: self.initializer,
            linkage: self.linkage,
        }
    }
}

impl GlobalVariable {
    /// A global that every module can see.
    pub fn new(name: String, ty: IrType, initializer: Option<Constant>) -> (r: GlobalVariable)
        ensures
            r@ == (GlobalModel { name: name@, ty, initializer, linkage: Linkage::External }),
    {
        GlobalVariable { name, ty, initializer, linkage: Linkage::External }
    }
}

/// A function that is declared and not defined.
#[derive(Debug)]
pub struct FunctionDeclaration {
    pub name: String,
    pub return_type: IrType,
    pub params: Vec<IrType>,
    pub variadic: bool,
    pub linkage: Linkage,
}

/// The C type that a global was declared with.
#[derive(Debug)]
struct DeclaredType {
    name: String,
    c_type: CType,
}

/// The types by name; of two for one name the later counts.
spec fn by_name(s: Seq<DeclaredType>) -> Map<Seq<char>, Ty>
    decreases s.len(),
{
    if s.len() == 0 {
        Map::empty()
    } else {
        by_name(s.drop_last()).insert(s.last().name@, s.last().c_type@)
    }
}

/// A module.
#[derive(Debug)]
pub struct IrModule {
    name: String,
    globals: Vec<GlobalVariable>,
    c_types: Vec<DeclaredType>,
    pub functions: Vec<IrFunction>,
    declarations: Vec<FunctionDeclaration>,
    strings: Vec<Vec<u8>>,
    inline_asm: Vec<String>,
}

/// A module, as contracts see it.
pub struct ModuleModel {
    pub name: Seq<char>,
    pub globals: Seq<GlobalModel>,
    /// The C types of globals, by name.
    pub global_c_types: Map<Seq<char>, Ty>,
    /// The functions that are defined here.
    pub functions: Seq<IrFunction>,
    /// The functions that are only declared here.
    pub declarations: Seq<FunctionDeclaration>,
    /// The string literals, by id.
    pub strings: Seq<Seq<u8>>,
    /// The assembly that stands outside functions.
    pub inline_asm: Seq<Seq<char>>,
}

impl View for IrModule {
    type V = ModuleModel;

    closed spec fn view(&self) -> ModuleModel {
        ModuleModel {
            name: self.name@,
            globals: Seq::new(self.globals@.len(), |i: int| self.globals@[i]@),
            global_c_types: by_name(self.c_types@),
            functions: self.functions@,
            declarations: self.declarations@,
            strings: Seq::new(self.strings@.len(), |i: int| self.strings@[i]@),
            inline_asm: Seq::new(self.inline_asm@.len(), |i: int| self.inline_asm@[i]@),
        }
    }
}

/// A module with nothing in it.
pub open spec fn empty_module(name: Seq<char>) -> ModuleModel {
    ModuleModel {
        name,
        globals: Seq::empty(),
        global_c_types: Map::empty(),
        functions: Seq::empty(),
        declarations: Seq::empty(),
        strings: Seq::empty(),
        inline_asm: Seq::empty(),
    }
}

/// The first of the first `n` strings that holds `bytes`.
pub open spec fn string_id(strings: Seq<Seq<u8>>, n: int, bytes: Seq<u8>) -> Option<int>
    decreases n,
{
    if n <= 0 || n > strings.len() {
        None
    } else {
        match string_id(strings, n - 1, bytes) {
            Some(i) => Some(i),
            None => if strings[n - 1] == bytes {
                Some(n - 1)
            } else {
                None
            },
        }
    }
}

/// The strings after a literal was interned: equal ones share one place.
pub open spec fn string_interned(strings: Seq<Seq<u8>>, bytes: Seq<u8>) -> Seq<Seq<u8>> {
    match string_id(strings, strings.len() as int, bytes) {
        Some(_) => strings,
        None => strings.push(bytes),
    }
}

impl IrModule {
    /// A module with nothing in it.
    pub fn new(name: String) -> (r: IrModule)
        ensures
            r@ == empty_module(name@),
    {
        let r = IrModule {
            name,
            globals: Vec::new(),
            c_types: Vec::new(),
            functions: Vec::new(),
            declarations: Vec::new(),
            strings: Vec::new(),
            inline_asm: Vec::new(),
        };
        assert(r@.globals =~= Seq::<GlobalModel>::empty());
        assert(r@.functions =~= Seq::<IrFunction>::empty());
        assert(r@.declarations =~= Seq::<FunctionDeclaration>::empty());
        assert(r@.strings =~= Seq::<Seq<u8>>::empty());
        assert(r@.inline_asm =~= Seq::<Seq<char>>::empty());
        r
    }

    /// The name of the module.
    pub fn name(&self) -> (r: &str)
        ensures
            r@ == self@.name,
    {
        self.name.as_str()
    }

    /// The assembly outside functions.
    pub fn inline_asm(&self) -> (r: &Vec<String>)
        ensures
            r@.len() == self@.inline_asm.len(),
            forall|i: int| 0 <= i < r@.len() ==> (#[trigger] r@[i])@ == self@.inline_asm[i],
    {
        &self.inline_asm
    }

    /// The globals in the order in which they were added.
    pub fn globals(&self) -> (r: &Vec<GlobalVariable>)
        ensures
            r@.len() == self@.globals.len(),
            forall|i: int| 0 <= i < r@.len() ==> (#[trigger] r@[i])@ == self@.globals[i],
    {
        &self.globals
    }

    /// The functions that are defined here, in the order in which they were added.
    pub fn functions(&self) -> (r: &Vec<IrFunction>)
        ensures
            r@ == self@.functions,
    {
        &self.functions
    }

    /// The functions that are only declared here, in the order in which they were
    /// added.
    pub fn declarations(&self) -> (r: &Vec<FunctionDeclaration>)
        ensures
            r@ == self@.declarations,
    {
        &self.declarations
    }

    /// The C type that a global was declared with, if it is known.
    pub fn global_c_type(&self, name: &str) -> (r: Option<&CType>)
        ensures
            match r {
                Some(t) => self@.global_c_types.get(name@) == Some(t@),
                None => !self@.global_c_types.contains_key(name@),
            },
    {
        let mut i: usize = self.c_types.len();
        assert(self.c_types@.take(i as int) =~= self.c_types@);
        while i > 0
            invariant
                i <= self.c_types@.len(),
                by_name(self.c_types@).contains_key(name@) == by_name(
                    self.c_types@.take(i as int),
                ).contains_key(name@),
                by_name(self.c_types@).contains_key(name@) ==> by_name(self.c_types@)[name@]
                    == by_name(self.c_types@.take(i as int))[name@],
            decreases i,
        {
            i -= 1;
            assert(self.c_types@.take(i + 1).drop_last() =~= self.c_types@.take(i as int));
            if str_eq(self.c_types[i].name.as_str(), name) {
                return Some(&self.c_types[i].c_type);
            }
        }
        assert(self.c_types@.take(0) =~= Seq::<DeclaredType>::empty());
        None
    }

    /// How many string literals the module holds.
    pub fn string_count(&self) -> (r: usize)
        ensures
            r == self@.strings.len(),
    {
        self.strings.len()
    }

    /// Interns a string literal and returns its id.
    pub fn intern_string(&mut self, bytes: Vec<u8>) -> (r: usize)
        ensures
            final(self)@ == (ModuleModel {
                strings: string_interned(old(self)@.strings, bytes@),
                ..old(self)@
            }),
            r < final(self)@.strings.len(),
            final(self)@.strings[r as int] == bytes@,
    {
        let mut i: usize = 0;
        while i < self.strings.len()
            invariant
                i <= self.strings@.len(),
                self@ == old(self)@,
                self.strings@.len() == self@.strings.len(),
                forall|j: int|
                    #![trigger self.strings@[j]]
                    0 <= j < self.strings@.len() ==> self.strings@[j]@ == self@.strings[j],
                string_id(self@.strings, i as int, bytes@) is None,
            decreases self.strings@.len() - i,
        {
            if bytes_eq(self.strings[i].as_slice(), bytes.as_slice()) {
                proof {
                    assert(string_id(self@.strings, i + 1, bytes@) == Some(i as int));
                    lemma_string_id_stays(
                        self@.strings,
                        i + 1,
                        self@.strings.len() as int,
                        bytes@,
                    );
                }
                return i;
            }
            i += 1;
        }
        let id: usize = self.strings.len();
        self.strings.push(bytes);
        assert(self@.strings =~= old(self)@.strings.push(bytes@));
        id
    }

    /// Adds assembly that stands outside functions.
    pub fn add_inline_asm(&mut self, text: String)
        ensures
            final(self)@ == (ModuleModel {
                inline_asm: old(self)@.inline_asm.push(text@),
                ..old(self)@
            }),
    {
        self.inline_asm.push(text);
        assert(self@.inline_asm =~= old(self)@.inline_asm.push(text@));
    }

    /// Adds a function that is defined here.
    pub fn add_function(&mut self, function: IrFunction)
        ensures
            final(self)@ == (ModuleModel {
                functions: old(self)@.functions.push(function),
                ..old(self)@
            }),
    {
        self.functions.push(function);
        assert(self@.functions =~= old(self)@.functions.push(function));
    }

    /// Adds a function that is only declared here.
    pub fn add_declaration(&mut self, declaration: FunctionDeclaration)
        ensures
            final(self)@ == (ModuleModel {
                declarations: old(self)@.declarations.push(declaration),
                ..old(self)@
            }),
    {
        self.declarations.push(declaration);
        assert(self@.declarations =~= old(self)@.declarations.push(declaration));
    }

    /// Keeps the C type that a global was declared with.
    pub fn set_global_c_type(&mut self, name: String, c_type: CType)
        ensures
            final(self)@ == (ModuleModel {
                global_c_types: old(self)@.global_c_types.insert(name@, c_type@),
                ..old(self)@
            }),
    {
        self.c_types.push(DeclaredType { name, c_type });
        assert(self.c_types@.drop_last() =~= old(self).c_types@);
    }

    /// Gives names without a type the C types of the globals.
    pub(crate) fn share_c_types(&self, types: &mut StringHashMap<CType>)
        ensures
            tags_of(final(types)@) == self@.global_c_types.union_prefer_right(
                tags_of(old(types)@),
            ),
    {
        let ghost wanted = by_name(self.c_types@).union_prefer_right(tags_of(types@));
        let mut i: usize = self.c_types.len();
        assert(self.c_types@.take(i as int) =~= self.c_types@);
        while i > 0
            invariant
                i <= self.c_types@.len(),
                by_name(self.c_types@.take(i as int)).union_prefer_right(tags_of(types@)) == wanted,
            decreases i,
        {
            i -= 1;
            assert(self.c_types@.take(i + 1).drop_last() =~= self.c_types@.take(i as int));
            let d: &DeclaredType = &self.c_types[i];
            let ghost before = types@;
            let ghost earlier = by_name(self.c_types@.take(i as int));
            assert(tags_of(before).contains_key(d.name@) == before.contains_key(d.name@));
            if !types.contains_key(d.name.as_str()) {
                let t: CType = d.c_type.clone();
                let ghost model = t@;
                types.insert(own(d.name.as_str()), t);
                assert(tags_of(types@) =~= tags_of(before).insert(d.name@, model));
            }
            assert(earlier.insert(d.name@, d.c_type@).union_prefer_right(tags_of(before))
                =~= earlier.union_prefer_right(tags_of(types@)));
        }
        assert(by_name(self.c_types@.take(0)).union_prefer_right(tags_of(types@)) =~= tags_of(
            types@,
        ));
    }

    /// Adds a global.
    pub fn add_global(&mut self, global: GlobalVariable)
        ensures
            final(self)@ == (ModuleModel {
                globals: old(self)@.globals.push(global@),
                ..old(self)@
            }),
    {
        self.globals.push(global);
        assert(self@.globals =~= old(self)@.globals.push(global@));
    }
}

proof fn lemma_string_id_stays(strings: Seq<Seq<u8>>, n: int, m: int, bytes: Seq<u8>)
    requires
        0 <= n <= m <= strings.len(),
        string_id(strings, n, bytes) is Some,
    ensures
        string_id(strings, m, bytes) == string_id(strings, n, bytes),
    decreases m - n,
{
    if n < m {
        lemma_string_id_stays(strings, n, m - 1, bytes);
    }
}

} // verus!
