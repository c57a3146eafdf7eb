//! What the lowering of one translation unit works on.

use crate::common::diagnostics::{DiagnosticEngine, DiagnosticModel};
use crate::common::source_map::SourceMap;
use crate::common::target::Target;
use crate::common::text::{bytes_eq, own};
use crate::common::type_builder::TypeBuilder;
use crate::common::types::CType;
use crate::frontend::sema::symbol_table::SymbolTable;
use crate::ir::builder::IrBuilder;
use crate::ir::function::IrFunction;
use crate::ir::instructions::{BlockId, Value};
use crate::ir::lowering::error::LoweringError;
use crate::ir::module::{string_interned, IrModule, ModuleModel};
use crate::ir::types::{lowers_to, IrType};
use vstd::hash_map::StringHashMap;
use vstd::prelude::*;

verus! {

/// How deeply lowered constructs may nest.
pub const DEFAULT_MAX_RECURSION_DEPTH: u32 = 512;

/// The labels of a switch that is being lowered.
#[derive(Debug)]
pub struct SwitchContext {
    /// Where control goes behind the switch.
    pub exit_block: BlockId,
    /// The case values and the blocks that they lead to.
    pub cases: Vec<(i128, BlockId)>,
    pub default_block: Option<BlockId>,
    /// The value that is switched on.
    pub condition: Value,
}

/// What the lowering of one translation unit works on.
pub struct LoweringContext<'a> {
    pub builder: IrBuilder,
    pub module: &'a mut IrModule,
    /// Where the variables of the current function live.
    pub local_vars: StringHashMap<Value>,
    pub symbol_table: &'a SymbolTable,
    pub target: Target,
    pub type_builder: &'a TypeBuilder,
    pub source_map: &'a SourceMap,
    pub diagnostics: &'a mut DiagnosticEngine,
    /// The function that is being lowered.
    pub current_function: Option<IrFunction>,
    pub recursion_depth: u32,
    pub max_recursion_depth: u32,
    /// The blocks that labels stand for.
    pub label_targets: StringHashMap<BlockId>,
    /// The jumps to labels that were not seen yet: a block, and the place of the
    /// jump in it.
    pub pending_gotos: StringHashMap<Vec<(BlockId, usize)>>,
    /// The values of the string literals that were seen.
    pub string_literal_pool: Vec<(Vec<u8>, Value)>,
    pub break_targets: Vec<BlockId>,
    pub continue_targets: Vec<BlockId>,
    pub switch_context: Option<SwitchContext>,
}

/// The lowering context, as contracts see it.
pub struct ContextModel {
    /// The number of the value that comes next.
    pub next_value: u32,
    pub module: ModuleModel,
    pub local_vars: Map<Seq<char>, Value>,
    pub target: Target,
    pub recursion_depth: u32,
    pub max_recursion_depth: u32,
    pub label_targets: Map<Seq<char>, BlockId>,
    pub pending_gotos: Map<Seq<char>, Seq<(BlockId, usize)>>,
    pub string_literals: Seq<(Seq<u8>, Value)>,
    pub break_targets: Seq<BlockId>,
    pub continue_targets: Seq<BlockId>,
    pub current_function: Option<IrFunction>,
    pub switch_context: Option<SwitchContext>,
    pub log: Seq<DiagnosticModel>,
    pub symbol_table: SymbolTable,
    pub type_builder: TypeBuilder,
    pub source_map: SourceMap,
}

/// The model of the jumps to labels that were not seen yet.
pub open spec fn gotos_of(m: Map<Seq<char>, Vec<(BlockId, usize)>>) -> Map<
    Seq<char>,
    Seq<(BlockId, usize)>,
> {
    m.map_values(|v: Vec<(BlockId, usize)>| v@)
}

/// The model of a pool of string literals.
pub open spec fn literals_of(s: Seq<(Vec<u8>, Value)>) -> Seq<(Seq<u8>, Value)> {
    s.map_values(|e: (Vec<u8>, Value)| (e.0@, e.1))
}

impl<'a> View for LoweringContext<'a> {
    type V = ContextModel;

    open spec fn view(&self) -> ContextModel {
        ContextModel {
            next_value: self.builder@,
            module: self.module@,
            local_vars: self.local_vars@,
            target: self.target,
            recursion_depth: self.recursion_depth,
            max_recursion_depth: self.max_recursion_depth,
            label_targets: self.label_targets@,
            pending_gotos: gotos_of(self.pending_gotos@),
            string_literals: literals_of(self.string_literal_pool@),
            break_targets: self.break_targets@,
            continue_targets: self.continue_targets@,
            current_function: self.current_function,
            switch_context: self.switch_context,
            log: self.diagnostics@,
            symbol_table: *self.symbol_table,
            type_builder: *self.type_builder,
            source_map: *self.source_map,
        }
    }
}

/// The context one level of nesting deeper.
pub open spec fn recursion_entered(c: ContextModel) -> ContextModel {
    ContextModel { recursion_depth: (c.recursion_depth + 1) as u32, ..c }
}

/// The context one level of nesting less deep; the outermost is never left.
pub open spec fn recursion_left(c: ContextModel) -> ContextModel {
    ContextModel {
        recursion_depth: if c.recursion_depth == 0 {
            0
        } else {
            (c.recursion_depth - 1) as u32
        },
        ..c
    }
}

/// Leaving a level of nesting that was entered gives back the context of before.
pub proof fn lemma_recursion_nests(c: ContextModel)
    requires
        c.recursion_depth < u32::MAX,
    ensures
        recursion_left(recursion_entered(c)) == c,
{
}

/// The context after a variable was given its place.
pub open spec fn variable_set(c: ContextModel, name: Seq<char>, alloca: Value) -> ContextModel {
    ContextModel { local_vars: c.local_vars.insert(name, alloca), ..c }
}

/// Where a variable lives, if it is known.
pub open spec fn variable_in(c: ContextModel, name: Seq<char>) -> Option<Value> {
    c.local_vars.get(name)
}

/// A variable lives where it was put last, and to put one moves no other.
pub proof fn lemma_variable_is_found(
    c: ContextModel,
    name: Seq<char>,
    alloca: Value,
    other: Seq<char>,
)
    ensures
        variable_in(variable_set(c, name, alloca), name) == Some(alloca),
        other != name ==> variable_in(variable_set(c, name, alloca), other) == variable_in(
            c,
            other,
        ),
{
}

/// The jumps to a label that were seen before it.
pub open spec fn jumps_to(c: ContextModel, name: Seq<char>) -> Seq<(BlockId, usize)> {
    if c.pending_gotos.contains_key(name) {
        c.pending_gotos[name]
    } else {
        Seq::empty()
    }
}

/// The context after the jumps to a label were taken out.
pub open spec fn jumps_taken(c: ContextModel, name: Seq<char>) -> ContextModel {
    ContextModel { pending_gotos: c.pending_gotos.remove(name), ..c }
}

/// Jumps are taken out once, and those to other labels stay.
pub proof fn lemma_jumps_taken_once(c: ContextModel, name: Seq<char>, other: Seq<char>)
    ensures
        jumps_to(jumps_taken(c, name), name) == Seq::<(BlockId, usize)>::empty(),
        other != name ==> jumps_to(jumps_taken(c, name), other) == jumps_to(c, other),
{
}

/// The value of a string literal among the first `n` of a pool.
pub open spec fn pooled(pool: Seq<(Seq<u8>, Value)>, n: int, bytes: Seq<u8>) -> Option<Value>
    decreases n,
{
    if n <= 0 || n > pool.len() {
        None
    } else {
        match pooled(pool, n - 1, bytes) {
            Some(v) => Some(v),
            None => if pool[n - 1].0 == bytes {
                Some(pool[n - 1].1)
            } else {
                None
            },
        }
    }
}

/// The value of a string literal, if it was seen.
pub open spec fn literal_value(c: ContextModel, bytes: Seq<u8>) -> Option<Value> {
    pooled(c.string_literals, c.string_literals.len() as int, bytes)
}

/// The context after a string literal was interned: one that was not seen yet
/// goes to the module and gets a value of its own.
pub open spec fn literal_interned(c: ContextModel, bytes: Seq<u8>) -> ContextModel {
    match literal_value(c, bytes) {
        Some(_) => c,
        None => ContextModel {
            next_value: c.next_value.wrapping_add(1),
            module: ModuleModel {
                strings: string_interned(c.module.strings, bytes),
                ..c.module
            },
            string_literals: c.string_literals.push((bytes, Value(c.next_value))),
            ..c
        },
    }
}

proof fn lemma_pooled_stays(pool: Seq<(Seq<u8>, Value)>, n: int, m: int, bytes: Seq<u8>)
    requires
        0 <= n <= m <= pool.len(),
        pooled(pool, n, bytes) is Some,
    ensures
        pooled(pool, m, bytes) == pooled(pool, n, bytes),
    decreases m - n,
{
    if n < m {
        lemma_pooled_stays(pool, n, m - 1, bytes);
    }
}

proof fn lemma_pooled_prefix(
    pool: Seq<(Seq<u8>, Value)>,
    more: Seq<(Seq<u8>, Value)>,
    n: int,
    bytes: Seq<u8>,
)
    requires
        0 <= n <= pool.len() <= more.len(),
        forall|i: int| 0 <= i < pool.len() ==> more[i] == #[trigger] pool[i],
    ensures
        pooled(more, n, bytes) == pooled(pool, n, bytes),
    decreases n,
{
    if n > 0 {
        lemma_pooled_prefix(pool, more, n - 1, bytes);
        assert(more[n - 1] == pool[n - 1]);
    }
}

/// Once a string literal was interned, it has a value, and to intern it again
/// changes nothing.
pub proof fn lemma_literal_interned_once(c: ContextModel, bytes: Seq<u8>)
    ensures
        literal_value(literal_interned(c, bytes), bytes) is Some,
        literal_interned(literal_interned(c, bytes), bytes) == literal_interned(c, bytes),
{
    let n = c.string_literals.len() as int;
    if literal_value(c, bytes) is None {
        let more = c.string_literals.push((bytes, Value(c.next_value)));
        lemma_pooled_prefix(c.string_literals, more, n, bytes);
        assert(pooled(more, n + 1, bytes) is Some);
    }
}

/// To intern one string literal leaves the value of every other as it was.
pub proof fn lemma_other_literals_stay(c: ContextModel, bytes: Seq<u8>, other: Seq<u8>)
    requires
        other != bytes,
    ensures
        literal_value(literal_interned(c, bytes), other) == literal_value(c, other),
{
    let n = c.string_literals.len() as int;
    if literal_value(c, bytes) is None {
        let more = c.string_literals.push((bytes, Value(c.next_value)));
        lemma_pooled_prefix(c.string_literals, more, n, other);
        if pooled(more, n, other) is Some {
            lemma_pooled_stays(more, n, n + 1, other);
        }
    }
}

/// The number of a value.
pub open spec fn number_of(v: Value) -> u32 {
    v.0
}

/// Whether every string literal has a value of its own: each value in the pool came
/// before the next one, and no two entries share one. This holds of a new context,
/// and for as long as the numbers of values have not started again.
pub open spec fn literals_are_settled(c: ContextModel) -> bool {
    &&& forall|i: int|
        0 <= i < c.string_literals.len() ==> number_of((#[trigger] c.string_literals[i]).1)
            < c.next_value
    &&& forall|i: int, j: int|
        #![trigger c.string_literals[i], c.string_literals[j]]
        0 <= i < j < c.string_literals.len() ==> c.string_literals[i].1 != c.string_literals[j].1
}

proof fn lemma_pooled_entry(pool: Seq<(Seq<u8>, Value)>, n: int, bytes: Seq<u8>) -> (i: int)
    requires
        pooled(pool, n, bytes) is Some,
    ensures
        0 <= i < n <= pool.len(),
        pool[i] == (bytes, pooled(pool, n, bytes)->0),
    decreases n,
{
    if pooled(pool, n - 1, bytes) is Some {
        lemma_pooled_entry(pool, n - 1, bytes)
    } else {
        n - 1
    }
}

/// To intern a string literal leaves every literal a value of its own.
pub proof fn lemma_interning_settles(c: ContextModel, bytes: Seq<u8>)
    requires
        literals_are_settled(c),
        c.next_value < u32::MAX,
    ensures
        literals_are_settled(literal_interned(c, bytes)),
{
    let d = literal_interned(c, bytes);
    if literal_value(c, bytes) is None {
        assert(forall|i: int|
            0 <= i < c.string_literals.len() ==> d.string_literals[i]
                == #[trigger] c.string_literals[i]);
    }
}

/// Different string literals have different values.
pub proof fn lemma_different_literals_differ(c: ContextModel, a: Seq<u8>, b: Seq<u8>)
    requires
        literals_are_settled(c),
        a != b,
        literal_value(c, a) is Some,
        literal_value(c, b) is Some,
    ensures
        literal_value(c, a) != literal_value(c, b),
{
    let n = c.string_literals.len() as int;
    let i = lemma_pooled_entry(c.string_literals, n, a);
    let j = lemma_pooled_entry(c.string_literals, n, b);
    assert(c.string_literals[i].0 == a && c.string_literals[j].0 == b);
    if i < j {
        assert(c.string_literals[i].1 != c.string_literals[j].1);
    } else {
        assert(c.string_literals[j].1 != c.string_literals[i].1);
    }
}

/// Two string literals that are interned one after the other, whatever was interned
/// before: the second has the value of the first exactly if they are equal, and the
/// first keeps its value. An equal one changes nothing.
pub proof fn lemma_two_literals(c: ContextModel, a: Seq<u8>, b: Seq<u8>)
    requires
        literals_are_settled(c),
        c.next_value + 1 < u32::MAX,
    ensures
        ({
            let first = literal_interned(c, a);
            let second = literal_interned(first, b);
            &&& literal_value(first, a) is Some
            &&& literal_value(second, b) is Some
            &&& literal_value(second, a) == literal_value(first, a)
            &&& (literal_value(second, b) == literal_value(first, a)) == (a == b)
            &&& a == b ==> second == first
        }),
{
    let first = literal_interned(c, a);
    lemma_literal_interned_once(c, a);
    lemma_literal_interned_once(first, b);
    lemma_interning_settles(c, a);
    lemma_interning_settles(first, b);
    if a != b {
        lemma_other_literals_stay(first, b, a);
        lemma_different_literals_differ(literal_interned(first, b), a, b);
    }
}

impl<'a> LoweringContext<'a> {
    /// A context in which nothing was lowered yet.
    pub fn new(
        module: &'a mut IrModule,
        symbol_table: &'a SymbolTable,
        target: Target,
        type_builder: &'a TypeBuilder,
        source_map: &'a SourceMap,
        diagnostics: &'a mut DiagnosticEngine,
    ) -> (r: LoweringContext<'a>)
        ensures
            r@ == (ContextModel {
                next_value: 0,
                module: old(module)@,
                local_vars: Map::empty(),
                target,
                recursion_depth: 0,
                max_recursion_depth: DEFAULT_MAX_RECURSION_DEPTH,
                label_targets: Map::empty(),
                pending_gotos: Map::empty(),
                string_literals: Seq::empty(),
                break_targets: Seq::empty(),
                continue_targets: Seq::empty(),
                current_function: None,
                switch_context: None,
                log: old(diagnostics)@,
                symbol_table: *symbol_table,
                type_builder: *type_builder,
                source_map: *source_map,
            }),
            literals_are_settled(r@),
            *final(r.module) == *final(module),
            *final(r.diagnostics) == *final(diagnostics),
    {
        let r = LoweringContext {
            builder: IrBuilder::new(),
            module,
            local_vars: StringHashMap::new(),
            symbol_table,
            target,
            type_builder,
            source_map,
            diagnostics,
            current_function: None,
            recursion_depth: 0,
            max_recursion_depth: DEFAULT_MAX_RECURSION_DEPTH,
            label_targets: StringHashMap::new(),
            pending_gotos: StringHashMap::new(),
            string_literal_pool: Vec::new(),
            break_targets: Vec::new(),
            continue_targets: Vec::new(),
            switch_context: None,
        };
        assert(r@.pending_gotos =~= Map::empty());
        assert(r@.string_literals =~= Seq::empty());
        r
    }

    /// Enters one level of nesting; beyond the limit that is an error, and the
    /// level counts all the same.
    pub fn enter_recursion(&mut self) -> (r: Result<(), LoweringError>)
        requires
            old(self).recursion_depth < u32::MAX,
        ensures
            final(self)@ == recursion_entered(old(self)@),
            match r {
                Ok(_) => old(self)@.recursion_depth < old(self)@.max_recursion_depth,
                Err(e) => old(self)@.recursion_depth >= old(self)@.max_recursion_depth && e
                    == (LoweringError::RecursionLimitExceeded {
                    limit: old(self)@.max_recursion_depth,
                }),
            },
            *final(final(self).module) == *final(old(self).module),
            *final(final(self).diagnostics) == *final(old(self).diagnostics),
    {
        self.recursion_depth = self.recursion_depth + 1;
        if self.recursion_depth > self.max_recursion_depth {
            return Err(
                LoweringError::RecursionLimitExceeded { limit: self.max_recursion_depth },
            );
        }
        Ok(())
    }

    /// Leaves one level of nesting; at the outermost it stays.
    pub fn exit_recursion(&mut self)
        ensures
            final(self)@ == recursion_left(old(self)@),
            *final(final(self).module) == *final(old(self).module),
            *final(final(self).diagnostics) == *final(old(self).diagnostics),
    {
        self.recursion_depth = self.recursion_depth.saturating_sub(1);
    }

    /// Where a variable lives, if it is known.
    pub fn get_variable(&self, name: &str) -> (r: Option<Value>)
        ensures
            r == variable_in(self@, name@),
    {
        match self.local_vars.get(name) {
            Some(v) => Some(*v),
            None => None,
        }
    }

    /// Notes where a variable lives; one of the same name is replaced.
    pub fn set_variable(&mut self, name: String, alloca: Value)
        ensures
            final(self)@ == variable_set(old(self)@, name@, alloca),
            *final(final(self).module) == *final(old(self).module),
            *final(final(self).diagnostics) == *final(old(self).diagnostics),
    {
        self.local_vars.insert(name, alloca);
    }

    /// What a C type becomes on the target of the context.
    pub fn ctype_to_irtype(&self, ctype: &CType) -> (r: IrType)
        ensures
            lowers_to(ctype@, self@.target, r),
    {
        IrType::from_ctype(ctype, self.target)
    }

    /// Interns a string literal and returns its value. Equal literals share one
    /// value and one place in the module.
    pub fn intern_string_literal(&mut self, bytes: &[u8]) -> (r: Value)
        ensures
            final(self)@ == literal_interned(old(self)@, bytes@),
            Some(r) == literal_value(final(self)@, bytes@),
            literals_are_settled(old(self)@) && old(self)@.next_value < u32::MAX
                ==> literals_are_settled(final(self)@),
            *final(final(self).module) == *final(old(self).module),
            *final(final(self).diagnostics) == *final(old(self).diagnostics),
    {
        let ghost c = self@;
        proof {
            if literals_are_settled(c) && c.next_value < u32::MAX {
                lemma_interning_settles(c, bytes@);
            }
        }
        let mut i: usize = 0;
        #[verifier::loop_isolation(false)]
        while i < self.string_literal_pool.len()
            invariant
                i <= self.string_literal_pool@.len(),
                pooled(c.string_literals, i as int, bytes@) is None,
            decreases self.string_literal_pool@.len() - i,
        {
            assert(c.string_literals[i as int].0 == self.string_literal_pool@[i as int].0@);
            if bytes_eq(self.string_literal_pool[i].0.as_slice(), bytes) {
                proof {
                    assert(pooled(c.string_literals, i + 1, bytes@) == Some(
                        self.string_literal_pool@[i as int].1,
                    ));
                    lemma_pooled_stays(
                        c.string_literals,
                        i + 1,
                        c.string_literals.len() as int,
                        bytes@,
                    );
                }
                return self.string_literal_pool[i].1;
            }
            i += 1;
        }
        let _string_id: usize = self.module.intern_string(copy_bytes(bytes));
        let val: Value = self.builder.fresh_value();
        let ghost before = self.string_literal_pool@;
        self.string_literal_pool.push((copy_bytes(bytes), val));
        assert(literals_of(self.string_literal_pool@) =~= literals_of(before).push((bytes@, val)));
        proof {
            lemma_pooled_prefix(
                c.string_literals,
                self@.string_literals,
                c.string_literals.len() as int,
                bytes@,
            );
        }
        val
    }

    /// Notes the block that a label stands for.
    pub fn register_label(&mut self, name: &str, target_block: BlockId)
        ensures
            final(self)@ == (ContextModel {
                label_targets: old(self)@.label_targets.insert(name@, target_block),
                ..old(self)@
            }),
            *final(final(self).module) == *final(old(self).module),
            *final(final(self).diagnostics) == *final(old(self).diagnostics),
    {
        self.label_targets.insert(own(name), target_block);
    }

    /// Takes out the jumps to a label that were seen before it.
    pub fn resolve_pending_gotos(&mut self, name: &str) -> (r: Vec<(BlockId, usize)>)
        ensures
            final(self)@ == jumps_taken(old(self)@, name@),
            r@ == jumps_to(old(self)@, name@),
            *final(final(self).module) == *final(old(self).module),
            *final(final(self).diagnostics) == *final(old(self).diagnostics),
    {
        let jumps: Vec<(BlockId, usize)> = match self.pending_gotos.get(name) {
            Some(v) => copy_gotos(v),
            None => Vec::new(),
        };
        let ghost before = self.pending_gotos@;
        self.pending_gotos.remove(name);
        assert(gotos_of(self.pending_gotos@) =~= gotos_of(before).remove(name@));
        jumps
    }

    /// Enters a loop or a switch that `break` leaves for `target`.
    pub fn push_break_target(&mut self, target: BlockId)
        ensures
            final(self)@ == (ContextModel {
                break_targets: old(self)@.break_targets.push(target),
                ..old(self)@
            }),
            *final(final(self).module) == *final(old(self).module),
            *final(final(self).diagnostics) == *final(old(self).diagnostics),
    {
        self.break_targets.push(target);
    }

    /// Leaves the innermost loop or switch and returns its target.
    pub fn pop_break_target(&mut self) -> (r: Option<BlockId>)
        ensures
            final(self)@ == (ContextModel {
                break_targets: popped(old(self)@.break_targets),
                ..old(self)@
            }),
            r == top(old(self)@.break_targets),
            *final(final(self).module) == *final(old(self).module),
            *final(final(self).diagnostics) == *final(old(self).diagnostics),
    {
        self.break_targets.pop()
    }

    /// Enters a loop in which `continue` goes to `target`.
    pub fn push_continue_target(&mut self, target: BlockId)
        ensures
            final(self)@ == (ContextModel {
                continue_targets: old(self)@.continue_targets.push(target),
                ..old(self)@
            }),
            *final(final(self).module) == *final(old(self).module),
            *final(final(self).diagnostics) == *final(old(self).diagnostics),
    {
        self.continue_targets.push(target);
    }

    /// Leaves the innermost loop and returns its target.
    pub fn pop_continue_target(&mut self) -> (r: Option<BlockId>)
        ensures
            final(self)@ == (ContextModel {
                continue_targets: popped(old(self)@.continue_targets),
                ..old(self)@
            }),
            r == top(old(self)@.continue_targets),
            *final(final(self).module) == *final(old(self).module),
            *final(final(self).diagnostics) == *final(old(self).diagnostics),
    {
        self.continue_targets.pop()
    }
}

/// The last of a stack, if it has one.
pub open spec fn top(s: Seq<BlockId>) -> Option<BlockId> {
    if s.len() == 0 {
        None
    } else {
        Some(s.last())
    }
}

/// A stack without its last.
pub open spec fn popped(s: Seq<BlockId>) -> Seq<BlockId> {
    if s.len() == 0 {
        s
    } else {
        s.drop_last()
    }
}

/// Leaving what was entered gives back the target and the stack of before.
pub proof fn lemma_targets_nest(s: Seq<BlockId>, target: BlockId)
    ensures
        top(s.push(target)) == Some(target),
        popped(s.push(target)) == s,
{
    assert(s.push(target).drop_last() =~= s);
}

fn copy_bytes(bytes: &[u8]) -> (r: Vec<u8>)
    ensures
        r@ == bytes@,
{
    let mut out: Vec<u8> = Vec::new();
    let mut i: usize = 0;
    while i < bytes.len()
        invariant
            i <= bytes@.len(),
            out@ == bytes@.take(i as int),
        decreases bytes@.len() - i,
    {
        out.push(bytes[i]);
        i += 1;
        assert(out@ =~= bytes@.take(i as int));
    }
    assert(out@ =~= bytes@);
    out
}

fn copy_gotos(v: &Vec<(BlockId, usize)>) -> (r: Vec<(BlockId, usize)>)
    ensures
        r@ == v@,
{
    let mut out: Vec<(BlockId, usize)> = Vec::new();
    let mut i: usize = 0;
    while i < v.len()
        invariant
            i <= v@.len(),
            out@ == v@.take(i as int),
        decreases v@.len() - i,
    {
        out.push(v[i]);
        i += 1;
        assert(out@ =~= v@.take(i as int));
    }
    assert(out@ =~= v@);
    out
}

} // verus!
