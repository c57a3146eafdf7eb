//! Integer constant expressions that need no types: array designators,
//! enumerator values and bit-field widths.

use crate::common::string_interner::{text_of, Interner};
use crate::frontend::parser::ast::{
    BinaryOp, Designator, DesignatedInitializer, Expression, Initializer, StringSegment, UnaryOp,
};
use crate::frontend::sema::analyzer::SemanticAnalyzer;
use vstd::hash_map::StringHashMap;
use vstd::prelude::*;

verus! {

/// 1 for true and 0 for false.
pub open spec fn truth(b: bool) -> i128 {
    if b {
        1
    } else {
        0
    }
}

/// Quotient, rounded towards zero; the one that does not fit wraps round.
pub open spec fn quotient(l: i128, r: i128) -> Option<i128> {
    if r == 0 {
        None
    } else {
        match l.checked_div(r) {
            Some(q) => Some(q),
            None => Some(l),
        }
    }
}

/// Remainder, with the sign of the dividend.
pub open spec fn remainder(l: i128, r: i128) -> Option<i128> {
    if r == 0 {
        None
    } else {
        match l.checked_rem(r) {
            Some(q) => Some(q),
            None => Some(0),
        }
    }
}

/// Value of an arithmetic, shift or bitwise operation; `None` for a comparison
/// or a logical one. Results wrap round at 128 bits.
pub open spec fn arithmetic(op: BinaryOp, l: i128, r: i128) -> Option<i128> {
    match op {
        BinaryOp::Add => Some(l.wrapping_add(r)),
        BinaryOp::Sub => Some(l.wrapping_sub(r)),
        BinaryOp::Mul => Some(l.wrapping_mul(r)),
        BinaryOp::Div => quotient(l, r),
        BinaryOp::Mod => remainder(l, r),
        BinaryOp::ShiftLeft => Some(l.wrapping_shl(r as u32)),
        BinaryOp::ShiftRight => Some(l.wrapping_shr(r as u32)),
        BinaryOp::BitwiseAnd => Some(l & r),
        BinaryOp::BitwiseOr => Some(l | r),
        BinaryOp::BitwiseXor => Some(l ^ r),
        _ => None,
    }
}

/// Value of any binary operation.
pub open spec fn operation(op: BinaryOp, l: i128, r: i128) -> Option<i128> {
    match op {
        BinaryOp::LogicalAnd => Some(truth(l != 0 && r != 0)),
        BinaryOp::LogicalOr => Some(truth(l != 0 || r != 0)),
        BinaryOp::Equal => Some(truth(l == r)),
        BinaryOp::NotEqual => Some(truth(l != r)),
        BinaryOp::Less => Some(truth(l < r)),
        BinaryOp::Greater => Some(truth(l > r)),
        BinaryOp::LessEqual => Some(truth(l <= r)),
        BinaryOp::GreaterEqual => Some(truth(l >= r)),
        _ => arithmetic(op, l, r),
    }
}

/// Value of a prefix operation.
pub open spec fn prefix_operation(op: UnaryOp, v: i128) -> Option<i128> {
    match op {
        UnaryOp::Negate => Some(0i128.wrapping_sub(v)),
        UnaryOp::BitwiseNot => Some(!v),
        UnaryOp::LogicalNot => Some(truth(v == 0)),
        UnaryOp::Plus => Some(v),
        _ => None,
    }
}

/// Value of an arithmetic, shift or bitwise operation.
pub fn eval_arithmetic(op: BinaryOp, l: i128, r: i128) -> (v: Option<i128>)
    ensures
        v == arithmetic(op, l, r),
{
    match op {
        BinaryOp::Add => Some(l.wrapping_add(r)),
        BinaryOp::Sub => Some(l.wrapping_sub(r)),
        BinaryOp::Mul => Some(l.wrapping_mul(r)),
        BinaryOp::Div => if r == 0 {
            None
        } else {
            match l.checked_div(r) {
                Some(q) => Some(q),
                None => Some(l),
            }
        },
        BinaryOp::Mod => if r == 0 {
            None
        } else {
            match l.checked_rem(r) {
                Some(q) => Some(q),
                None => Some(0),
            }
        },
        BinaryOp::ShiftLeft => Some(l.wrapping_shl(r as u32)),
        BinaryOp::ShiftRight => Some(l.wrapping_shr(r as u32)),
        BinaryOp::BitwiseAnd => Some(l & r),
        BinaryOp::BitwiseOr => Some(l | r),
        BinaryOp::BitwiseXor => Some(l ^ r),
        _ => None,
    }
}

fn eval_truth(b: bool) -> (v: i128)
    ensures
        v == truth(b),
{
    if b {
        1
    } else {
        0
    }
}

/// Value of any binary operation.
pub fn eval_operation(op: BinaryOp, l: i128, r: i128) -> (v: Option<i128>)
    ensures
        v == operation(op, l, r),
{
    match op {
        BinaryOp::LogicalAnd => Some(eval_truth(l != 0 && r != 0)),
        BinaryOp::LogicalOr => Some(eval_truth(l != 0 || r != 0)),
        BinaryOp::Equal => Some(eval_truth(l == r)),
        BinaryOp::NotEqual => Some(eval_truth(l != r)),
        BinaryOp::Less => Some(eval_truth(l < r)),
        BinaryOp::Greater => Some(eval_truth(l > r)),
        BinaryOp::LessEqual => Some(eval_truth(l <= r)),
        BinaryOp::GreaterEqual => Some(eval_truth(l >= r)),
        _ => eval_arithmetic(op, l, r),
    }
}

/// Value of a prefix operation.
pub fn eval_prefix(op: UnaryOp, v: i128) -> (r: Option<i128>)
    ensures
        r == prefix_operation(op, v),
{
    match op {
        UnaryOp::Negate => Some(0i128.wrapping_sub(v)),
        UnaryOp::BitwiseNot => Some(!v),
        UnaryOp::LogicalNot => Some(eval_truth(v == 0)),
        UnaryOp::Plus => Some(v),
        _ => None,
    }
}

/// Value of an array index in a designator: literals, enumeration constants,
/// casts, and arithmetic on these.
pub open spec fn index_value(
    e: Expression,
    enums: Map<Seq<char>, i128>,
    names: Seq<Seq<char>>,
) -> Option<i128>
    decreases e,
{
    match e {
        Expression::IntegerLiteral { value, .. } => Some(value as i128),
        Expression::Cast { operand, .. } => index_value(*operand, enums, names),
        Expression::Parenthesized { inner, .. } => index_value(*inner, enums, names),
        Expression::Identifier { name, .. } => enums.get(text_of(names, name)),
        Expression::UnaryOp { op, operand, .. } => match index_value(*operand, enums, names) {
            Some(v) => prefix_operation(op, v),
            None => None,
        },
        Expression::Binary { op, left, right, .. } => match (
            index_value(*left, enums, names),
            index_value(*right, enums, names),
        ) {
            (Some(l), Some(r)) => arithmetic(op, l, r),
            _ => None,
        },
        _ => None,
    }
}

/// Value of an explicit enumerator: as for an index, and also characters,
/// comparisons, logical operations and conditionals.
pub open spec fn enumerator_value(
    e: Expression,
    enums: Map<Seq<char>, i128>,
    names: Seq<Seq<char>>,
) -> Option<i128>
    decreases e,
{
    match e {
        Expression::IntegerLiteral { value, .. } => Some(value as i128),
        Expression::CharLiteral { value, .. } => Some(value as i128),
        Expression::Identifier { name, .. } => enums.get(text_of(names, name)),
        Expression::Parenthesized { inner, .. } => enumerator_value(*inner, enums, names),
        Expression::UnaryOp { op, operand, .. } => match enumerator_value(*operand, enums, names) {
            Some(v) => prefix_operation(op, v),
            None => None,
        },
        Expression::Binary { op, left, right, .. } => match (
            enumerator_value(*left, enums, names),
            enumerator_value(*right, enums, names),
        ) {
            (Some(l), Some(r)) => operation(op, l, r),
            _ => None,
        },
        Expression::Cast { operand, .. } => enumerator_value(*operand, enums, names),
        Expression::Conditional { condition, then_expr, else_expr, .. } => match enumerator_value(
            *condition,
            enums,
            names,
        ) {
            None => None,
            Some(c) => if c != 0 {
                match then_expr {
                    Some(t) => enumerator_value(*t, enums, names),
                    None => Some(c),
                }
            } else {
                enumerator_value(*else_expr, enums, names)
            },
        },
        _ => None,
    }
}

/// Width of a bit-field; 0 for an expression that is not evaluated here.
pub open spec fn bitfield_width(e: Expression) -> u32
    decreases e,
{
    match e {
        Expression::IntegerLiteral { value, .. } => value as u32,
        Expression::Parenthesized { inner, .. } => bitfield_width(*inner),
        Expression::UnaryOp { op, operand, .. } => if op == UnaryOp::Plus {
            bitfield_width(*operand)
        } else {
            0
        },
        Expression::Binary { op, left, right, .. } => match op {
            BinaryOp::Add => bitfield_width(*left).wrapping_add(bitfield_width(*right)),
            BinaryOp::Sub => bitfield_width(*left).wrapping_sub(bitfield_width(*right)),
            BinaryOp::Mul => bitfield_width(*left).wrapping_mul(bitfield_width(*right)),
            _ => 0,
        },
        Expression::Cast { operand, .. } => bitfield_width(*operand),
        _ => 0,
    }
}

/// Value of an array index in a designator.
pub fn try_eval_index_expr(
    expr: &Expression,
    enum_values: &StringHashMap<i128>,
    interner: &Interner,
) -> (r: Option<i128>)
    ensures
        r == index_value(*expr, enum_values@, interner@),
    decreases expr,
{
    match expr {
        Expression::IntegerLiteral { value, .. } => Some(*value as i128),
        Expression::Cast { operand, .. } => try_eval_index_expr(operand, enum_values, interner),
        Expression::Parenthesized { inner, .. } => try_eval_index_expr(
            inner,
            enum_values,
            interner,
        ),
        Expression::Identifier { name, .. } => match enum_values.get(interner.resolve(*name)) {
            Some(v) => Some(*v),
            None => None,
        },
        Expression::UnaryOp { op, operand, .. } => match try_eval_index_expr(
            operand,
            enum_values,
            interner,
        ) {
            Some(v) => eval_prefix(*op, v),
            None => None,
        },
        Expression::Binary { op, left, right, .. } => {
            let l: Option<i128> = try_eval_index_expr(left, enum_values, interner);
            let r: Option<i128> = try_eval_index_expr(right, enum_values, interner);
            match (l, r) {
                (Some(x), Some(y)) => eval_arithmetic(*op, x, y),
                _ => None,
            }
        },
        _ => None,
    }
}

/// Value of an explicit enumerator.
pub fn eval_enumerator(
    expr: &Expression,
    enum_values: &StringHashMap<i128>,
    interner: &Interner,
) -> (r: Option<i128>)
    ensures
        r == enumerator_value(*expr, enum_values@, interner@),
    decreases expr,
{
    match expr {
        Expression::IntegerLiteral { value, .. } => Some(*value as i128),
        Expression::CharLiteral { value, .. } => Some(*value as i128),
        Expression::Identifier { name, .. } => match enum_values.get(interner.resolve(*name)) {
            Some(v) => Some(*v),
            None => None,
        },
        Expression::Parenthesized { inner, .. } => eval_enumerator(inner, enum_values, interner),
        Expression::UnaryOp { op, operand, .. } => match eval_enumerator(
            operand,
            enum_values,
            interner,
        ) {
            Some(v) => eval_prefix(*op, v),
            None => None,
        },
        Expression::Binary { op, left, right, .. } => {
            let l: Option<i128> = eval_enumerator(left, enum_values, interner);
            let r: Option<i128> = eval_enumerator(right, enum_values, interner);
            match (l, r) {
                (Some(x), Some(y)) => eval_operation(*op, x, y),
                _ => None,
            }
        },
        Expression::Cast { operand, .. } => eval_enumerator(operand, enum_values, interner),
        Expression::Conditional { condition, then_expr, else_expr, .. } => {
            match eval_enumerator(condition, enum_values, interner) {
                None => None,
                Some(c) => if c != 0 {
                    match then_expr {
                        Some(t) => eval_enumerator(t, enum_values, interner),
                        None => Some(c),
                    }
                } else {
                    eval_enumerator(else_expr, enum_values, interner)
                },
            }
        },
        _ => None,
    }
}

/// Width of a bit-field.
pub fn eval_bitfield_width(expr: &Expression) -> (r: u32)
    ensures
        r == bitfield_width(*expr),
    decreases expr,
{
    match expr {
        Expression::IntegerLiteral { value, .. } => *value as u32,
        Expression::Parenthesized { inner, .. } => eval_bitfield_width(inner),
        Expression::UnaryOp { op, operand, .. } => if *op == UnaryOp::Plus {
            eval_bitfield_width(operand)
        } else {
            0
        },
        Expression::Binary { op, left, right, .. } => {
            let l: u32 = eval_bitfield_width(left);
            let r: u32 = eval_bitfield_width(right);
            match op {
                BinaryOp::Add => l.wrapping_add(r),
                BinaryOp::Sub => l.wrapping_sub(r),
                BinaryOp::Mul => l.wrapping_mul(r),
                _ => 0,
            }
        },
        Expression::Cast { operand, .. } => eval_bitfield_width(operand),
        _ => 0,
    }
}

/// What the entries of an initializer list say of the length of the array.
#[derive(Clone, Copy, Debug, PartialEq, Eq, Structural)]
pub struct ListExtent {
    /// One more than the greatest index in a designator.
    pub max_index: usize,
    /// Entries that take the next place.
    pub positional: usize,
    /// Whether some index could not be evaluated.
    pub unresolved: bool,
}

/// An index designator with the value `v`, as far as it could be evaluated.
pub open spec fn index_seen(x: ListExtent, v: Option<i128>) -> ListExtent {
    match v {
        Some(n) => {
            let end = (n as usize).wrapping_add(1);
            ListExtent {
                max_index: if end > x.max_index {
                    end
                } else {
                    x.max_index
                },
                ..x
            }
        },
        None => ListExtent { unresolved: true, ..x },
    }
}

/// The index designators from the `i`-th on, and whether there is any.
pub open spec fn designators_seen(
    x: ListExtent,
    found: bool,
    ds: Seq<Designator>,
    i: int,
    enums: Map<Seq<char>, i128>,
    names: Seq<Seq<char>>,
) -> (ListExtent, bool)
    decreases ds.len() - i,
{
    if i < 0 || i >= ds.len() {
        (x, found)
    } else {
        match ds[i] {
            Designator::Index(e, _) => designators_seen(
                index_seen(x, index_value(*e, enums, names)),
                true,
                ds,
                i + 1,
                enums,
                names,
            ),
            Designator::IndexRange(_, hi, _) => designators_seen(
                index_seen(x, index_value(*hi, enums, names)),
                true,
                ds,
                i + 1,
                enums,
                names,
            ),
            Designator::Field(_, _) => designators_seen(x, found, ds, i + 1, enums, names),
        }
    }
}

/// An entry of an initializer list: one without an index takes the next place.
pub open spec fn entry_seen(
    x: ListExtent,
    d: DesignatedInitializer,
    enums: Map<Seq<char>, i128>,
    names: Seq<Seq<char>>,
) -> ListExtent {
    let (y, found) = designators_seen(x, false, d.designators@, 0, enums, names);
    if found {
        y
    } else {
        ListExtent { positional: y.positional.wrapping_add(1), ..y }
    }
}

/// The entries of an initializer list from the `i`-th on.
pub open spec fn entries_seen(
    x: ListExtent,
    s: Seq<DesignatedInitializer>,
    i: int,
    enums: Map<Seq<char>, i128>,
    names: Seq<Seq<char>>,
) -> ListExtent
    decreases s.len() - i,
{
    if i < 0 || i >= s.len() {
        x
    } else {
        entries_seen(entry_seen(x, s[i], enums, names), s, i + 1, enums, names)
    }
}

/// How many bytes the segments of a string literal from the `i`-th on have,
/// counted from `total` and wrapping round.
pub open spec fn segments_len(total: usize, s: Seq<StringSegment>, i: int) -> usize
    decreases s.len() - i,
{
    if i < 0 || i >= s.len() {
        total
    } else {
        segments_len(total.wrapping_add(s[i].value@.len() as usize), s, i + 1)
    }
}

/// The greater of two counts.
pub open spec fn greater(a: usize, b: usize) -> usize {
    if a >= b {
        a
    } else {
        b
    }
}

/// The length of an array that is declared without one and initialized thus.
pub open spec fn element_count(
    init: Initializer,
    enums: Map<Seq<char>, i128>,
    names: Seq<Seq<char>>,
) -> usize {
    match init {
        Initializer::List { designators_and_initializers, .. } => {
            let s = designators_and_initializers@;
            let x = entries_seen(
                ListExtent { max_index: 0, positional: 0, unresolved: false },
                s,
                0,
                enums,
                names,
            );
            if x.unresolved && x.max_index == 0 {
                s.len() as usize
            } else {
                greater(greater(x.positional, x.max_index), s.len() as usize)
            }
        },
        Initializer::Expression(e) => match *e {
            Expression::StringLiteral { segments, .. } => segments_len(
                0,
                segments@,
                0,
            ).wrapping_add(1),
            _ => 1,
        },
    }
}

fn see_index(x: ListExtent, v: Option<i128>) -> (r: ListExtent)
    ensures
        r == index_seen(x, v),
{
    match v {
        Some(n) => {
            let end: usize = (n as usize).wrapping_add(1);
            ListExtent {
                max_index: if end > x.max_index {
                    end
                } else {
                    x.max_index
                },
                positional: x.positional,
                unresolved: x.unresolved,
            }
        },
        None => ListExtent {
            max_index: x.max_index,
            positional: x.positional,
            unresolved: true,
        },
    }
}

fn see_entry(
    x: ListExtent,
    d: &DesignatedInitializer,
    enum_values: &StringHashMap<i128>,
    interner: &Interner,
) -> (r: ListExtent)
    ensures
        r == entry_seen(x, *d, enum_values@, interner@),
{
    let ds: &Vec<Designator> = &d.designators;
    let mut y: ListExtent = x;
    let mut found: bool = false;
    let mut i: usize = 0;
    while i < ds.len()
        invariant
            i <= ds@.len(),
            designators_seen(y, found, ds@, i as int, enum_values@, interner@) == designators_seen(
                x,
                false,
                ds@,
                0,
                enum_values@,
                interner@,
            ),
        decreases ds@.len() - i,
    {
        match &ds[i] {
            Designator::Index(e, _) => {
                found = true;
                y = see_index(y, try_eval_index_expr(e, enum_values, interner));
            },
            Designator::IndexRange(_, hi, _) => {
                found = true;
                y = see_index(y, try_eval_index_expr(hi, enum_values, interner));
            },
            Designator::Field(_, _) => {},
        }
        i += 1;
    }
    if !found {
        y.positional = y.positional.wrapping_add(1);
    }
    y
}

/// The length of an array that is declared without one and initialized thus.
pub fn count_initializer_elements(
    init: &Initializer,
    enum_values: &StringHashMap<i128>,
    interner: &Interner,
) -> (r: usize)
    ensures
        r == element_count(*init, enum_values@, interner@),
{
    match init {
        Initializer::List { designators_and_initializers, .. } => {
            let s: &Vec<DesignatedInitializer> = designators_and_initializers;
            let start = ListExtent { max_index: 0, positional: 0, unresolved: false };
            let mut x: ListExtent = start;
            let mut i: usize = 0;
            while i < s.len()
                invariant
                    i <= s@.len(),
                    entries_seen(x, s@, i as int, enum_values@, interner@) == entries_seen(
                        start,
                        s@,
                        0,
                        enum_values@,
                        interner@,
                    ),
                decreases s@.len() - i,
            {
                x = see_entry(x, &s[i], enum_values, interner);
                i += 1;
            }
            if x.unresolved && x.max_index == 0 {
                s.len()
            } else {
                let most: usize = if x.positional >= x.max_index {
                    x.positional
                } else {
                    x.max_index
                };
                if most >= s.len() {
                    most
                } else {
                    s.len()
                }
            }
        },
        Initializer::Expression(e) => match &**e {
            Expression::StringLiteral { segments, .. } => {
                let mut total: usize = 0;
                let mut i: usize = 0;
                while i < segments.len()
                    invariant
                        i <= segments@.len(),
                        segments_len(total, segments@, i as int) == segments_len(0, segments@, 0),
                    decreases segments@.len() - i,
                {
                    total = total.wrapping_add(segments[i].value.len());
                    i += 1;
                }
                total.wrapping_add(1)
            },
            _ => 1,
        },
    }
}

impl<'a> SemanticAnalyzer<'a> {
    /// Value of an explicit enumerator.
    pub fn evaluate_enum_value_expr(&self, expr: &Expression) -> (r: Option<i128>)
        ensures
            r == enumerator_value(*expr, self@.enums, self@.names),
    {
        eval_enumerator(expr, &self.enum_constant_values, self.interner)
    }
}

} // verus!
