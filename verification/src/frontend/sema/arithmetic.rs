//! What the operations in constant expressions mean, in terms of integers.

use crate::common::diagnostics::Severity;
use crate::common::layout::{align_with_tags, plain_size, size_with_tags};
use crate::common::target::Target;
use crate::common::types::Ty;
use crate::frontend::parser::ast::{BinaryOp, Expression, StaticAssert, UnaryOp};
use crate::frontend::sema::constants::{
    bitfield_width, enumerator_value, index_value, operation, prefix_operation, quotient,
    remainder,
};
use crate::frontend::sema::resolve::{array_length, const_value, named_type, word_operation};
use crate::frontend::sema::state::State;
use crate::frontend::sema::static_assert::{condition_value, converted, static_assertion};
use crate::ir::lowering::constants::const_int;
use vstd::arithmetic::div_mod::{
    lemma_fundamental_div_mod, lemma_fundamental_div_mod_converse, lemma_mod_multiples_vanish,
};
use vstd::arithmetic::power2::{lemma2_to64, lemma_pow2_pos, lemma_pow2_unfold, pow2};
use vstd::prelude::*;

verus! {

/// Whether `v` is `exact`, up to what 128 bits cannot hold.
pub open spec fn wraps_to(exact: int, v: int) -> bool {
    (v - exact) % 0x1_0000_0000_0000_0000_0000_0000_0000_0000int == 0
}

/// Whether an integer has a bit, counted from the least significant one. A
/// negative integer has infinitely many leading ones.
pub open spec fn has_bit(x: int, k: nat) -> bool {
    (x / pow2(k) as int) % 2 == 1
}

/// Whether `rest` is what division of `l` by `r` can leave over: it is smaller
/// than `r`, and not of another sign than `l`.
pub open spec fn is_rest(l: int, r: int, rest: int) -> bool {
    &&& (if r > 0 {
        -r < rest < r
    } else {
        r < rest < -r
    })
    &&& l >= 0 ==> rest >= 0
    &&& l <= 0 ==> rest <= 0
}

/// Whether `v` is what `l op r` comes to.
pub open spec fn means(op: BinaryOp, l: int, r: int, v: int) -> bool {
    match op {
        BinaryOp::Add => wraps_to(l + r, v),
        BinaryOp::Sub => wraps_to(l - r, v),
        BinaryOp::Mul => wraps_to(l * r, v),
        BinaryOp::Div => exists|q: int|
            is_rest(l, r, l - #[trigger] (q * r)) && wraps_to(q, v),
        BinaryOp::Mod => is_rest(l, r, v) && exists|q: int| l - v == #[trigger] (q * r),
        BinaryOp::ShiftLeft => wraps_to(l * pow2((r % 128) as nat), v),
        BinaryOp::ShiftRight => v == l / pow2((r % 128) as nat) as int,
        BinaryOp::BitwiseAnd => forall|k: nat|
            k < 128 ==> #[trigger] has_bit(v, k) == (has_bit(l, k) && has_bit(r, k)),
        BinaryOp::BitwiseOr => forall|k: nat|
            k < 128 ==> #[trigger] has_bit(v, k) == (has_bit(l, k) || has_bit(r, k)),
        BinaryOp::BitwiseXor => forall|k: nat|
            k < 128 ==> #[trigger] has_bit(v, k) == (has_bit(l, k) != has_bit(r, k)),
        BinaryOp::LogicalAnd => v == if l != 0 && r != 0 {
            1int
        } else {
            0
        },
        BinaryOp::LogicalOr => v == if l != 0 || r != 0 {
            1int
        } else {
            0
        },
        BinaryOp::Equal => v == if l == r {
            1int
        } else {
            0
        },
        BinaryOp::NotEqual => v == if l == r {
            0int
        } else {
            1
        },
        BinaryOp::Less => v == if l < r {
            1int
        } else {
            0
        },
        BinaryOp::Greater => v == if r < l {
            1int
        } else {
            0
        },
        BinaryOp::LessEqual => v == if r < l {
            0int
        } else {
            1
        },
        BinaryOp::GreaterEqual => v == if l < r {
            0int
        } else {
            1
        },
    }
}

/// Every operation on two constants has a value, but for a division by zero, and
/// it is what the operation means for integers.
pub proof fn lemma_operation_means(op: BinaryOp, l: i128, r: i128)
    ensures
        operation(op, l, r) is None <==> r == 0 && (op == BinaryOp::Div || op == BinaryOp::Mod),
        operation(op, l, r) matches Some(v) ==> means(op, l as int, r as int, v as int),
{
    match op {
        BinaryOp::Mul => lemma_product(l, r),
        BinaryOp::Div => lemma_quotient(l, r),
        BinaryOp::Mod => lemma_remainder(l, r),
        BinaryOp::ShiftLeft => lemma_shifts(l, r),
        BinaryOp::ShiftRight => lemma_shifts(l, r),
        BinaryOp::BitwiseAnd => lemma_bits(l, r),
        BinaryOp::BitwiseOr => lemma_bits(l, r),
        BinaryOp::BitwiseXor => lemma_bits(l, r),
        _ => {},
    }
}

/// A sum, a difference or a product that 128 bits can hold is exact.
pub proof fn lemma_small_results_are_exact(l: i128, r: i128)
    ensures
        i128::MIN <= l + r <= i128::MAX ==> operation(BinaryOp::Add, l, r) == Some(
            (l + r) as i128,
        ),
        i128::MIN <= l - r <= i128::MAX ==> operation(BinaryOp::Sub, l, r) == Some(
            (l - r) as i128,
        ),
        i128::MIN <= l * r <= i128::MAX ==> operation(BinaryOp::Mul, l, r) == Some(
            (l * r) as i128,
        ),
{
    lemma_product(l, r);
}

/// What was added can be taken away again, and the other way round.
pub proof fn lemma_addition_is_undone(a: i128, b: i128)
    ensures
        operation(BinaryOp::Add, a, b) matches Some(s) && operation(BinaryOp::Sub, s, b) == Some(a),
        operation(BinaryOp::Sub, a, b) matches Some(d) && operation(BinaryOp::Add, d, b) == Some(a),
{
}

/// Whether `v` is what a prefix operation on `x` comes to.
pub open spec fn prefix_means(op: UnaryOp, x: int, v: int) -> bool {
    match op {
        UnaryOp::Negate => wraps_to(-x, v),
        UnaryOp::BitwiseNot => v == -x - 1,
        UnaryOp::LogicalNot => v == if x == 0 {
            1int
        } else {
            0
        },
        UnaryOp::Plus => v == x,
        _ => false,
    }
}

/// A prefix operation on a constant has the value that it means for integers;
/// only those that ask for an object or a part have none.
pub proof fn lemma_prefix_operation_means(op: UnaryOp, x: i128)
    ensures
        prefix_operation(op, x) is Some <==> op == UnaryOp::Negate || op == UnaryOp::BitwiseNot
            || op == UnaryOp::LogicalNot || op == UnaryOp::Plus,
        prefix_operation(op, x) matches Some(v) ==> prefix_means(op, x as int, v as int),
{
    assert(!x == -x - 1) by (bit_vector);
}

/// The value of `left op right` in an enumerator, an array index, a static
/// assertion or what lowering evaluates is what the operation means for the values
/// of `left` and `right`. An array index knows no comparison and no logical
/// operation.
pub proof fn lemma_binary_expression_means(
    st: State,
    enums: Map<Seq<char>, i128>,
    e: Expression,
    l: i128,
    r: i128,
)
    requires
        e is Binary,
    ensures
        ({
            let v = enumerator_value(e, enums, st.names);
            enumerator_value(*e->Binary_left, enums, st.names) == Some(l) && enumerator_value(
                *e->Binary_right,
                enums,
                st.names,
            ) == Some(r) ==> is_meaning(e->Binary_op, l, r, v)
        }),
        ({
            let v = index_value(e, enums, st.names);
            index_value(*e->Binary_left, enums, st.names) == Some(l) && index_value(
                *e->Binary_right,
                enums,
                st.names,
            ) == Some(r) ==> v is None && !is_arithmetic(e->Binary_op) || is_meaning(
                e->Binary_op,
                l,
                r,
                v,
            )
        }),
        ({
            let v = condition_value(st, e);
            condition_value(st, *e->Binary_left) == Some(l) && condition_value(
                st,
                *e->Binary_right,
            ) == Some(r) ==> is_meaning(e->Binary_op, l, r, v)
        }),
        ({
            let v = const_int(st, enums, e);
            const_int(st, enums, *e->Binary_left) == Some(l) && const_int(
                st,
                enums,
                *e->Binary_right,
            ) == Some(r) ==> is_meaning(e->Binary_op, l, r, v)
        }),
{
    lemma_operation_means(e->Binary_op, l, r);
}

/// The value of a prefix operation in an enumerator, an array index, a static
/// assertion or what lowering evaluates is what the operation means for the value of
/// its operand. Lowering evaluates no `!`.
pub proof fn lemma_prefix_expression_means(
    st: State,
    enums: Map<Seq<char>, i128>,
    e: Expression,
    x: i128,
)
    requires
        e is UnaryOp,
        e->UnaryOp_op == UnaryOp::Negate || e->UnaryOp_op == UnaryOp::BitwiseNot || e->UnaryOp_op
            == UnaryOp::LogicalNot || e->UnaryOp_op == UnaryOp::Plus,
    ensures
        enumerator_value(*e->UnaryOp_operand, enums, st.names) == Some(x) ==> (enumerator_value(
            e,
            enums,
            st.names,
        ) matches Some(v) && prefix_means(e->UnaryOp_op, x as int, v as int)),
        index_value(*e->UnaryOp_operand, enums, st.names) == Some(x) ==> (index_value(
            e,
            enums,
            st.names,
        ) matches Some(v) && prefix_means(e->UnaryOp_op, x as int, v as int)),
        condition_value(st, *e->UnaryOp_operand) == Some(x) ==> (condition_value(
            st,
            e,
        ) matches Some(v) && prefix_means(e->UnaryOp_op, x as int, v as int)),
        const_int(st, enums, *e->UnaryOp_operand) == Some(x) && e->UnaryOp_op
            != UnaryOp::LogicalNot ==> (const_int(st, enums, e) matches Some(v) && prefix_means(
            e->UnaryOp_op,
            x as int,
            v as int,
        )),
{
    lemma_prefix_operation_means(e->UnaryOp_op, x);
}

/// A literal that 127 bits can hold stands for its value wherever a constant is
/// evaluated.
pub proof fn lemma_literal_stands_for_its_value(
    st: State,
    enums: Map<Seq<char>, i128>,
    e: Expression,
)
    requires
        e is IntegerLiteral,
    ensures
        e->IntegerLiteral_value <= i128::MAX ==> {
            let v = Some(e->IntegerLiteral_value as i128);
            &&& enumerator_value(e, enums, st.names) == v
            &&& index_value(e, enums, st.names) == v
            &&& condition_value(st, e) == v
            &&& const_int(st, enums, e) == v
        },
        e->IntegerLiteral_value <= u64::MAX ==> const_value(st, e) == Some(
            e->IntegerLiteral_value as u64,
        ),
        e->IntegerLiteral_value <= u32::MAX ==> bitfield_width(e) == e->IntegerLiteral_value,
        e->IntegerLiteral_value <= usize::MAX ==> array_length(st, Some(Box::new(e))) == Some(
            e->IntegerLiteral_value as usize,
        ),
{
}

/// A conditional stands for the value of its second operand where its condition is
/// not zero, and for that of its third where it is.
pub proof fn lemma_conditional_picks_an_operand(
    st: State,
    enums: Map<Seq<char>, i128>,
    e: Expression,
    c: i128,
)
    requires
        e is Conditional,
        e->Conditional_then_expr is Some,
    ensures
        ({
            let picked = if c != 0 {
                *e->Conditional_then_expr->0
            } else {
                *e->Conditional_else_expr
            };
            let asked = *e->Conditional_condition;
            &&& enumerator_value(asked, enums, st.names) == Some(c) ==> enumerator_value(
                e,
                enums,
                st.names,
            ) == enumerator_value(picked, enums, st.names)
            &&& condition_value(st, asked) == Some(c) ==> condition_value(st, e)
                == condition_value(st, picked)
            &&& const_int(st, enums, asked) == Some(c) ==> const_int(st, enums, e) == const_int(
                st,
                enums,
                picked,
            )
        }),
{
}

/// Whether a comparison or a logical operation holds of two integers.
pub open spec fn holds(op: BinaryOp, l: int, r: int) -> bool {
    match op {
        BinaryOp::LogicalAnd => l != 0 && r != 0,
        BinaryOp::LogicalOr => l != 0 || r != 0,
        BinaryOp::Equal => l == r,
        BinaryOp::NotEqual => l != r,
        BinaryOp::Less => l < r,
        BinaryOp::Greater => l > r,
        BinaryOp::LessEqual => l <= r,
        BinaryOp::GreaterEqual => l >= r,
        _ => false,
    }
}

/// A static assertion on a comparison or a logical operation succeeds, and reports
/// nothing, exactly where the operation holds of the values of its operands; else it
/// reports an error.
pub proof fn lemma_assertion_checks_comparison(st: State, a: StaticAssert, l: i128, r: i128)
    requires
        *a.condition is Binary,
        !is_arithmetic((*a.condition)->Binary_op),
        condition_value(st, *(*a.condition)->Binary_left) == Some(l),
        condition_value(st, *(*a.condition)->Binary_right) == Some(r),
    ensures
        static_assertion(st, a).1 == holds((*a.condition)->Binary_op, l as int, r as int),
        static_assertion(st, a).1 ==> static_assertion(st, a).0 == st,
        !static_assertion(st, a).1 ==> static_assertion(st, a).0.log.len() == st.log.len() + 1
            && static_assertion(st, a).0.log.last().severity == Severity::Error,
{
    reveal(static_assertion);
}

/// Whether an operation computes a number rather than a truth value.
pub open spec fn is_arithmetic(op: BinaryOp) -> bool {
    match op {
        BinaryOp::Add | BinaryOp::Sub | BinaryOp::Mul | BinaryOp::Div | BinaryOp::Mod => true,
        BinaryOp::ShiftLeft | BinaryOp::ShiftRight => true,
        BinaryOp::BitwiseAnd | BinaryOp::BitwiseOr | BinaryOp::BitwiseXor => true,
        _ => false,
    }
}

/// Whether `v` is the value of `l op r`: what it means, and nothing only where the
/// divisor is zero.
pub open spec fn is_meaning(op: BinaryOp, l: i128, r: i128, v: Option<i128>) -> bool {
    match v {
        Some(x) => means(op, l as int, r as int, x as int),
        None => r == 0 && (op == BinaryOp::Div || op == BinaryOp::Mod),
    }
}

proof fn lemma_product(l: i128, r: i128)
    ensures
        wraps_to(l * r, l.wrapping_mul(r) as int),
        i128::MIN <= l * r <= i128::MAX ==> l.wrapping_mul(r) == l * r,
{
    let m: int = 0x1_0000_0000_0000_0000_0000_0000_0000_0000int;
    let p: int = l * r;
    lemma_fundamental_div_mod(p, m);
    let q = p / m;
    let v = l.wrapping_mul(r) as int;
    assert(v == p % m || v == p % m - m);
    assert(v - p == -q * m || v - p == (-q - 1) * m) by (nonlinear_arith)
        requires
            p == m * q + p % m,
            v == p % m || v == p % m - m,
    ;
    lemma_mod_multiples_vanish(-q, 0, m);
    lemma_mod_multiples_vanish(-q - 1, 0, m);
    assert(m * (-q) == -q * m) by (nonlinear_arith);
    assert(m * (-q - 1) == (-q - 1) * m) by (nonlinear_arith);
}

proof fn lemma_quotient(l: i128, r: i128)
    ensures
        quotient(l, r) is None <==> r == 0,
        quotient(l, r) matches Some(v) ==> means(BinaryOp::Div, l as int, r as int, v as int),
{
    if r != 0 {
        let x = l as int;
        let d = r as int;
        let ax = if x < 0 {
            -x
        } else {
            x
        };
        let ad = if d < 0 {
            -d
        } else {
            d
        };
        lemma_fundamental_div_mod(ax, ad);
        let aq = ax / ad;
        let am = ax % ad;
        let q = if (x < 0) == (d < 0) {
            aq
        } else {
            -aq
        };
        assert(x == 0 ==> aq == 0) by (nonlinear_arith)
            requires
                ax == ad * aq + am,
                0 <= am < ad,
                x == 0 ==> ax == 0,
        ;
        assert(x - q * d == if x < 0 {
            -am
        } else {
            am
        }) by (nonlinear_arith)
            requires
                ax == ad * aq + am,
                ax == if x < 0 {
                    -x
                } else {
                    x
                },
                ad == if d < 0 {
                    -d
                } else {
                    d
                },
                q == if (x < 0) == (d < 0) {
                    aq
                } else {
                    -aq
                },
        ;
        assert(is_rest(x, d, x - q * d));
        assert(0 <= aq <= ax) by (nonlinear_arith)
            requires
                ax == ad * aq + am,
                0 <= am < ad,
                ax >= 0,
        ;
        let v = quotient(l, r)->0 as int;
        assert(v == q || (q == i128::MAX + 1 && v == i128::MIN));
        assert(wraps_to(q, v));
    }
}

proof fn lemma_remainder(l: i128, r: i128)
    ensures
        remainder(l, r) is None <==> r == 0,
        remainder(l, r) matches Some(v) ==> means(BinaryOp::Mod, l as int, r as int, v as int),
{
    if r != 0 {
        let x = l as int;
        let d = r as int;
        let ax = if x < 0 {
            -x
        } else {
            x
        };
        let ad = if d < 0 {
            -d
        } else {
            d
        };
        lemma_fundamental_div_mod(ax, ad);
        let aq = ax / ad;
        let am = ax % ad;
        let q = if (x < 0) == (d < 0) {
            aq
        } else {
            -aq
        };
        let v = remainder(l, r)->0 as int;
        if l == i128::MIN && r == -1 {
            assert(x - v == x * -1 * d);
            assert(x - v == (-x) * d);
        } else {
            assert(v == if x < 0 {
                -am
            } else {
                am
            });
            assert(x - v == q * d) by (nonlinear_arith)
                requires
                    ax == ad * aq + am,
                    ax == if x < 0 {
                        -x
                    } else {
                        x
                    },
                    ad == if d < 0 {
                        -d
                    } else {
                        d
                    },
                    v == if x < 0 {
                        -am
                    } else {
                        am
                    },
                    q == if (x < 0) == (d < 0) {
                        aq
                    } else {
                        -aq
                    },
            ;
        }
    }
}

proof fn lemma_shift_left(x: i128, n: u32)
    requires
        n < 128,
    ensures
        wraps_to(x * pow2(n as nat), (x << n) as int),
    decreases n,
{
    let m: int = 0x1_0000_0000_0000_0000_0000_0000_0000_0000int;
    if n == 0 {
        assert(x << 0u32 == x) by (bit_vector);
        lemma2_to64();
        let p = pow2(n as nat) as int;
        assert(x * p == x) by (nonlinear_arith)
            requires
                p == 1,
        ;
    } else {
        let b: u32 = (n - 1) as u32;
        lemma_shift_left(x, b);
        lemma_pow2_unfold(n as nat);
        let y: i128 = x << b;
        assert((x << n) == (x << b) << 1u32) by (bit_vector)
            requires
                0 < n < 128,
                b == n - 1,
        ;
        assert(-0x4000_0000_0000_0000_0000_0000_0000_0000 <= y
            < 0x4000_0000_0000_0000_0000_0000_0000_0000 ==> (y << 1u32) == 2 * y) by (bit_vector);
        assert(y >= 0x4000_0000_0000_0000_0000_0000_0000_0000 ==> (y << 1u32) == 2 * y
            - 0x1_0000_0000_0000_0000_0000_0000_0000_0000) by (bit_vector);
        assert(y < -0x4000_0000_0000_0000_0000_0000_0000_0000 ==> (y << 1u32) == 2 * y
            + 0x1_0000_0000_0000_0000_0000_0000_0000_0000) by (bit_vector);
        let p = pow2(b as nat) as int;
        let s = (x << n) as int;
        assert(pow2(n as nat) == 2 * p);
        assert(x * (2 * p) == 2 * (x * p)) by (nonlinear_arith);
        let exact = x * p;
        assert((y - exact) % m == 0);
        lemma_fundamental_div_mod(y - exact, m);
        let k = (y - exact) / m;
        assert(y - exact == m * k);
        assert(s - 2 * exact == m * (2 * k) || s - 2 * exact == m * (2 * k - 1) || s - 2 * exact
            == m * (2 * k + 1)) by (nonlinear_arith)
            requires
                y - exact == m * k,
                s == 2 * y || s == 2 * y - m || s == 2 * y + m,
        ;
        lemma_mod_multiples_vanish(2 * k, 0, m);
        lemma_mod_multiples_vanish(2 * k - 1, 0, m);
        lemma_mod_multiples_vanish(2 * k + 1, 0, m);
    }
}

proof fn lemma_shift_right(x: i128, n: u32)
    requires
        n < 128,
    ensures
        (x >> n) as int == x as int / pow2(n as nat) as int,
    decreases n,
{
    if n == 0 {
        assert(x >> 0u32 == x) by (bit_vector);
        lemma2_to64();
        let p = pow2(n as nat) as int;
        assert(x as int / p == x) by (nonlinear_arith)
            requires
                p == 1,
        ;
    } else {
        let b: u32 = (n - 1) as u32;
        lemma_shift_right(x, b);
        lemma_pow2_unfold(n as nat);
        lemma_pow2_pos(b as nat);
        let y: i128 = x >> b;
        assert((x >> n) == (x >> b) >> 1u32) by (bit_vector)
            requires
                0 < n < 128,
                b == n - 1,
        ;
        assert(y == 2 * (y >> 1u32) + (y & 1) && 0 <= (y & 1) < 2) by (bit_vector);
        let p = pow2(b as nat) as int;
        lemma_div_floor(x as int, p);
    }
}

proof fn lemma_div_floor(x: int, p: int)
    requires
        p > 0,
    ensures
        x / (2 * p) == (x / p) / 2,
{
    let a = x / p;
    let c = a / 2;
    lemma_fundamental_div_mod(x, p);
    assert(0 <= x % p < p);
    let rest = x - c * (2 * p);
    assert(0 <= rest < 2 * p && x == c * (2 * p) + rest) by (nonlinear_arith)
        requires
            x == p * a + x % p,
            0 <= x % p < p,
            rest == x - c * (2 * p),
            2 * c <= a < 2 * c + 2,
            p > 0,
    ;
    lemma_fundamental_div_mod_converse(x, 2 * p, c, rest);
}

proof fn lemma_shifts(l: i128, r: i128)
    ensures
        means(BinaryOp::ShiftLeft, l as int, r as int, l.wrapping_shl(r as u32) as int),
        means(BinaryOp::ShiftRight, l as int, r as int, l.wrapping_shr(r as u32) as int),
{
    let n: u32 = ((r as u32) % 128) as u32;
    assert((r as u32) % 128 == r % 128) by (bit_vector);
    lemma_shift_left(l, n);
    lemma_shift_right(l, n);
}

proof fn lemma_bit(x: i128, k: u32)
    requires
        k < 128,
    ensures
        has_bit(x as int, k as nat) <==> (x >> k) & 1 == 1,
        (x >> k) & 1 == 1 || (x >> k) & 1 == 0,
{
    lemma_shift_right(x, k);
    let y: i128 = x >> k;
    assert(y == 2 * (y >> 1u32) + (y & 1) && 0 <= (y & 1) < 2) by (bit_vector);
}

proof fn lemma_bits(l: i128, r: i128)
    ensures
        means(BinaryOp::BitwiseAnd, l as int, r as int, (l & r) as int),
        means(BinaryOp::BitwiseOr, l as int, r as int, (l | r) as int),
        means(BinaryOp::BitwiseXor, l as int, r as int, (l ^ r) as int),
{
    assert forall|j: nat| j < 128 implies ({
        &&& #[trigger] has_bit((l & r) as int, j) == (has_bit(l as int, j) && has_bit(r as int, j))
    }) by {
        let k: u32 = j as u32;
        lemma_bit(l, k);
        lemma_bit(r, k);
        lemma_bit(l & r, k);
        assert((((l & r) >> k) & 1 == 1) <==> ((l >> k) & 1 == 1) && ((r >> k) & 1 == 1))
            by (bit_vector)
            requires
                k < 128,
        ;
    }
    assert forall|j: nat| j < 128 implies ({
        &&& #[trigger] has_bit((l | r) as int, j) == (has_bit(l as int, j) || has_bit(r as int, j))
    }) by {
        let k: u32 = j as u32;
        lemma_bit(l, k);
        lemma_bit(r, k);
        lemma_bit(l | r, k);
        assert((((l | r) >> k) & 1 == 1) <==> ((l >> k) & 1 == 1) || ((r >> k) & 1 == 1))
            by (bit_vector)
            requires
                k < 128,
        ;
    }
    assert forall|j: nat| j < 128 implies ({
        &&& #[trigger] has_bit((l ^ r) as int, j) == (has_bit(l as int, j) != has_bit(r as int, j))
    }) by {
        let k: u32 = j as u32;
        lemma_bit(l, k);
        lemma_bit(r, k);
        lemma_bit(l ^ r, k);
        assert((((l ^ r) >> k) & 1 == 1) <==> !(((l >> k) & 1 == 1) <==> ((r >> k) & 1 == 1)))
            by (bit_vector)
            requires
                k < 128,
        ;
    }
}


/// Whether `v` is what `l op r` comes to in 64 bits without a sign.
pub open spec fn word_means(op: BinaryOp, l: int, r: int, v: int) -> bool {
    let m = 0x1_0000_0000_0000_0000int;
    match op {
        BinaryOp::Add => (v - (l + r)) % m == 0,
        BinaryOp::Sub => (v - (l - r)) % m == 0,
        BinaryOp::Mul => (v - l * r) % m == 0,
        BinaryOp::Div => 0 <= l - v * r < r,
        BinaryOp::Mod => 0 <= v < r && exists|q: int| l - v == #[trigger] (q * r),
        BinaryOp::ShiftLeft => (v - l * pow2((r % 64) as nat)) % m == 0,
        BinaryOp::ShiftRight => v == l / pow2((r % 64) as nat) as int,
        BinaryOp::BitwiseAnd => forall|k: nat|
            k < 64 ==> #[trigger] has_bit(v, k) == (has_bit(l, k) && has_bit(r, k)),
        BinaryOp::BitwiseOr => forall|k: nat|
            k < 64 ==> #[trigger] has_bit(v, k) == (has_bit(l, k) || has_bit(r, k)),
        BinaryOp::BitwiseXor => forall|k: nat|
            k < 64 ==> #[trigger] has_bit(v, k) == (has_bit(l, k) != has_bit(r, k)),
        _ => false,
    }
}

/// An arithmetic operation in an array length or an attribute has a value, but for
/// a division by zero, and it is what the operation means for the values of its
/// operands.
pub proof fn lemma_word_expression_means(st: State, e: Expression, l: u64, r: u64)
    requires
        e is Binary,
        is_arithmetic(e->Binary_op),
        const_value(st, *e->Binary_left) == Some(l),
        const_value(st, *e->Binary_right) == Some(r),
    ensures
        const_value(st, e) is None <==> r == 0 && (e->Binary_op == BinaryOp::Div || e->Binary_op
            == BinaryOp::Mod),
        const_value(st, e) matches Some(v) ==> word_means(
            e->Binary_op,
            l as int,
            r as int,
            v as int,
        ),
{
    assert(const_value(st, e) == word_operation(e->Binary_op, l, r));
    match e->Binary_op {
        BinaryOp::Mul => lemma_word_product(l, r),
        BinaryOp::Div => lemma_word_quotient(l, r),
        BinaryOp::Mod => lemma_word_quotient(l, r),
        BinaryOp::ShiftLeft => lemma_word_shifts(l, r),
        BinaryOp::ShiftRight => lemma_word_shifts(l, r),
        BinaryOp::BitwiseAnd => lemma_word_bits(l, r),
        BinaryOp::BitwiseOr => lemma_word_bits(l, r),
        BinaryOp::BitwiseXor => lemma_word_bits(l, r),
        _ => {},
    }
}

/// A sign in front of a constant in an array length or an attribute turns it round,
/// `~` takes it from the greatest value, and `+` leaves it alone.
pub proof fn lemma_word_prefix_means(st: State, e: Expression, x: u64)
    requires
        e is UnaryOp,
        const_value(st, *e->UnaryOp_operand) == Some(x),
    ensures
        e->UnaryOp_op == UnaryOp::Negate ==> (const_value(st, e) matches Some(v) && (v + x)
            % 0x1_0000_0000_0000_0000int == 0),
        e->UnaryOp_op == UnaryOp::BitwiseNot ==> (const_value(st, e) matches Some(v) && v
            == u64::MAX - x),
        e->UnaryOp_op == UnaryOp::Plus ==> const_value(st, e) == Some(x),
{
    assert(!x == u64::MAX - x) by (bit_vector);
}

proof fn lemma_word_product(l: u64, r: u64)
    ensures
        word_means(BinaryOp::Mul, l as int, r as int, l.wrapping_mul(r) as int),
{
    let m: int = 0x1_0000_0000_0000_0000int;
    let p: int = l * r;
    assert(p >= 0) by (nonlinear_arith)
        requires
            p == l * r,
    ;
    lemma_fundamental_div_mod(p, m);
    let v = l.wrapping_mul(r) as int;
    assert(v == p % m);
    lemma_mod_multiples_vanish(-(p / m), 0, m);
    assert(v - p == m * (-(p / m))) by (nonlinear_arith)
        requires
            p == m * (p / m) + v,
    ;
}

proof fn lemma_word_quotient(l: u64, r: u64)
    ensures
        r != 0 ==> word_means(BinaryOp::Div, l as int, r as int, (l / r) as int),
        r != 0 ==> word_means(BinaryOp::Mod, l as int, r as int, (l % r) as int),
{
    if r != 0 {
        let q: int = l as int / r as int;
        lemma_fundamental_div_mod(l as int, r as int);
        assert(r * q == q * r) by (nonlinear_arith);
    }
}

proof fn lemma_word_shift_left(x: u64, n: u32)
    requires
        n < 64,
    ensures
        ((x << n) as int - x * pow2(n as nat)) % 0x1_0000_0000_0000_0000int == 0,
    decreases n,
{
    let m: int = 0x1_0000_0000_0000_0000int;
    if n == 0 {
        assert(x << 0u32 == x) by (bit_vector);
        lemma2_to64();
        let p = pow2(n as nat) as int;
        assert(x * p == x) by (nonlinear_arith)
            requires
                p == 1,
        ;
    } else {
        let b: u32 = (n - 1) as u32;
        lemma_word_shift_left(x, b);
        lemma_pow2_unfold(n as nat);
        let y: u64 = x << b;
        assert((x << n) == (x << b) << 1u32) by (bit_vector)
            requires
                0 < n < 64,
                b == n - 1,
        ;
        assert((y << 1u32) == 2 * y || (y << 1u32) == 2 * y - 0x1_0000_0000_0000_0000)
            by (bit_vector);
        let p = pow2(b as nat) as int;
        let s = (x << n) as int;
        assert(x * (2 * p) == 2 * (x * p)) by (nonlinear_arith);
        let exact = x * p;
        lemma_fundamental_div_mod(y - exact, m);
        let k = (y - exact) / m;
        assert(s - 2 * exact == m * (2 * k) || s - 2 * exact == m * (2 * k - 1))
            by (nonlinear_arith)
            requires
                y - exact == m * k,
                s == 2 * y || s == 2 * y - m,
        ;
        lemma_mod_multiples_vanish(2 * k, 0, m);
        lemma_mod_multiples_vanish(2 * k - 1, 0, m);
    }
}

proof fn lemma_word_shift_right(x: u64, n: u32)
    requires
        n < 64,
    ensures
        (x >> n) as int == x as int / pow2(n as nat) as int,
    decreases n,
{
    if n == 0 {
        assert(x >> 0u32 == x) by (bit_vector);
        lemma2_to64();
        let p = pow2(n as nat) as int;
        assert(x as int / p == x) by (nonlinear_arith)
            requires
                p == 1,
        ;
    } else {
        let b: u32 = (n - 1) as u32;
        lemma_word_shift_right(x, b);
        lemma_pow2_unfold(n as nat);
        lemma_pow2_pos(b as nat);
        let y: u64 = x >> b;
        assert((x >> n) == (x >> b) >> 1u32) by (bit_vector)
            requires
                0 < n < 64,
                b == n - 1,
        ;
        assert(y == 2 * (y >> 1u32) + (y & 1) && 0 <= (y & 1) < 2) by (bit_vector);
        lemma_div_floor(x as int, pow2(b as nat) as int);
    }
}

proof fn lemma_word_shifts(l: u64, r: u64)
    ensures
        word_means(BinaryOp::ShiftLeft, l as int, r as int, l.wrapping_shl(r as u32) as int),
        word_means(BinaryOp::ShiftRight, l as int, r as int, l.wrapping_shr(r as u32) as int),
{
    let n: u32 = ((r as u32) % 64) as u32;
    assert((r as u32) % 64 == r % 64) by (bit_vector);
    lemma_word_shift_left(l, n);
    lemma_word_shift_right(l, n);
}

proof fn lemma_word_bit(x: u64, k: u32)
    requires
        k < 64,
    ensures
        has_bit(x as int, k as nat) <==> (x >> k) & 1 == 1,
        (x >> k) & 1 == 1 || (x >> k) & 1 == 0,
{
    lemma_word_shift_right(x, k);
    let y: u64 = x >> k;
    assert(y == 2 * (y >> 1u32) + (y & 1) && 0 <= (y & 1) < 2) by (bit_vector);
}

proof fn lemma_word_bits(l: u64, r: u64)
    ensures
        word_means(BinaryOp::BitwiseAnd, l as int, r as int, (l & r) as int),
        word_means(BinaryOp::BitwiseOr, l as int, r as int, (l | r) as int),
        word_means(BinaryOp::BitwiseXor, l as int, r as int, (l ^ r) as int),
{
    assert forall|j: nat| j < 64 implies #[trigger] has_bit((l & r) as int, j) == (has_bit(
        l as int,
        j,
    ) && has_bit(r as int, j)) by {
        let k: u32 = j as u32;
        lemma_word_bit(l, k);
        lemma_word_bit(r, k);
        lemma_word_bit(l & r, k);
        assert((((l & r) >> k) & 1 == 1) <==> ((l >> k) & 1 == 1) && ((r >> k) & 1 == 1))
            by (bit_vector)
            requires
                k < 64,
        ;
    }
    assert forall|j: nat| j < 64 implies #[trigger] has_bit((l | r) as int, j) == (has_bit(
        l as int,
        j,
    ) || has_bit(r as int, j)) by {
        let k: u32 = j as u32;
        lemma_word_bit(l, k);
        lemma_word_bit(r, k);
        lemma_word_bit(l | r, k);
        assert((((l | r) >> k) & 1 == 1) <==> ((l >> k) & 1 == 1) || ((r >> k) & 1 == 1))
            by (bit_vector)
            requires
                k < 64,
        ;
    }
    assert forall|j: nat| j < 64 implies #[trigger] has_bit((l ^ r) as int, j) == (has_bit(
        l as int,
        j,
    ) != has_bit(r as int, j)) by {
        let k: u32 = j as u32;
        lemma_word_bit(l, k);
        lemma_word_bit(r, k);
        lemma_word_bit(l ^ r, k);
        assert((((l ^ r) >> k) & 1 == 1) <==> !(((l >> k) & 1 == 1) <==> ((r >> k) & 1 == 1)))
            by (bit_vector)
            requires
                k < 64,
        ;
    }
}

/// A cast to an integer type of at most eight bytes gives the one value of that type
/// that differs from the operand by a multiple of how many values the type has; a
/// cast to `_Bool` tells whether the operand is zero.
pub proof fn lemma_cast_wraps(v: i128, t: Ty, target: Target)
    ensures
        t is Bool ==> converted(v, t, target) == if v == 0 {
            0int
        } else {
            1
        },
        ({
            let values = pow2(8 * plain_size(t, target) as nat) as int;
            let c = converted(v, t, target) as int;
            &&& is_narrow_unsigned(t) ==> 0 <= c < values && (c - v) % values == 0
            &&& is_narrow_signed(t) ==> -values <= 2 * c < values && (c - v) % values == 0
        }),
{
    lemma2_to64();
    lemma_narrow_to_8(v);
    lemma_narrow_to_16(v);
    lemma_narrow_to_32(v);
    lemma_narrow_to_64(v);
}

/// Whether a type is an unsigned integer type of at most eight bytes.
pub open spec fn is_narrow_unsigned(t: Ty) -> bool {
    t is UChar || t is UShort || t is UInt || t is ULong || t is ULongLong
}

/// Whether a type is a signed integer type of at most eight bytes; `char` is.
pub open spec fn is_narrow_signed(t: Ty) -> bool {
    t is Char || t is SChar || t is Short || t is Int || t is Long || t is LongLong
}

proof fn lemma_narrow_to_8(v: i128)
    ensures
        ((v as u8) - v) % 0x100int == 0,
        ((v as i8) - v) % 0x100int == 0,
{
    assert(v == 0x100 * (v >> 8u32) + (v as u8)) by (bit_vector);
    assert((v as i8) == (v as u8) || (v as i8) == (v as u8) - 0x100) by (bit_vector);
    let m: int = 0x100int;
    let q: int = (v >> 8u32) as int;
    lemma_mod_multiples_vanish(-q, 0, m);
    lemma_mod_multiples_vanish(-q - 1, 0, m);
}

proof fn lemma_narrow_to_16(v: i128)
    ensures
        ((v as u16) - v) % 0x1_0000int == 0,
        ((v as i16) - v) % 0x1_0000int == 0,
{
    assert(v == 0x1_0000 * (v >> 16u32) + (v as u16)) by (bit_vector);
    assert((v as i16) == (v as u16) || (v as i16) == (v as u16) - 0x1_0000) by (bit_vector);
    let m: int = 0x1_0000int;
    let q: int = (v >> 16u32) as int;
    lemma_mod_multiples_vanish(-q, 0, m);
    lemma_mod_multiples_vanish(-q - 1, 0, m);
}

proof fn lemma_narrow_to_32(v: i128)
    ensures
        ((v as u32) - v) % 0x1_0000_0000int == 0,
        ((v as i32) - v) % 0x1_0000_0000int == 0,
{
    assert(v == 0x1_0000_0000 * (v >> 32u32) + (v as u32)) by (bit_vector);
    assert((v as i32) == (v as u32) || (v as i32) == (v as u32) - 0x1_0000_0000) by (bit_vector);
    let m: int = 0x1_0000_0000int;
    let q: int = (v >> 32u32) as int;
    lemma_mod_multiples_vanish(-q, 0, m);
    lemma_mod_multiples_vanish(-q - 1, 0, m);
}

proof fn lemma_narrow_to_64(v: i128)
    ensures
        ((v as u64) - v) % 0x1_0000_0000_0000_0000int == 0,
        ((v as i64) - v) % 0x1_0000_0000_0000_0000int == 0,
{
    assert(v == 0x1_0000_0000_0000_0000 * (v >> 64u32) + (v as u64)) by (bit_vector);
    assert((v as i64) == (v as u64) || (v as i64) == (v as u64) - 0x1_0000_0000_0000_0000)
        by (bit_vector);
    let m: int = 0x1_0000_0000_0000_0000int;
    let q: int = (v >> 64u32) as int;
    lemma_mod_multiples_vanish(-q, 0, m);
    lemma_mod_multiples_vanish(-q - 1, 0, m);
}

/// `sizeof` and `_Alignof` of a type are its size and alignment wherever a constant is
/// evaluated with types; a comma stands for its last operand where lowering evaluates it.
pub proof fn lemma_measures_are_constants(
    st: State,
    enums: Map<Seq<char>, i128>,
    e: Expression,
)
    ensures
        e matches Expression::SizeofType { ty_name, .. } ==> {
            let n = size_with_tags(named_type(st, *ty_name), st.target, st.tags);
            &&& const_value(st, e) == Some(n as u64)
            &&& condition_value(st, e) == Some(n as i128)
            &&& array_length(st, Some(Box::new(e))) == Some(n)
        },
        e matches Expression::AlignofType { ty_name, .. } ==> {
            let n = align_with_tags(named_type(st, *ty_name), st.target, st.tags);
            &&& const_value(st, e) == Some(n as u64)
            &&& condition_value(st, e) == Some(n as i128)
        },
        e matches Expression::Comma { exprs, .. } ==> (exprs@.len() > 0 ==> const_int(st, enums, e)
            == const_int(st, enums, exprs@.last())),
        e matches Expression::Parenthesized { inner, .. } ==> {
            &&& const_value(st, e) == const_value(st, *inner)
            &&& condition_value(st, e) == condition_value(st, *inner)
            &&& const_int(st, enums, e) == const_int(st, enums, *inner)
            &&& enumerator_value(e, enums, st.names) == enumerator_value(*inner, enums, st.names)
            &&& index_value(e, enums, st.names) == index_value(*inner, enums, st.names)
        },
{
}

/// A name stands for the value of the enumeration constant that it names, and for nothing
/// where there is none.
pub proof fn lemma_names_stand_for_constants(
    st: State,
    enums: Map<Seq<char>, i128>,
    e: Expression,
)
    requires
        e is Identifier,
        e->Identifier_name.0 < st.names.len(),
    ensures
        ({
            let text = st.names[e->Identifier_name.0 as int];
            &&& enums.contains_key(text) ==> {
                &&& enumerator_value(e, enums, st.names) == Some(enums[text])
                &&& index_value(e, enums, st.names) == Some(enums[text])
                &&& const_int(st, enums, e) == Some(enums[text])
            }
            &&& !enums.contains_key(text) ==> {
                &&& enumerator_value(e, enums, st.names) is None
                &&& index_value(e, enums, st.names) is None
                &&& const_int(st, enums, e) is None
            }
            &&& st.enums.contains_key(text) ==> condition_value(st, e) == Some(st.enums[text])
        }),
{
}

/// Whether an expression is a sum, a difference or a product of two literals.
pub open spec fn literal_operands(e: Expression) -> bool {
    e is Binary && *e->Binary_left is IntegerLiteral && *e->Binary_right is IntegerLiteral
}

/// The width of a bit-field that is given as a sum, a difference or a product of two literals
/// is that number, where it is one that 32 bits can hold.
pub proof fn lemma_bit_field_width_is_computed(e: Expression)
    requires
        literal_operands(e),
        (*e->Binary_left)->IntegerLiteral_value <= u32::MAX,
        (*e->Binary_right)->IntegerLiteral_value <= u32::MAX,
    ensures
        ({
            let l = (*e->Binary_left)->IntegerLiteral_value as int;
            let r = (*e->Binary_right)->IntegerLiteral_value as int;
            &&& e->Binary_op == BinaryOp::Add && l + r <= u32::MAX ==> bitfield_width(e) == l + r
            &&& e->Binary_op == BinaryOp::Sub && l >= r ==> bitfield_width(e) == l - r
            &&& e->Binary_op == BinaryOp::Mul && l * r <= u32::MAX ==> bitfield_width(e) == l * r
        }),
{
    let l: u32 = (*e->Binary_left)->IntegerLiteral_value as u32;
    let r: u32 = (*e->Binary_right)->IntegerLiteral_value as u32;
    assert(bitfield_width(*e->Binary_left) == l);
    assert(bitfield_width(*e->Binary_right) == r);
    let p: int = l * r;
    assert(p >= 0) by (nonlinear_arith)
        requires
            p == l * r,
    ;
    if p <= u32::MAX {
        vstd::arithmetic::div_mod::lemma_small_mod(p as nat, 0x1_0000_0000nat);
    }
}

/// A cast does not change a value where constants are evaluated without types, and a
/// character stands for its code.
pub proof fn lemma_casts_and_characters(
    st: State,
    enums: Map<Seq<char>, i128>,
    e: Expression,
)
    ensures
        e matches Expression::Cast { operand, .. } ==> {
            &&& enumerator_value(e, enums, st.names) == enumerator_value(*operand, enums, st.names)
            &&& index_value(e, enums, st.names) == index_value(*operand, enums, st.names)
            &&& const_int(st, enums, e) == const_int(st, enums, *operand)
            &&& const_value(st, e) == const_value(st, *operand)
            &&& bitfield_width(e) == bitfield_width(*operand)
        },
        e matches Expression::Cast { ty_name, operand, .. } ==> (condition_value(
            st,
            *operand,
        ) matches Some(v) ==> condition_value(st, e) == Some(
            converted(v, named_type(st, *ty_name), st.target),
        )),
        e matches Expression::CharLiteral { value, .. } ==> {
            &&& enumerator_value(e, enums, st.names) == Some(value as i128)
            &&& condition_value(st, e) == Some(value as i128)
        },
{
}

} // verus!
