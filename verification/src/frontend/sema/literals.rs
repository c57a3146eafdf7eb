//! The types of literals.

use crate::common::types::{const_quals, Ty};
use crate::frontend::parser::ast::{CharPrefix, FloatSuffix, IntegerSuffix, StringPrefix};
use vstd::prelude::*;

verus! {

/// The largest value of a type that an integer literal can have.
pub open spec fn literal_max(t: Ty, lp64: bool) -> u128 {
    match t {
        Ty::Int => i32::MAX as u128,
        Ty::UInt => u32::MAX as u128,
        Ty::Long => if lp64 {
            i64::MAX as u128
        } else {
            i32::MAX as u128
        },
        Ty::ULong => if lp64 {
            u64::MAX as u128
        } else {
            u32::MAX as u128
        },
        Ty::LongLong => i64::MAX as u128,
        _ => u64::MAX as u128,
    }
}

/// The types that an integer literal is tried at, in order.
pub open spec fn literal_candidates(suffix: IntegerSuffix, hex_or_octal: bool, lp64: bool) -> Seq<
    Ty,
> {
    match suffix {
        IntegerSuffix::Plain => if hex_or_octal {
            seq![Ty::Int, Ty::UInt, Ty::Long, Ty::ULong, Ty::LongLong, Ty::ULongLong]
        } else {
            seq![Ty::Int, Ty::Long, Ty::LongLong]
        },
        IntegerSuffix::U => seq![Ty::UInt, Ty::ULong, Ty::ULongLong],
        IntegerSuffix::L => if hex_or_octal {
            seq![Ty::Long, Ty::ULong, Ty::LongLong, Ty::ULongLong]
        } else {
            seq![Ty::Long, Ty::LongLong]
        },
        IntegerSuffix::UL => if lp64 {
            seq![Ty::ULong, Ty::ULongLong]
        } else {
            seq![Ty::ULongLong]
        },
        IntegerSuffix::LL => if hex_or_octal {
            seq![Ty::LongLong, Ty::ULongLong]
        } else {
            seq![Ty::LongLong]
        },
        IntegerSuffix::ULL => seq![Ty::ULongLong],
    }
}

/// The type of an integer literal that no candidate can hold.
pub open spec fn literal_fallback(suffix: IntegerSuffix, lp64: bool) -> Ty {
    if suffix == IntegerSuffix::L && lp64 {
        Ty::LongLong
    } else {
        Ty::ULongLong
    }
}

/// The first of the candidates that can hold the value.
pub open spec fn first_fitting(candidates: Seq<Ty>, value: u128, lp64: bool, fallback: Ty) -> Ty
    decreases candidates.len(),
{
    if candidates.len() == 0 {
        fallback
    } else if value <= literal_max(candidates[0], lp64) {
        candidates[0]
    } else {
        first_fitting(candidates.skip(1), value, lp64, fallback)
    }
}

/// The type of an integer literal.
pub open spec fn integer_literal_ty(
    value: u128,
    suffix: IntegerSuffix,
    hex_or_octal: bool,
    lp64: bool,
) -> Ty {
    first_fitting(
        literal_candidates(suffix, hex_or_octal, lp64),
        value,
        lp64,
        literal_fallback(suffix, lp64),
    )
}

/// The type of a floating literal.
pub open spec fn float_literal_ty(suffix: FloatSuffix) -> Ty {
    match suffix {
        FloatSuffix::Plain => Ty::Double,
        FloatSuffix::F => Ty::Float,
        FloatSuffix::L => Ty::LongDouble,
        FloatSuffix::I => Ty::Complex(Box::new(Ty::Double)),
        FloatSuffix::FI => Ty::Complex(Box::new(Ty::Float)),
        FloatSuffix::LI => Ty::Complex(Box::new(Ty::LongDouble)),
    }
}

/// The type of a string literal: pointer to constant characters.
pub open spec fn string_literal_ty(prefix: StringPrefix) -> Ty {
    Ty::Pointer(
        Box::new(
            match prefix {
                StringPrefix::Plain => Ty::Char,
                StringPrefix::U8 => Ty::Char,
                StringPrefix::L => Ty::Int,
                StringPrefix::U16 => Ty::UShort,
                StringPrefix::U32 => Ty::UInt,
            },
        ),
        const_quals(),
    )
}

/// The type of a character literal.
pub open spec fn char_literal_ty(prefix: CharPrefix) -> Ty {
    match prefix {
        CharPrefix::Plain => Ty::Int,
        CharPrefix::L => Ty::Int,
        CharPrefix::U16 => Ty::UShort,
        CharPrefix::U32 => Ty::UInt,
    }
}

proof fn lemma_fitting_holds(candidates: Seq<Ty>, value: u128, lp64: bool, fallback: Ty)
    requires
        exists|i: int|
            0 <= i < candidates.len() && value <= literal_max(#[trigger] candidates[i], lp64),
    ensures
        value <= literal_max(first_fitting(candidates, value, lp64, fallback), lp64),
    decreases candidates.len(),
{
    if value > literal_max(candidates[0], lp64) {
        let i = choose|i: int|
            0 <= i < candidates.len() && value <= literal_max(#[trigger] candidates[i], lp64);
        assert(candidates.skip(1)[i - 1] == candidates[i]);
        lemma_fitting_holds(candidates.skip(1), value, lp64, fallback);
    }
}

/// A literal that fits in 64 bits has a type that can hold it, where its suffix
/// and base admit an unsigned type or a signed one is wide enough.
pub proof fn lemma_literal_type_holds_value(
    value: u128,
    suffix: IntegerSuffix,
    hex_or_octal: bool,
    lp64: bool,
)
    requires
        value <= u64::MAX,
        hex_or_octal || value <= i64::MAX || suffix == IntegerSuffix::U || suffix
            == IntegerSuffix::UL || suffix == IntegerSuffix::ULL,
    ensures
        value <= literal_max(integer_literal_ty(value, suffix, hex_or_octal, lp64), lp64),
{
    let c = literal_candidates(suffix, hex_or_octal, lp64);
    assert(c.len() > 0);
    assert(value <= literal_max(c[c.len() - 1], lp64));
    lemma_fitting_holds(c, value, lp64, literal_fallback(suffix, lp64));
}

/// A decimal literal without a suffix that fits in 63 bits has a signed type.
pub proof fn lemma_plain_decimal_is_signed(value: u128, lp64: bool)
    requires
        value <= i64::MAX,
    ensures
        ({
            let t = integer_literal_ty(value, IntegerSuffix::Plain, false, lp64);
            t == Ty::Int || t == Ty::Long || t == Ty::LongLong
        }),
{
    reveal_with_fuel(first_fitting, 4);
    let c = literal_candidates(IntegerSuffix::Plain, false, lp64);
    assert(c.skip(1)[0] == c[1]);
    assert(c.skip(1).skip(1)[0] == c[2]);
}

} // verus!
