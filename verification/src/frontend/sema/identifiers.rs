//! Identifiers, declared or not: predefined names, builtins, and functions of the
//! C library that are used without a declaration.

use crate::common::diagnostics::Span;
use crate::common::string_interner::Symbol;
use crate::common::target::Target;
use crate::common::text::{concat3, has_prefix, starts_with, str_eq};
use crate::common::types::{
    const_quals, opt_ty, pointer_to, pointer_ty, types_of, ty_of, void_ptr, void_ptr_ty, CType, Ty,
    TypeQualifiers,
};
use crate::frontend::parser::ast::{BuiltinKind, Expression};
use crate::frontend::sema::analyzer::{size_t, SemanticAnalyzer};
use crate::frontend::sema::resolve::named_type;
use crate::frontend::sema::state::State;
use crate::frontend::sema::symbol_table::used;
use vstd::prelude::*;

verus! {

broadcast use crate::common::types::group_type_models;

/// A function type.
pub open spec fn function_ty(return_type: Ty, params: Seq<Ty>, variadic: bool) -> Ty {
    Ty::Function { return_type: Box::new(return_type), params, variadic }
}

/// Constant pointer type to `void`, as the builtins have it.
pub open spec fn const_void_ptr_ty() -> Ty {
    Ty::Pointer(Box::new(Ty::Void), const_quals())
}

/// Constant pointer type to `char`, as the builtins have it.
pub open spec fn const_char_ptr_ty() -> Ty {
    Ty::Pointer(Box::new(Ty::Char), const_quals())
}

/// The builtins on memory and strings.
pub open spec fn string_builtin(n: Seq<char>, size_t: Ty, object_size: Ty) -> Option<Ty> {
    if n == "__builtin_memcpy"@ || n == "__builtin_memmove"@ {
        Some(function_ty(void_ptr_ty(), seq![void_ptr_ty(), const_void_ptr_ty(), size_t], false))
    } else if n == "__builtin_memset"@ {
        Some(function_ty(void_ptr_ty(), seq![void_ptr_ty(), Ty::Int, size_t], false))
    } else if n == "__builtin_memcmp"@ {
        Some(function_ty(Ty::Int, seq![const_void_ptr_ty(), const_void_ptr_ty(), size_t], false))
    } else if n == "__builtin_strlen"@ {
        Some(function_ty(size_t, seq![const_char_ptr_ty()], false))
    } else if n == "__builtin_strcmp"@ || n == "__builtin_strncmp"@ {
        Some(function_ty(Ty::Int, seq![const_char_ptr_ty(), const_char_ptr_ty()], false))
    } else if n == "__builtin_strcpy"@ || n == "__builtin_strncpy"@ || n == "__builtin_strcat"@
        || n == "__builtin_strncat"@
    {
        Some(
            function_ty(
                pointer_ty(Ty::Char),
                seq![pointer_ty(Ty::Char), const_char_ptr_ty()],
                false,
            ),
        )
    } else if n == "__builtin_strchr"@ || n == "__builtin_strrchr"@ {
        Some(function_ty(pointer_ty(Ty::Char), seq![const_char_ptr_ty(), Ty::Int], false))
    } else if n == "__builtin_abs"@ {
        Some(function_ty(Ty::Int, seq![Ty::Int], false))
    } else if n == "__builtin_labs"@ {
        Some(function_ty(Ty::Long, seq![Ty::Long], false))
    } else if n == "__builtin_printf"@ || n == "__builtin_snprintf"@ || n == "__builtin_sprintf"@
        || n == "__builtin_fprintf"@
    {
        Some(function_ty(Ty::Int, seq![const_char_ptr_ty()], true))
    } else if n == "__builtin_object_size"@ {
        Some(function_ty(object_size, seq![void_ptr_ty(), Ty::Int], false))
    } else {
        None
    }
}

/// The builtins on floating values.
pub open spec fn float_builtin(n: Seq<char>) -> Option<Ty> {
    if n == "__builtin_isnan"@ || n == "__builtin_isinf"@ || n == "__builtin_isfinite"@
        || n == "__builtin_isnormal"@ || n == "__builtin_signbit"@ || n == "__builtin_isnan_sign"@
        || n == "__builtin_isinf_sign"@ || n == "__builtin_fpclassify"@
    {
        Some(function_ty(Ty::Int, seq![Ty::Double], false))
    } else if n == "__builtin_isnanf"@ || n == "__builtin_isinff"@ || n == "__builtin_isfinitef"@
        || n == "__builtin_signbitf"@
    {
        Some(function_ty(Ty::Int, seq![Ty::Float], false))
    } else if n == "__builtin_isnanl"@ || n == "__builtin_isinfl"@ || n == "__builtin_isfinitel"@
        || n == "__builtin_signbitl"@
    {
        Some(function_ty(Ty::Int, seq![Ty::LongDouble], false))
    } else if n == "__builtin_nan"@ || n == "__builtin_huge_val"@ || n == "__builtin_inf"@ {
        Some(function_ty(Ty::Double, seq![const_char_ptr_ty()], false))
    } else if n == "__builtin_nanf"@ || n == "__builtin_huge_valf"@ || n == "__builtin_inff"@ {
        Some(function_ty(Ty::Float, seq![const_char_ptr_ty()], false))
    } else if n == "__builtin_nanl"@ || n == "__builtin_huge_vall"@ || n == "__builtin_infl"@ {
        Some(function_ty(Ty::LongDouble, seq![const_char_ptr_ty()], false))
    } else if n == "__builtin_fabs"@ || n == "__builtin_sqrt"@ || n == "__builtin_floor"@
        || n == "__builtin_ceil"@ || n == "__builtin_round"@ || n == "__builtin_log"@
        || n == "__builtin_log2"@ || n == "__builtin_exp"@ || n == "__builtin_pow"@
        || n == "__builtin_sin"@ || n == "__builtin_cos"@ || n == "__builtin_copysign"@
    {
        Some(function_ty(Ty::Double, seq![Ty::Double], false))
    } else if n == "__builtin_fabsf"@ || n == "__builtin_sqrtf"@ || n == "__builtin_floorf"@
        || n == "__builtin_ceilf"@ || n == "__builtin_roundf"@ || n == "__builtin_copysignf"@
    {
        Some(function_ty(Ty::Float, seq![Ty::Float], false))
    } else if n == "__builtin_fabsl"@ {
        Some(function_ty(Ty::LongDouble, seq![Ty::LongDouble], false))
    } else {
        None
    }
}

/// The builtins on atomic objects.
pub open spec fn atomic_builtin(n: Seq<char>, size_t: Ty) -> Option<Ty> {
    if n == "__sync_synchronize"@ {
        Some(function_ty(Ty::Void, seq![], false))
    } else if n == "__atomic_store_n"@ || n == "__atomic_store"@ {
        Some(function_ty(Ty::Void, seq![void_ptr_ty(), Ty::Int, Ty::Int], false))
    } else if n == "__atomic_load_n"@ || n == "__atomic_load"@ {
        Some(function_ty(Ty::Int, seq![void_ptr_ty(), Ty::Int], false))
    } else if n == "__atomic_exchange_n"@ || n == "__atomic_exchange"@ {
        Some(function_ty(Ty::Int, seq![void_ptr_ty(), Ty::Int, Ty::Int], false))
    } else if n == "__atomic_compare_exchange_n"@ || n == "__atomic_compare_exchange"@ {
        Some(
            function_ty(
                Ty::Bool,
                seq![void_ptr_ty(), void_ptr_ty(), Ty::Int, Ty::Bool, Ty::Int, Ty::Int],
                false,
            ),
        )
    } else if n == "__atomic_add_fetch"@ || n == "__atomic_sub_fetch"@
        || n == "__atomic_and_fetch"@ || n == "__atomic_or_fetch"@ || n == "__atomic_xor_fetch"@
        || n == "__atomic_nand_fetch"@ || n == "__atomic_fetch_add"@ || n == "__atomic_fetch_sub"@
        || n == "__atomic_fetch_and"@ || n == "__atomic_fetch_or"@ || n == "__atomic_fetch_xor"@
        || n == "__atomic_fetch_nand"@
    {
        Some(function_ty(Ty::Int, seq![void_ptr_ty(), Ty::Int, Ty::Int], false))
    } else if n == "__atomic_test_and_set"@ {
        Some(function_ty(Ty::Bool, seq![void_ptr_ty(), Ty::Int], false))
    } else if n == "__atomic_clear"@ {
        Some(function_ty(Ty::Void, seq![void_ptr_ty(), Ty::Int], false))
    } else if n == "__atomic_thread_fence"@ || n == "__atomic_signal_fence"@ {
        Some(function_ty(Ty::Void, seq![Ty::Int], false))
    } else if n == "__atomic_always_lock_free"@ || n == "__atomic_is_lock_free"@ {
        Some(function_ty(Ty::Bool, seq![size_t, void_ptr_ty()], false))
    } else if n == "__sync_fetch_and_add"@ || n == "__sync_fetch_and_sub"@
        || n == "__sync_fetch_and_or"@ || n == "__sync_fetch_and_and"@
        || n == "__sync_fetch_and_xor"@ || n == "__sync_fetch_and_nand"@
        || n == "__sync_add_and_fetch"@ || n == "__sync_sub_and_fetch"@
        || n == "__sync_or_and_fetch"@ || n == "__sync_and_and_fetch"@
        || n == "__sync_xor_and_fetch"@ || n == "__sync_nand_and_fetch"@
    {
        Some(function_ty(Ty::Int, seq![void_ptr_ty(), Ty::Int], true))
    } else if n == "__sync_bool_compare_and_swap"@ {
        Some(function_ty(Ty::Bool, seq![void_ptr_ty(), Ty::Int, Ty::Int], true))
    } else if n == "__sync_val_compare_and_swap"@ {
        Some(function_ty(Ty::Int, seq![void_ptr_ty(), Ty::Int, Ty::Int], true))
    } else if n == "__sync_lock_test_and_set"@ {
        Some(function_ty(Ty::Int, seq![void_ptr_ty(), Ty::Int], true))
    } else if n == "__sync_lock_release"@ {
        Some(function_ty(Ty::Void, seq![void_ptr_ty()], true))
    } else {
        None
    }
}

/// Common functions of the C library, the first half.
pub open spec fn library_function_a(n: Seq<char>, size_t: Ty) -> Option<Ty> {
    if n == "abort"@ {
        Some(function_ty(Ty::Void, seq![], false))
    } else if n == "exit"@ || n == "_exit"@ || n == "_Exit"@ {
        Some(function_ty(Ty::Void, seq![Ty::Int], false))
    } else if n == "malloc"@ || n == "calloc"@ || n == "realloc"@ {
        Some(function_ty(void_ptr_ty(), seq![size_t], false))
    } else if n == "free"@ {
        Some(function_ty(Ty::Void, seq![void_ptr_ty()], false))
    } else if n == "memcpy"@ || n == "memmove"@ {
        Some(function_ty(void_ptr_ty(), seq![void_ptr_ty(), void_ptr_ty(), size_t], false))
    } else if n == "memset"@ {
        Some(function_ty(void_ptr_ty(), seq![void_ptr_ty(), Ty::Int, size_t], false))
    } else if n == "memcmp"@ || n == "strcmp"@ || n == "strncmp"@ {
        Some(function_ty(Ty::Int, seq![void_ptr_ty(), void_ptr_ty(), size_t], false))
    } else if n == "strlen"@ {
        Some(function_ty(size_t, seq![void_ptr_ty()], false))
    } else if n == "strcpy"@ || n == "strcat"@ {
        Some(function_ty(pointer_ty(Ty::Char), seq![void_ptr_ty(), void_ptr_ty()], false))
    } else if n == "printf"@ || n == "fprintf"@ || n == "sprintf"@ || n == "snprintf"@ {
        Some(function_ty(Ty::Int, seq![void_ptr_ty()], true))
    } else if n == "puts"@ || n == "fputs"@ {
        Some(function_ty(Ty::Int, seq![void_ptr_ty()], false))
    } else if n == "putchar"@ {
        Some(function_ty(Ty::Int, seq![Ty::Int], false))
    } else if n == "atoi"@ {
        Some(function_ty(Ty::Int, seq![void_ptr_ty()], false))
    } else if n == "atol"@ {
        Some(function_ty(Ty::Long, seq![void_ptr_ty()], false))
    } else if n == "abs"@ {
        Some(function_ty(Ty::Int, seq![Ty::Int], false))
    } else if n == "labs"@ {
        Some(function_ty(Ty::Long, seq![Ty::Long], false))
    } else if n == "llabs"@ {
        Some(function_ty(Ty::LongLong, seq![Ty::LongLong], false))
    } else if n == "fabs"@ {
        Some(function_ty(Ty::Double, seq![Ty::Double], false))
    } else if n == "fabsf"@ {
        Some(function_ty(Ty::Float, seq![Ty::Float], false))
    } else if n == "qsort"@ {
        Some(function_ty(Ty::Void, seq![void_ptr_ty(), size_t, size_t, void_ptr_ty()], false))
    } else if n == "signal"@ {
        Some(function_ty(void_ptr_ty(), seq![Ty::Int, void_ptr_ty()], false))
    } else {
        None
    }
}

/// Common functions of the C library, the second half.
pub open spec fn library_function_b(n: Seq<char>, size_t: Ty) -> Option<Ty> {
    if n == "setjmp"@ || n == "_setjmp"@ || n == "sigsetjmp"@ {
        Some(function_ty(Ty::Int, seq![void_ptr_ty()], false))
    } else if n == "longjmp"@ || n == "siglongjmp"@ {
        Some(function_ty(Ty::Void, seq![void_ptr_ty(), Ty::Int], false))
    } else if n == "alloca"@ {
        Some(function_ty(void_ptr_ty(), seq![size_t], false))
    } else if n == "bcmp"@ {
        Some(function_ty(Ty::Int, seq![void_ptr_ty(), void_ptr_ty(), size_t], false))
    } else if n == "bzero"@ {
        Some(function_ty(Ty::Void, seq![void_ptr_ty(), size_t], false))
    } else if n == "strncat"@ || n == "strncpy"@ {
        Some(function_ty(pointer_ty(Ty::Char), seq![void_ptr_ty(), void_ptr_ty(), size_t], false))
    } else if n == "fopen"@ {
        Some(function_ty(void_ptr_ty(), seq![void_ptr_ty(), void_ptr_ty()], false))
    } else if n == "fclose"@ || n == "fflush"@ {
        Some(function_ty(Ty::Int, seq![void_ptr_ty()], false))
    } else if n == "fread"@ || n == "fwrite"@ {
        Some(function_ty(size_t, seq![void_ptr_ty(), size_t, size_t, void_ptr_ty()], false))
    } else if n == "sscanf"@ || n == "fscanf"@ || n == "scanf"@ {
        Some(function_ty(Ty::Int, seq![void_ptr_ty()], true))
    } else if n == "strtol"@ || n == "strtoul"@ {
        Some(function_ty(Ty::Long, seq![void_ptr_ty(), void_ptr_ty(), Ty::Int], false))
    } else if n == "strtoll"@ || n == "strtoull"@ {
        Some(function_ty(Ty::LongLong, seq![void_ptr_ty(), void_ptr_ty(), Ty::Int], false))
    } else if n == "strtod"@ {
        Some(function_ty(Ty::Double, seq![void_ptr_ty(), void_ptr_ty()], false))
    } else if n == "strtof"@ {
        Some(function_ty(Ty::Float, seq![void_ptr_ty(), void_ptr_ty()], false))
    } else if n == "strstr"@ || n == "strchr"@ || n == "strrchr"@ {
        Some(function_ty(pointer_ty(Ty::Char), seq![void_ptr_ty(), Ty::Int], false))
    } else if n == "getenv"@ {
        Some(function_ty(pointer_ty(Ty::Char), seq![void_ptr_ty()], false))
    } else {
        None
    }
}

/// The builtin functions that are known by name.
pub open spec fn builtin_function(n: Seq<char>, size_t: Ty, object_size: Ty) -> Option<Ty> {
    match string_builtin(n, size_t, object_size) {
        Some(t) => Some(t),
        None => match float_builtin(n) {
            Some(t) => Some(t),
            None => atomic_builtin(n, size_t),
        },
    }
}

/// The functions of the C library that may be used without a declaration.
pub open spec fn library_function(n: Seq<char>, size_t: Ty) -> Option<Ty> {
    match library_function_a(n, size_t) {
        Some(t) => Some(t),
        None => library_function_b(n, size_t),
    }
}

/// What a builtin returns of which only the name is known.
pub open spec fn builtin_return(n: Seq<char>) -> Ty {
    if n == "__builtin_expect"@ {
        Ty::Long
    } else if n == "__builtin_unreachable"@ || n == "__builtin_trap"@ || n
        == "__builtin_prefetch"@ || n == "__builtin_va_start"@ || n == "__builtin_va_end"@ || n
        == "__builtin_va_copy"@ {
        Ty::Void
    } else if n == "__builtin_bswap16"@ {
        Ty::UShort
    } else if n == "__builtin_bswap32"@ {
        Ty::UInt
    } else if n == "__builtin_bswap64"@ {
        Ty::ULongLong
    } else if n == "__builtin_alloca"@ || n == "__builtin_frame_address"@ || n
        == "__builtin_return_address"@ || n == "__builtin_assume_aligned"@ || n
        == "__builtin_extract_return_addr"@ {
        void_ptr_ty()
    } else if n == "__builtin_add_overflow"@ || n == "__builtin_sub_overflow"@ || n
        == "__builtin_mul_overflow"@ {
        Ty::Bool
    } else {
        Ty::Int
    }
}

/// The type of the object-size builtin.
pub open spec fn object_size_ty(target: Target) -> Ty {
    if target.is_lp64() {
        Ty::ULong
    } else {
        Ty::UInt
    }
}

/// The type of a name that nothing declares, and whether that calls for a
/// warning: a function that returns `int`, if the name says nothing else.
pub open spec fn undeclared(st: State, n: Seq<char>) -> (Ty, bool) {
    if n == "__func__"@ || n == "__FUNCTION__"@ || n == "__PRETTY_FUNCTION__"@ {
        (pointer_ty(Ty::Char), false)
    } else {
        match builtin_function(n, size_t(st), object_size_ty(st.target)) {
            Some(t) => (t, false),
            None => match library_function(n, size_t(st)) {
                Some(t) => (t, false),
                None => if has_prefix(n, "__builtin_"@) {
                    (function_ty(builtin_return(n), Seq::empty(), true), false)
                } else {
                    (
                        function_ty(Ty::Int, Seq::empty(), true),
                        !has_prefix(n, "__sync_"@) && !has_prefix(n, "__atomic_"@),
                    )
                },
            },
        }
    }
}

/// The use of an identifier: its type, and what it does to the state. A declared
/// symbol becomes used.
#[verifier::opaque]
pub open spec fn identifier_use(st: State, name: Symbol, span: Span) -> (State, Ty) {
    match st.declared_type(name) {
        Some(t) => (State { symbols: used(st.symbols, name), ..st }, t),
        None => {
            let (t, warn) = undeclared(st, st.text(name));
            (
                if warn {
                    st.warning(
                        span,
                        "implicit declaration of function '"@ + st.text(name) + "'"@,
                    )
                } else {
                    st
                },
                t,
            )
        },
    }
}

/// What a builtin that the parser recognises returns.
#[verifier::opaque]
pub open spec fn builtin_call_type(st: State, k: BuiltinKind, args: Seq<Expression>) -> Ty {
    match k {
        BuiltinKind::ConstantP | BuiltinKind::TypesCompatibleP | BuiltinKind::ChooseExpr
        | BuiltinKind::Clz | BuiltinKind::ClzL | BuiltinKind::ClzLL | BuiltinKind::Ctz
        | BuiltinKind::CtzL | BuiltinKind::CtzLL | BuiltinKind::Popcount | BuiltinKind::PopcountL
        | BuiltinKind::PopcountLL | BuiltinKind::Ffs | BuiltinKind::Ffsll | BuiltinKind::Parity
        | BuiltinKind::ParityL | BuiltinKind::ParityLL => Ty::Int,
        BuiltinKind::Offsetof => size_t(st),
        BuiltinKind::Expect => Ty::Long,
        BuiltinKind::Unreachable | BuiltinKind::Trap | BuiltinKind::VaStart | BuiltinKind::VaEnd
        | BuiltinKind::VaCopy | BuiltinKind::PrefetchData => Ty::Void,
        BuiltinKind::Bswap16 => Ty::UShort,
        BuiltinKind::Bswap32 => Ty::UInt,
        BuiltinKind::Bswap64 => Ty::ULongLong,
        BuiltinKind::VaArg => if args.len() >= 2 {
            match args[1] {
                Expression::SizeofType { ty_name, .. } => named_type(st, *ty_name),
                _ => Ty::Int,
            }
        } else {
            Ty::Int
        },
        BuiltinKind::FrameAddress | BuiltinKind::ReturnAddress | BuiltinKind::AssumeAligned
        | BuiltinKind::ExtractReturnAddr | BuiltinKind::Alloca => void_ptr_ty(),
        BuiltinKind::AddOverflow | BuiltinKind::SubOverflow | BuiltinKind::MulOverflow => Ty::Bool,
        BuiltinKind::ObjectSize => Ty::ULong,
    }
}

fn function0(return_type: CType, variadic: bool) -> (r: CType)
    ensures
        r@ == function_ty(return_type@, seq![], variadic),
{
    let params: Vec<CType> = Vec::new();
    assert(types_of(params@) =~= seq![]);
    CType::Function { return_type: Box::new(return_type), params, variadic }
}

fn function1(return_type: CType, a: CType, variadic: bool) -> (r: CType)
    ensures
        r@ == function_ty(return_type@, seq![a@], variadic),
{
    let mut params: Vec<CType> = Vec::new();
    let ghost model = seq![a@];
    params.push(a);
    assert(types_of(params@) =~= model);
    CType::Function { return_type: Box::new(return_type), params, variadic }
}

fn function2(return_type: CType, a: CType, b: CType, variadic: bool) -> (r: CType)
    ensures
        r@ == function_ty(return_type@, seq![a@, b@], variadic),
{
    let mut params: Vec<CType> = Vec::new();
    let ghost model = seq![a@, b@];
    params.push(a);
    params.push(b);
    assert(types_of(params@) =~= model);
    CType::Function { return_type: Box::new(return_type), params, variadic }
}

fn function3(return_type: CType, a: CType, b: CType, c: CType, variadic: bool) -> (r: CType)
    ensures
        r@ == function_ty(return_type@, seq![a@, b@, c@], variadic),
{
    let mut params: Vec<CType> = Vec::new();
    let ghost model = seq![a@, b@, c@];
    params.push(a);
    params.push(b);
    params.push(c);
    assert(types_of(params@) =~= model);
    CType::Function { return_type: Box::new(return_type), params, variadic }
}

fn function4(return_type: CType, a: CType, b: CType, c: CType, d: CType, variadic: bool) -> (r:
    CType)
    ensures
        r@ == function_ty(return_type@, seq![a@, b@, c@, d@], variadic),
{
    let mut params: Vec<CType> = Vec::new();
    let ghost model = seq![a@, b@, c@, d@];
    params.push(a);
    params.push(b);
    params.push(c);
    params.push(d);
    assert(types_of(params@) =~= model);
    CType::Function { return_type: Box::new(return_type), params, variadic }
}

fn function6(
    return_type: CType,
    a: CType,
    b: CType,
    c: CType,
    d: CType,
    e: CType,
    f: CType,
    variadic: bool,
) -> (r: CType)
    ensures
        r@ == function_ty(return_type@, seq![a@, b@, c@, d@, e@, f@], variadic),
{
    let mut params: Vec<CType> = Vec::new();
    let ghost model = seq![a@, b@, c@, d@, e@, f@];
    params.push(a);
    params.push(b);
    params.push(c);
    params.push(d);
    params.push(e);
    params.push(f);
    assert(types_of(params@) =~= model);
    CType::Function { return_type: Box::new(return_type), params, variadic }
}

fn const_void_ptr() -> (r: CType)
    ensures
        r@ == const_void_ptr_ty(),
{
    let unit = CType::Void;
    assert(unit@ == Ty::Void);
    CType::Pointer(Box::new(unit), TypeQualifiers::only_const())
}

fn const_char_ptr() -> (r: CType)
    ensures
        r@ == const_char_ptr_ty(),
{
    let unit = CType::Char;
    assert(unit@ == Ty::Char);
    CType::Pointer(Box::new(unit), TypeQualifiers::only_const())
}

/// The builtins on memory and strings.
fn find_string_builtin(n: &str, size_t: &CType, object_size: &CType) -> (r: Option<CType>)
    ensures
        opt_ty(r) == string_builtin(n@, size_t@, object_size@),
{
    if str_eq(n, "__builtin_memcpy") || str_eq(n, "__builtin_memmove") {
        Some(function3(void_ptr(), void_ptr(), const_void_ptr(), size_t.clone(), false))
    } else if str_eq(n, "__builtin_memset") {
        Some(function3(void_ptr(), void_ptr(), CType::Int, size_t.clone(), false))
    } else if str_eq(n, "__builtin_memcmp") {
        Some(function3(CType::Int, const_void_ptr(), const_void_ptr(), size_t.clone(), false))
    } else if str_eq(n, "__builtin_strlen") {
        Some(function1(size_t.clone(), const_char_ptr(), false))
    } else if str_eq(n, "__builtin_strcmp") || str_eq(n, "__builtin_strncmp") {
        Some(function2(CType::Int, const_char_ptr(), const_char_ptr(), false))
    } else if str_eq(n, "__builtin_strcpy") || str_eq(n, "__builtin_strncpy")
        || str_eq(n, "__builtin_strcat") || str_eq(n, "__builtin_strncat")
    {
        Some(function2(pointer_to(CType::Char), pointer_to(CType::Char), const_char_ptr(), false))
    } else if str_eq(n, "__builtin_strchr") || str_eq(n, "__builtin_strrchr") {
        Some(function2(pointer_to(CType::Char), const_char_ptr(), CType::Int, false))
    } else if str_eq(n, "__builtin_abs") {
        Some(function1(CType::Int, CType::Int, false))
    } else if str_eq(n, "__builtin_labs") {
        Some(function1(CType::Long, CType::Long, false))
    } else if str_eq(n, "__builtin_printf") || str_eq(n, "__builtin_snprintf")
        || str_eq(n, "__builtin_sprintf") || str_eq(n, "__builtin_fprintf")
    {
        Some(function1(CType::Int, const_char_ptr(), true))
    } else if str_eq(n, "__builtin_object_size") {
        Some(function2(object_size.clone(), void_ptr(), CType::Int, false))
    } else {
        None
    }
}

/// The builtins on floating values.
fn find_float_builtin(n: &str) -> (r: Option<CType>)
    ensures
        opt_ty(r) == float_builtin(n@),
{
    if str_eq(n, "__builtin_isnan") || str_eq(n, "__builtin_isinf")
        || str_eq(n, "__builtin_isfinite") || str_eq(n, "__builtin_isnormal")
        || str_eq(n, "__builtin_signbit") || str_eq(n, "__builtin_isnan_sign")
        || str_eq(n, "__builtin_isinf_sign") || str_eq(n, "__builtin_fpclassify")
    {
        Some(function1(CType::Int, CType::Double, false))
    } else if str_eq(n, "__builtin_isnanf") || str_eq(n, "__builtin_isinff")
        || str_eq(n, "__builtin_isfinitef") || str_eq(n, "__builtin_signbitf")
    {
        Some(function1(CType::Int, CType::Float, false))
    } else if str_eq(n, "__builtin_isnanl") || str_eq(n, "__builtin_isinfl")
        || str_eq(n, "__builtin_isfinitel") || str_eq(n, "__builtin_signbitl")
    {
        Some(function1(CType::Int, CType::LongDouble, false))
    } else if str_eq(n, "__builtin_nan") || str_eq(n, "__builtin_huge_val")
        || str_eq(n, "__builtin_inf")
    {
        Some(function1(CType::Double, const_char_ptr(), false))
    } else if str_eq(n, "__builtin_nanf") || str_eq(n, "__builtin_huge_valf")
        || str_eq(n, "__builtin_inff")
    {
        Some(function1(CType::Float, const_char_ptr(), false))
    } else if str_eq(n, "__builtin_nanl") || str_eq(n, "__builtin_huge_vall")
        || str_eq(n, "__builtin_infl")
    {
        Some(function1(CType::LongDouble, const_char_ptr(), false))
    } else if str_eq(n, "__builtin_fabs") || str_eq(n, "__builtin_sqrt")
        || str_eq(n, "__builtin_floor") || str_eq(n, "__builtin_ceil")
        || str_eq(n, "__builtin_round") || str_eq(n, "__builtin_log")
        || str_eq(n, "__builtin_log2") || str_eq(n, "__builtin_exp") || str_eq(n, "__builtin_pow")
        || str_eq(n, "__builtin_sin") || str_eq(n, "__builtin_cos")
        || str_eq(n, "__builtin_copysign")
    {
        Some(function1(CType::Double, CType::Double, false))
    } else if str_eq(n, "__builtin_fabsf") || str_eq(n, "__builtin_sqrtf")
        || str_eq(n, "__builtin_floorf") || str_eq(n, "__builtin_ceilf")
        || str_eq(n, "__builtin_roundf") || str_eq(n, "__builtin_copysignf")
    {
        Some(function1(CType::Float, CType::Float, false))
    } else if str_eq(n, "__builtin_fabsl") {
        Some(function1(CType::LongDouble, CType::LongDouble, false))
    } else {
        None
    }
}

/// The builtins on atomic objects.
fn find_atomic_builtin(n: &str, size_t: &CType) -> (r: Option<CType>)
    ensures
        opt_ty(r) == atomic_builtin(n@, size_t@),
{
    if str_eq(n, "__sync_synchronize") {
        Some(function0(CType::Void, false))
    } else if str_eq(n, "__atomic_store_n") || str_eq(n, "__atomic_store") {
        Some(function3(CType::Void, void_ptr(), CType::Int, CType::Int, false))
    } else if str_eq(n, "__atomic_load_n") || str_eq(n, "__atomic_load") {
        Some(function2(CType::Int, void_ptr(), CType::Int, false))
    } else if str_eq(n, "__atomic_exchange_n") || str_eq(n, "__atomic_exchange") {
        Some(function3(CType::Int, void_ptr(), CType::Int, CType::Int, false))
    } else if str_eq(n, "__atomic_compare_exchange_n") || str_eq(n, "__atomic_compare_exchange") {
        Some(
            function6(
                CType::Bool,
                void_ptr(),
                void_ptr(),
                CType::Int,
                CType::Bool,
                CType::Int,
                CType::Int,
                false,
            ),
        )
    } else if str_eq(n, "__atomic_add_fetch") || str_eq(n, "__atomic_sub_fetch")
        || str_eq(n, "__atomic_and_fetch") || str_eq(n, "__atomic_or_fetch")
        || str_eq(n, "__atomic_xor_fetch") || str_eq(n, "__atomic_nand_fetch")
        || str_eq(n, "__atomic_fetch_add") || str_eq(n, "__atomic_fetch_sub")
        || str_eq(n, "__atomic_fetch_and") || str_eq(n, "__atomic_fetch_or")
        || str_eq(n, "__atomic_fetch_xor") || str_eq(n, "__atomic_fetch_nand")
    {
        Some(function3(CType::Int, void_ptr(), CType::Int, CType::Int, false))
    } else if str_eq(n, "__atomic_test_and_set") {
        Some(function2(CType::Bool, void_ptr(), CType::Int, false))
    } else if str_eq(n, "__atomic_clear") {
        Some(function2(CType::Void, void_ptr(), CType::Int, false))
    } else if str_eq(n, "__atomic_thread_fence") || str_eq(n, "__atomic_signal_fence") {
        Some(function1(CType::Void, CType::Int, false))
    } else if str_eq(n, "__atomic_always_lock_free") || str_eq(n, "__atomic_is_lock_free") {
        Some(function2(CType::Bool, size_t.clone(), void_ptr(), false))
    } else if str_eq(n, "__sync_fetch_and_add") || str_eq(n, "__sync_fetch_and_sub")
        || str_eq(n, "__sync_fetch_and_or") || str_eq(n, "__sync_fetch_and_and")
        || str_eq(n, "__sync_fetch_and_xor") || str_eq(n, "__sync_fetch_and_nand")
        || str_eq(n, "__sync_add_and_fetch") || str_eq(n, "__sync_sub_and_fetch")
        || str_eq(n, "__sync_or_and_fetch") || str_eq(n, "__sync_and_and_fetch")
        || str_eq(n, "__sync_xor_and_fetch") || str_eq(n, "__sync_nand_and_fetch")
    {
        Some(function2(CType::Int, void_ptr(), CType::Int, true))
    } else if str_eq(n, "__sync_bool_compare_and_swap") {
        Some(function3(CType::Bool, void_ptr(), CType::Int, CType::Int, true))
    } else if str_eq(n, "__sync_val_compare_and_swap") {
        Some(function3(CType::Int, void_ptr(), CType::Int, CType::Int, true))
    } else if str_eq(n, "__sync_lock_test_and_set") {
        Some(function2(CType::Int, void_ptr(), CType::Int, true))
    } else if str_eq(n, "__sync_lock_release") {
        Some(function1(CType::Void, void_ptr(), true))
    } else {
        None
    }
}

/// Common functions of the C library, the first half.
fn find_library_function_a(n: &str, size_t: &CType) -> (r: Option<CType>)
    ensures
        opt_ty(r) == library_function_a(n@, size_t@),
{
    if str_eq(n, "abort") {
        Some(function0(CType::Void, false))
    } else if str_eq(n, "exit") || str_eq(n, "_exit") || str_eq(n, "_Exit") {
        Some(function1(CType::Void, CType::Int, false))
    } else if str_eq(n, "malloc") || str_eq(n, "calloc") || str_eq(n, "realloc") {
        Some(function1(void_ptr(), size_t.clone(), false))
    } else if str_eq(n, "free") {
        Some(function1(CType::Void, void_ptr(), false))
    } else if str_eq(n, "memcpy") || str_eq(n, "memmove") {
        Some(function3(void_ptr(), void_ptr(), void_ptr(), size_t.clone(), false))
    } else if str_eq(n, "memset") {
        Some(function3(void_ptr(), void_ptr(), CType::Int, size_t.clone(), false))
    } else if str_eq(n, "memcmp") || str_eq(n, "strcmp") || str_eq(n, "strncmp") {
        Some(function3(CType::Int, void_ptr(), void_ptr(), size_t.clone(), false))
    } else if str_eq(n, "strlen") {
        Some(function1(size_t.clone(), void_ptr(), false))
    } else if str_eq(n, "strcpy") || str_eq(n, "strcat") {
        Some(function2(pointer_to(CType::Char), void_ptr(), void_ptr(), false))
    } else if str_eq(n, "printf") || str_eq(n, "fprintf") || str_eq(n, "sprintf")
        || str_eq(n, "snprintf")
    {
        Some(function1(CType::Int, void_ptr(), true))
    } else if str_eq(n, "puts") || str_eq(n, "fputs") {
        Some(function1(CType::Int, void_ptr(), false))
    } else if str_eq(n, "putchar") {
        Some(function1(CType::Int, CType::Int, false))
    } else if str_eq(n, "atoi") {
        Some(function1(CType::Int, void_ptr(), false))
    } else if str_eq(n, "atol") {
        Some(function1(CType::Long, void_ptr(), false))
    } else if str_eq(n, "abs") {
        Some(function1(CType::Int, CType::Int, false))
    } else if str_eq(n, "labs") {
        Some(function1(CType::Long, CType::Long, false))
    } else if str_eq(n, "llabs") {
        Some(function1(CType::LongLong, CType::LongLong, false))
    } else if str_eq(n, "fabs") {
        Some(function1(CType::Double, CType::Double, false))
    } else if str_eq(n, "fabsf") {
        Some(function1(CType::Float, CType::Float, false))
    } else if str_eq(n, "qsort") {
        Some(function4(CType::Void, void_ptr(), size_t.clone(), size_t.clone(), void_ptr(), false))
    } else if str_eq(n, "signal") {
        Some(function2(void_ptr(), CType::Int, void_ptr(), false))
    } else {
        None
    }
}

/// Common functions of the C library, the second half.
fn find_library_function_b(n: &str, size_t: &CType) -> (r: Option<CType>)
    ensures
        opt_ty(r) == library_function_b(n@, size_t@),
{
    if str_eq(n, "setjmp") || str_eq(n, "_setjmp") || str_eq(n, "sigsetjmp") {
        Some(function1(CType::Int, void_ptr(), false))
    } else if str_eq(n, "longjmp") || str_eq(n, "siglongjmp") {
        Some(function2(CType::Void, void_ptr(), CType::Int, false))
    } else if str_eq(n, "alloca") {
        Some(function1(void_ptr(), size_t.clone(), false))
    } else if str_eq(n, "bcmp") {
        Some(function3(CType::Int, void_ptr(), void_ptr(), size_t.clone(), false))
    } else if str_eq(n, "bzero") {
        Some(function2(CType::Void, void_ptr(), size_t.clone(), false))
    } else if str_eq(n, "strncat") || str_eq(n, "strncpy") {
        Some(function3(pointer_to(CType::Char), void_ptr(), void_ptr(), size_t.clone(), false))
    } else if str_eq(n, "fopen") {
        Some(function2(void_ptr(), void_ptr(), void_ptr(), false))
    } else if str_eq(n, "fclose") || str_eq(n, "fflush") {
        Some(function1(CType::Int, void_ptr(), false))
    } else if str_eq(n, "fread") || str_eq(n, "fwrite") {
        Some(
            function4(
                size_t.clone(),
                void_ptr(),
                size_t.clone(),
                size_t.clone(),
                void_ptr(),
                false,
            ),
        )
    } else if str_eq(n, "sscanf") || str_eq(n, "fscanf") || str_eq(n, "scanf") {
        Some(function1(CType::Int, void_ptr(), true))
    } else if str_eq(n, "strtol") || str_eq(n, "strtoul") {
        Some(function3(CType::Long, void_ptr(), void_ptr(), CType::Int, false))
    } else if str_eq(n, "strtoll") || str_eq(n, "strtoull") {
        Some(function3(CType::LongLong, void_ptr(), void_ptr(), CType::Int, false))
    } else if str_eq(n, "strtod") {
        Some(function2(CType::Double, void_ptr(), void_ptr(), false))
    } else if str_eq(n, "strtof") {
        Some(function2(CType::Float, void_ptr(), void_ptr(), false))
    } else if str_eq(n, "strstr") || str_eq(n, "strchr") || str_eq(n, "strrchr") {
        Some(function2(pointer_to(CType::Char), void_ptr(), CType::Int, false))
    } else if str_eq(n, "getenv") {
        Some(function1(pointer_to(CType::Char), void_ptr(), false))
    } else {
        None
    }
}

/// The builtin functions that are known by name.
pub fn find_builtin_function(n: &str, size_t: &CType, object_size: &CType) -> (r: Option<CType>)
    ensures
        opt_ty(r) == builtin_function(n@, size_t@, object_size@),
{
    match find_string_builtin(n, size_t, object_size) {
        Some(t) => Some(t),
        None => match find_float_builtin(n) {
            Some(t) => Some(t),
            None => find_atomic_builtin(n, size_t),
        },
    }
}

/// The functions of the C library that may be used without a declaration.
pub fn find_library_function(n: &str, size_t: &CType) -> (r: Option<CType>)
    ensures
        opt_ty(r) == library_function(n@, size_t@),
{
    match find_library_function_a(n, size_t) {
        Some(t) => Some(t),
        None => find_library_function_b(n, size_t),
    }
}

/// What a builtin returns of which only the name is known.
pub fn builtin_return_type_by_name(n: &str) -> (r: CType)
    ensures
        r@ == builtin_return(n@),
{
    if str_eq(n, "__builtin_expect") {
        CType::Long
    } else if str_eq(n, "__builtin_unreachable") || str_eq(n, "__builtin_trap") || str_eq(
        n,
        "__builtin_prefetch",
    ) || str_eq(n, "__builtin_va_start") || str_eq(n, "__builtin_va_end") || str_eq(
        n,
        "__builtin_va_copy",
    ) {
        CType::Void
    } else if str_eq(n, "__builtin_bswap16") {
        CType::UShort
    } else if str_eq(n, "__builtin_bswap32") {
        CType::UInt
    } else if str_eq(n, "__builtin_bswap64") {
        CType::ULongLong
    } else if str_eq(n, "__builtin_alloca") || str_eq(n, "__builtin_frame_address") || str_eq(
        n,
        "__builtin_return_address",
    ) || str_eq(n, "__builtin_assume_aligned") || str_eq(n, "__builtin_extract_return_addr") {
        void_ptr()
    } else if str_eq(n, "__builtin_add_overflow") || str_eq(n, "__builtin_sub_overflow") || str_eq(
        n,
        "__builtin_mul_overflow",
    ) {
        CType::Bool
    } else {
        CType::Int
    }
}

impl<'a> SemanticAnalyzer<'a> {
    /// The type of a name that nothing declares, and whether that calls for a
    /// warning.
    pub fn undeclared_type(&self, n: &str) -> (r: (CType, bool))
        ensures
            (r.0@, r.1) == undeclared(self@, n@),
    {
        if str_eq(n, "__func__") || str_eq(n, "__FUNCTION__") || str_eq(n, "__PRETTY_FUNCTION__") {
            return (pointer_to(CType::Char), false);
        }
        let size_t: CType = self.size_t_type();
        let object_size: CType = if self.target.pointer_width() == 8 {
            CType::ULong
        } else {
            CType::UInt
        };
        match find_builtin_function(n, &size_t, &object_size) {
            Some(t) => {
                return (t, false);
            },
            None => {},
        }
        match find_library_function(n, &size_t) {
            Some(t) => {
                return (t, false);
            },
            None => {},
        }
        if starts_with(n, "__builtin_") {
            return (function0(builtin_return_type_by_name(n), true), false);
        }
        let known: bool = starts_with(n, "__sync_") || starts_with(n, "__atomic_");
        (function0(CType::Int, true), !known)
    }

    /// The use of an identifier: finds its type and marks its symbol as used.
    /// It never fails: an undeclared name is taken for a function.
    pub fn analyze_identifier(&mut self, name: Symbol, span: Span) -> (r: Result<CType, ()>)
        ensures
            r is Ok,
            final(self)@ == identifier_use(old(self)@, name, span).0,
            ty_of(r->Ok_0) == identifier_use(old(self)@, name, span).1,
            *final(final(self).diagnostics) == *final(old(self).diagnostics),
    {
        proof {
            reveal(identifier_use);
        }
        match self.declared_type(name) {
            Some(t) => {
                self.symbols.mark_used(name);
                Ok(t)
            },
            None => {
                let text: &str = self.interner.resolve(name);
                let (t, warn): (CType, bool) = self.undeclared_type(text);
                if warn {
                    let message: String = concat3(
                        "implicit declaration of function '",
                        text,
                        "'",
                    );
                    self.diagnostics.emit_warning(span, message.as_str());
                }
                Ok(t)
            },
        }
    }

    /// What a builtin that the parser recognises returns.
    pub fn analyze_builtin_call(&self, builtin: BuiltinKind, args: &Vec<Expression>) -> (r: CType)
        ensures
            r@ == builtin_call_type(self@, builtin, args@),
    {
        proof {
            reveal(builtin_call_type);
        }
        match builtin {
            BuiltinKind::ConstantP | BuiltinKind::TypesCompatibleP | BuiltinKind::ChooseExpr
            | BuiltinKind::Clz | BuiltinKind::ClzL | BuiltinKind::ClzLL | BuiltinKind::Ctz
            | BuiltinKind::CtzL | BuiltinKind::CtzLL | BuiltinKind::Popcount
            | BuiltinKind::PopcountL | BuiltinKind::PopcountLL | BuiltinKind::Ffs
            | BuiltinKind::Ffsll | BuiltinKind::Parity | BuiltinKind::ParityL
            | BuiltinKind::ParityLL => CType::Int,
            BuiltinKind::Offsetof => self.size_t_type(),
            BuiltinKind::Expect => CType::Long,
            BuiltinKind::Unreachable | BuiltinKind::Trap | BuiltinKind::VaStart
            | BuiltinKind::VaEnd | BuiltinKind::VaCopy | BuiltinKind::PrefetchData => CType::Void,
            BuiltinKind::Bswap16 => CType::UShort,
            BuiltinKind::Bswap32 => CType::UInt,
            BuiltinKind::Bswap64 => CType::ULongLong,
            BuiltinKind::VaArg => if args.len() >= 2 {
                match &args[1] {
                    Expression::SizeofType { ty_name, .. } => self.resolve_type_name(ty_name),
                    _ => CType::Int,
                }
            } else {
                CType::Int
            },
            BuiltinKind::FrameAddress | BuiltinKind::ReturnAddress | BuiltinKind::AssumeAligned
            | BuiltinKind::ExtractReturnAddr | BuiltinKind::Alloca => void_ptr(),
            BuiltinKind::AddOverflow | BuiltinKind::SubOverflow | BuiltinKind::MulOverflow =>
            CType::Bool,
            BuiltinKind::ObjectSize => CType::ULong,
        }
    }
}

} // verus!
