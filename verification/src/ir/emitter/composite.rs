//! Structs, enums, `?`, patterns, binary operators and native equality.
use vstd::prelude::*;
use crate::mir::{
    clone_type, opt_type_eq, same_type, type_eq, BinaryOp, EnumVariantPayloadPattern, Expr, MatchExprArm,
    MatchPattern, StructLiteralField, Type,
};
use crate::name_map::NameMap;
use crate::text::{appends, concat, concat_all, decimal, i64_to_decimal, signed_decimal, owned, put_line, str_eq, usize_to_decimal};
use super::super::model::{has_field, is_first_field, EnumLayout, LlvmValue, StructLayout};
use super::super::support::{
    ax_name_of, ax_type_name, enum_base_name, ensure_same_type, find_local_use_by_name_in_match_arm, lemma_same_type_same_name,
    is_enum_value, llvm_alloc_size, llvm_binary_op_name, llvm_float_literal, llvm_type, llvm_type_of, float_literal,
    match_pattern_contains_binding, payload_equality_supported, slice_llvm_type, typed_as,
};
use super::{
    binary_line, equality_identity, equality_operand, guard_block, issued_temp, put_binary_line, put_guard_block,
    steps_forward, temp_name, compared_piecewise, eq_and_ne_test_zero, i1_op_holds, integer_test_holds, is_disjunction,
    or_is_disjunction, c_string_compare_line, string_comparison_text, tests_zero, lemma_zero_compare_text, lemma_zero_equality_text,
    i1_combination_text, lemma_or_line_text, is_conjunction, and_is_conjunction,
    tests_equality, eq_tests_equality, lemma_eq_test_words, comparison_ending_text,
    bool_value, enum_variant_tag, find_field, find_variant, i32_value, single_payload_type,
    too_deep, value, enum_name_of, FunctionEmitter, EMIT_DEPTH,
};

verus! {

/// `ty` is an enum type whose layout is a bare `i32` tag.
pub open spec fn payload_free_enum(layouts: NameMap<EnumLayout>, ty: Option<Type>) -> bool {
    ty matches Some(t) && layouts.spec_get(ax_name_of(t)) matches Some(l) && l.ty@ == "i32"@
}

/// `v` is a value of the struct laid out under `key`: its LLVM type is the
/// layout's type and its AX type is the layout's AX type.
pub open spec fn laid_out_as(layouts: NameMap<StructLayout>, key: Seq<char>, v: LlvmValue) -> bool {
    layouts.spec_get(key) matches Some(l) && v.ty@ == l.ty@ && (v.ax_ty matches Some(t) && same_type(t, l.ax_ty))
}

/// `ax_ty` is an enum type laid out with payload storage (not a bare tag).
pub open spec fn stores_payload(layouts: NameMap<EnumLayout>, ax_ty: Option<Type>) -> bool {
    match ax_ty {
        Some(t) => (t is Enum || t is EnumInstance) && match layouts.spec_get(ax_name_of(t)) {
            Some(l) => l.ty@ != "i32"@,
            None => false,
        },
        None => false,
    }
}

/// The label `<prefix>_<k>` that the counter value `k` numbers.
pub open spec fn label_name(prefix: Seq<char>, k: nat) -> Seq<char> {
    prefix + "_"@ + decimal(k)
}

/// The guard that stops the program with `message` when `condition` holds,
/// its two labels numbered by the counter values `k` and `k + 1`.
pub open spec fn runtime_guard_text(condition: Seq<char>, prefix: Seq<char>, message: Seq<char>, k: nat) -> Seq<char> {
    guard_block(condition, label_name(prefix, k), label_name(prefix + "_ok"@, k + 1), message)
}

/// One instruction line `  <result> = <a><b><c><d>`, split as the emitter
/// writes it.
#[verifier::opaque]
pub open spec fn line4(result: Seq<char>, a: Seq<char>, b: Seq<char>, c: Seq<char>, d: Seq<char>) -> Seq<char> {
    "  "@ + result + a + b + c + d + seq!['\n']
}

/// The zero test of an `i32` divisor, from temporary `k` on.
pub open spec fn i32_zero_divisor_text(divisor: Seq<char>, message: Seq<char>, k: nat) -> Seq<char> {
    line4(temp_name(k), " = icmp eq i32 "@, divisor, ", 0"@, Seq::empty()) + runtime_guard_text(
        temp_name(k),
        "i32_div_zero"@,
        message,
        k + 1,
    )
}

/// The `INT_MIN / -1` test of an `i32` division, from temporary `k` on.
pub open spec fn i32_min_overflow_text(
    left: Seq<char>,
    right: Seq<char>,
    prefix: Seq<char>,
    message: Seq<char>,
    k: nat,
) -> Seq<char> {
    line4(temp_name(k), " = icmp eq i32 "@, left, ", -2147483648"@, Seq::empty()) + line4(
        temp_name(k + 1),
        " = icmp eq i32 "@,
        right,
        ", -1"@,
        Seq::empty(),
    ) + line4(temp_name(k + 2), " = and i1 "@, temp_name(k), ", "@, temp_name(k + 1)) + runtime_guard_text(
        temp_name(k + 2),
        prefix,
        message,
        k + 3,
    )
}

/// The zero test of an `f32` divisor, from temporary `k` on.
pub open spec fn f32_zero_divisor_text(divisor: Seq<char>, k: nat) -> Seq<char> {
    line4(temp_name(k), " = fcmp oeq float "@, divisor, ", "@, float_literal(0)) + runtime_guard_text(
        temp_name(k),
        "f32_div_zero"@,
        "@.ax_rt_div_zero"@,
        k + 1,
    )
}

/// The overflow intrinsic, label prefix and message of checked `+`, `-`, `*`.
pub open spec fn checked_op_parts(op: BinaryOp) -> (Seq<char>, Seq<char>, Seq<char>) {
    match op {
        BinaryOp::Add => ("@llvm.sadd.with.overflow.i32"@, "i32_add_overflow"@, "@.ax_rt_add_overflow"@),
        BinaryOp::Subtract => ("@llvm.ssub.with.overflow.i32"@, "i32_sub_overflow"@, "@.ax_rt_sub_overflow"@),
        _ => ("@llvm.smul.with.overflow.i32"@, "i32_mul_overflow"@, "@.ax_rt_mul_overflow"@),
    }
}

/// Checked `i32` arithmetic from temporary `k` on: the overflow intrinsic,
/// its value and overflow flag, then the overflow guard.
pub open spec fn checked_i32_text(op: BinaryOp, left: Seq<char>, right: Seq<char>, k: nat) -> Seq<char> {
    line4(temp_name(k), " = call { i32, i1 } "@, checked_op_parts(op).0, "(i32 "@ + left + ", i32 "@ + right, ")"@)
        + line4(temp_name(k + 1), " = extractvalue { i32, i1 } "@, temp_name(k), ", 0"@, Seq::empty()) + line4(
        temp_name(k + 2),
        " = extractvalue { i32, i1 } "@,
        temp_name(k),
        ", 1"@,
        Seq::empty(),
    ) + runtime_guard_text(temp_name(k + 2), checked_op_parts(op).1, checked_op_parts(op).2, k + 3)
}

fn shown_value_type(v: &LlvmValue) -> (r: String)
    ensures
        r@ == match v.ax_ty {
            Some(t) => ax_name_of(t),
            None => v.ty@,
        },
{
    match &v.ax_ty {
        Some(t) => ax_type_name(t),
        None => v.ty.clone(),
    }
}

/// The layout stored under `key` has `name` as its field `i`, the first so named.
pub open spec fn names_field(layouts: &NameMap<StructLayout>, key: Seq<char>, name: Seq<char>, i: int) -> bool {
    layouts.spec_get(key) matches Some(layout) && is_first_field(layout.fields@, name, i)
}

/// The ordering comparisons.
pub open spec fn is_ordering_op(op: BinaryOp) -> bool {
    op is Less || op is LessEqual || op is Greater || op is GreaterEqual
}

/// The `icmp` predicate of an ordering comparison of `i32` values.
pub open spec fn int_predicate(op: BinaryOp) -> Seq<char> {
    match op {
        BinaryOp::Less => "slt"@,
        BinaryOp::LessEqual => "sle"@,
        BinaryOp::Greater => "sgt"@,
        _ => "sge"@,
    }
}

/// The `fcmp` predicate of an ordering comparison of `float` values.
pub open spec fn float_predicate(op: BinaryOp) -> Seq<char> {
    match op {
        BinaryOp::Less => "olt"@,
        BinaryOp::LessEqual => "ole"@,
        BinaryOp::Greater => "ogt"@,
        _ => "oge"@,
    }
}

/// What an ordering operator of the source language says of two numbers.
pub open spec fn ordering_holds(op: BinaryOp, a: int, b: int) -> bool {
    match op {
        BinaryOp::Less => a < b,
        BinaryOp::LessEqual => a <= b,
        BinaryOp::Greater => a > b,
        BinaryOp::GreaterEqual => a >= b,
        _ => false,
    }
}

/// What LLVM's ordered `fcmp` yields on two ordered (not NaN) values `a` and
/// `b`, given by their places in the order of the floats.
pub open spec fn ordered_float_test_holds(pred: Seq<char>, a: int, b: int) -> bool {
    if pred == "oeq"@ {
        a == b
    } else if pred == "one"@ {
        a != b
    } else if pred == "olt"@ {
        a < b
    } else if pred == "ole"@ {
        a <= b
    } else if pred == "ogt"@ {
        a > b
    } else if pred == "oge"@ {
        a >= b
    } else {
        false
    }
}

/// The `icmp` that an `i32` ordering comparison is lowered to computes the
/// source operator: `<` is true exactly when the left value is less, and so on.
pub proof fn int_comparisons_compute_their_operator(op: BinaryOp, a: int, b: int)
    requires
        is_ordering_op(op),
    ensures
        integer_test_holds(int_predicate(op), a, b) == ordering_holds(op, a, b),
{
    reveal_strlit("eq");
    reveal_strlit("ne");
    reveal_strlit("slt");
    reveal_strlit("sle");
    reveal_strlit("sgt");
    reveal_strlit("sge");
    assert("eq"@.len() == 2 && "ne"@.len() == 2 && "slt"@.len() == 3);
    assert("slt"@[2] != "sle"@[2] && "slt"@[1] != "sgt"@[1] && "slt"@[1] != "sge"@[1]);
    assert("sle"@[1] != "sgt"@[1] && "sle"@[1] != "sge"@[1] && "sgt"@[2] != "sge"@[2]);
    assert("sle"@.len() == 3 && "sgt"@.len() == 3 && "sge"@.len() == 3);
}

/// The `fcmp` that a `float` ordering comparison is lowered to computes the
/// source operator on ordered values.
pub proof fn float_comparisons_compute_their_operator(op: BinaryOp, a: int, b: int)
    requires
        is_ordering_op(op),
    ensures
        ordered_float_test_holds(float_predicate(op), a, b) == ordering_holds(op, a, b),
{
    reveal_strlit("oeq");
    reveal_strlit("one");
    reveal_strlit("olt");
    reveal_strlit("ole");
    reveal_strlit("ogt");
    reveal_strlit("oge");
    assert("oeq"@[1] != "olt"@[1] && "oeq"@[1] != "ole"@[1] && "oeq"@[1] != "ogt"@[1] && "oeq"@[1] != "oge"@[1]);
    assert("one"@[1] != "olt"@[1] && "one"@[1] != "ole"@[1] && "one"@[1] != "ogt"@[1] && "one"@[1] != "oge"@[1]);
    assert("olt"@[2] != "ole"@[2] && "olt"@[1] != "ogt"@[1] && "olt"@[1] != "oge"@[1]);
    assert("ole"@[1] != "ogt"@[1] && "ole"@[1] != "oge"@[1] && "ogt"@[2] != "oge"@[2]);
}

/// The `float` instruction of an arithmetic operator.
pub open spec fn float_instruction(op: BinaryOp) -> Seq<char> {
    match op {
        BinaryOp::Add => "fadd"@,
        BinaryOp::Subtract => "fsub"@,
        BinaryOp::Multiply => "fmul"@,
        _ => "fdiv"@,
    }
}

/// The operators whose result is a `bool`: comparisons and the logical ones.
pub open spec fn is_boolean_op(op: BinaryOp) -> bool {
    op is LogicalOr || op is LogicalAnd || op is Equal || op is NotEqual || op is Less
        || op is LessEqual || op is Greater || op is GreaterEqual
}

/// `value` is an enum value.
pub open spec fn enum_valued(value: LlvmValue) -> bool {
    value.ax_ty matches Some(t) && (t is Enum || t is EnumInstance)
}

/// The arithmetic operators, whose result has the type of their operands.
pub open spec fn is_arithmetic_op(op: BinaryOp) -> bool {
    op is Add || op is Subtract || op is Multiply || op is Divide || op is Remainder
}

/// The names of the values and labels of a slice comparison whose first
/// temporary is `%tn`: the data and length of each side, the length test,
/// the result and index slots, the five labels, the index, the bound test,
/// and the pointers to and values of the two elements.
pub open spec fn slice_equality_names(n: nat) -> Seq<Seq<char>> {
    seq![
        temp_name(n),
        temp_name(n + 1),
        temp_name(n + 2),
        temp_name(n + 3),
        temp_name(n + 4),
        temp_name(n + 5),
        temp_name(n + 6),
        label_name("slice_eq_length_match"@, n + 7),
        label_name("slice_eq_length_differ"@, n + 8),
        label_name("slice_eq_loop"@, n + 9),
        label_name("slice_eq_body"@, n + 10),
        label_name("slice_eq_done"@, n + 11),
        temp_name(n + 12),
        temp_name(n + 13),
        temp_name(n + 14),
        temp_name(n + 15),
        temp_name(n + 16),
        temp_name(n + 17),
    ]
}

/// The start of a slice comparison: both slices taken apart, their lengths
/// compared, a result slot that different lengths settle at once (`false`
/// for `==`, `true` for `!=`), and otherwise a loop over the indices below
/// the left length that loads the two elements at each index.
#[verifier::opaque]
pub open spec fn slice_equality_head(
    is_equal: bool,
    left_ty: Seq<char>,
    left: Seq<char>,
    right_ty: Seq<char>,
    right: Seq<char>,
    element_ty: Seq<char>,
    x: Seq<Seq<char>>,
) -> Seq<char> {
    slice_equality_extracts(is_equal, left_ty, left, right_ty, right, element_ty, x)
        + slice_equality_length_test(is_equal, left_ty, left, right_ty, right, element_ty, x)
        + slice_equality_length_blocks(is_equal, left_ty, left, right_ty, right, element_ty, x)
        + slice_equality_loop_header(is_equal, left_ty, left, right_ty, right, element_ty, x)
        + slice_equality_element_loads(is_equal, left_ty, left, right_ty, right, element_ty, x)
}

/// Part of the start of a slice comparison: the two slices taken apart.
#[verifier::opaque]
pub open spec fn slice_equality_extracts(
    is_equal: bool,
    left_ty: Seq<char>,
    left: Seq<char>,
    right_ty: Seq<char>,
    right: Seq<char>,
    element_ty: Seq<char>,
    x: Seq<Seq<char>>,
) -> Seq<char> {
    ("  "@ + x[0] + " = extractvalue "@ + left_ty + " "@ + left + ", 0"@ + seq!['\n'])
        + ("  "@ + x[1] + " = extractvalue "@ + left_ty + " "@ + left + ", 1"@ + seq!['\n'])
        + ("  "@ + x[2] + " = extractvalue "@ + right_ty + " "@ + right + ", 0"@ + seq!['\n'])
        + ("  "@ + x[3] + " = extractvalue "@ + right_ty + " "@ + right + ", 1"@ + seq!['\n'])
}

/// Part of the start of a slice comparison: the length test, the two slots and the branch on the test.
#[verifier::opaque]
pub open spec fn slice_equality_length_test(
    is_equal: bool,
    left_ty: Seq<char>,
    left: Seq<char>,
    right_ty: Seq<char>,
    right: Seq<char>,
    element_ty: Seq<char>,
    x: Seq<Seq<char>>,
) -> Seq<char> {
    ("  "@ + x[4] + " = icmp eq i32 "@ + x[1] + ", "@ + x[3] + seq!['\n'])
        + ("  "@ + x[5] + " = alloca i1"@ + seq!['\n'])
        + ("  "@ + x[6] + " = alloca i32"@ + seq!['\n'])
        + ("  br i1 "@ + x[4] + ", label %"@ + x[7] + ", label %"@ + x[8] + seq!['\n'])
}

/// Part of the start of a slice comparison: the block for different lengths and the block that starts the loop.
#[verifier::opaque]
pub open spec fn slice_equality_length_blocks(
    is_equal: bool,
    left_ty: Seq<char>,
    left: Seq<char>,
    right_ty: Seq<char>,
    right: Seq<char>,
    element_ty: Seq<char>,
    x: Seq<Seq<char>>,
) -> Seq<char> {
    (x[8] + ":"@ + seq!['\n'])
        + ("  store i1 "@ + (if is_equal { "0"@ } else { "1"@ }) + ", ptr "@ + x[5] + seq!['\n'])
        + ("  br label %"@ + x[11] + seq!['\n'])
        + (x[7] + ":"@ + seq!['\n'])
        + ("  store i1 "@ + (if is_equal { "1"@ } else { "0"@ }) + ", ptr "@ + x[5] + seq!['\n'])
        + ("  store i32 0, ptr "@ + x[6] + seq!['\n'])
        + ("  br label %"@ + x[9] + seq!['\n'])
}

/// Part of the start of a slice comparison: the loop header that tests the index against the left length.
#[verifier::opaque]
pub open spec fn slice_equality_loop_header(
    is_equal: bool,
    left_ty: Seq<char>,
    left: Seq<char>,
    right_ty: Seq<char>,
    right: Seq<char>,
    element_ty: Seq<char>,
    x: Seq<Seq<char>>,
) -> Seq<char> {
    (x[9] + ":"@ + seq!['\n'])
        + ("  "@ + x[12] + " = load i32, ptr "@ + x[6] + seq!['\n'])
        + ("  "@ + x[13] + " = icmp slt i32 "@ + x[12] + ", "@ + x[1] + seq!['\n'])
        + ("  br i1 "@ + x[13] + ", label %"@ + x[10] + ", label %"@ + x[11] + seq!['\n'])
        + (x[10] + ":"@ + seq!['\n'])
}

/// Part of the start of a slice comparison: the loads of the two elements at the index.
#[verifier::opaque]
pub open spec fn slice_equality_element_loads(
    is_equal: bool,
    left_ty: Seq<char>,
    left: Seq<char>,
    right_ty: Seq<char>,
    right: Seq<char>,
    element_ty: Seq<char>,
    x: Seq<Seq<char>>,
) -> Seq<char> {
    ("  "@ + x[14] + " = getelementptr "@ + element_ty + ", ptr "@ + x[0] + ", i32 "@ + x[12] + seq!['\n'])
        + ("  "@ + x[15] + " = getelementptr "@ + element_ty + ", ptr "@ + x[2] + ", i32 "@ + x[12] + seq!['\n'])
        + ("  "@ + x[16] + " = load "@ + element_ty + ", ptr "@ + x[14] + seq!['\n'])
        + ("  "@ + x[17] + " = load "@ + element_ty + ", ptr "@ + x[15] + seq!['\n'])
}

#[verifier::rlimit(60)]
#[verifier::spinoff_prover]
fn put_slice_equality_extracts(
    out: &mut String,
    is_equal: bool,
    left_ty: &str,
    left: &str,
    right_ty: &str,
    right: &str,
    element_ty: &str,
    x: &[&str],
)
    requires
        x@.len() == 18,
    ensures
        final(out)@ == old(out)@ + slice_equality_extracts(
            is_equal,
            left_ty@,
            left@,
            right_ty@,
            right@,
            element_ty@,
            Seq::new(18, |i: int| x@[i]@),
        ),
{
    let ghost start = out@;
    let differ = if is_equal { "0" } else { "1" };
    let initial = if is_equal { "1" } else { "0" };
    let ghost xs = Seq::new(18, |i: int| x@[i]@);
    let ghost before0 = out@;
    put_line(out, &["  ", x[0], " = extractvalue ", left_ty, " ", left, ", 0"]);
    let ghost piece0 = "  "@ + xs[0] + " = extractvalue "@ + left_ty@ + " "@ + left@ + ", 0"@ + seq!['\n'];
    assert(out@ =~= before0 + piece0) by {
        reveal_with_fuel(concat_all, 9);
    }
    assert(out@ =~= start + (piece0));
    let ghost before1 = out@;
    put_line(out, &["  ", x[1], " = extractvalue ", left_ty, " ", left, ", 1"]);
    let ghost piece1 = "  "@ + xs[1] + " = extractvalue "@ + left_ty@ + " "@ + left@ + ", 1"@ + seq!['\n'];
    assert(out@ =~= before1 + piece1) by {
        reveal_with_fuel(concat_all, 9);
    }
    assert(out@ =~= start + (piece0 + piece1));
    let ghost before2 = out@;
    put_line(out, &["  ", x[2], " = extractvalue ", right_ty, " ", right, ", 0"]);
    let ghost piece2 = "  "@ + xs[2] + " = extractvalue "@ + right_ty@ + " "@ + right@ + ", 0"@ + seq!['\n'];
    assert(out@ =~= before2 + piece2) by {
        reveal_with_fuel(concat_all, 9);
    }
    assert(out@ =~= start + (piece0 + piece1 + piece2));
    let ghost before3 = out@;
    put_line(out, &["  ", x[3], " = extractvalue ", right_ty, " ", right, ", 1"]);
    let ghost piece3 = "  "@ + xs[3] + " = extractvalue "@ + right_ty@ + " "@ + right@ + ", 1"@ + seq!['\n'];
    assert(out@ =~= before3 + piece3) by {
        reveal_with_fuel(concat_all, 9);
    }
    reveal(slice_equality_extracts);
    assert(out@ =~= start + (piece0 + piece1 + piece2 + piece3));
}

#[verifier::rlimit(60)]
#[verifier::spinoff_prover]
fn put_slice_equality_length_test(
    out: &mut String,
    is_equal: bool,
    left_ty: &str,
    left: &str,
    right_ty: &str,
    right: &str,
    element_ty: &str,
    x: &[&str],
)
    requires
        x@.len() == 18,
    ensures
        final(out)@ == old(out)@ + slice_equality_length_test(
            is_equal,
            left_ty@,
            left@,
            right_ty@,
            right@,
            element_ty@,
            Seq::new(18, |i: int| x@[i]@),
        ),
{
    let ghost start = out@;
    let differ = if is_equal { "0" } else { "1" };
    let initial = if is_equal { "1" } else { "0" };
    let ghost xs = Seq::new(18, |i: int| x@[i]@);
    let ghost before0 = out@;
    put_line(out, &["  ", x[4], " = icmp eq i32 ", x[1], ", ", x[3]]);
    let ghost piece0 = "  "@ + xs[4] + " = icmp eq i32 "@ + xs[1] + ", "@ + xs[3] + seq!['\n'];
    assert(out@ =~= before0 + piece0) by {
        reveal_with_fuel(concat_all, 9);
    }
    assert(out@ =~= start + (piece0));
    let ghost before1 = out@;
    put_line(out, &["  ", x[5], " = alloca i1"]);
    let ghost piece1 = "  "@ + xs[5] + " = alloca i1"@ + seq!['\n'];
    assert(out@ =~= before1 + piece1) by {
        reveal_with_fuel(concat_all, 9);
    }
    assert(out@ =~= start + (piece0 + piece1));
    let ghost before2 = out@;
    put_line(out, &["  ", x[6], " = alloca i32"]);
    let ghost piece2 = "  "@ + xs[6] + " = alloca i32"@ + seq!['\n'];
    assert(out@ =~= before2 + piece2) by {
        reveal_with_fuel(concat_all, 9);
    }
    assert(out@ =~= start + (piece0 + piece1 + piece2));
    let ghost before3 = out@;
    put_line(out, &["  br i1 ", x[4], ", label %", x[7], ", label %", x[8]]);
    let ghost piece3 = "  br i1 "@ + xs[4] + ", label %"@ + xs[7] + ", label %"@ + xs[8] + seq!['\n'];
    assert(out@ =~= before3 + piece3) by {
        reveal_with_fuel(concat_all, 9);
    }
    reveal(slice_equality_length_test);
    assert(out@ =~= start + (piece0 + piece1 + piece2 + piece3));
}

#[verifier::rlimit(60)]
#[verifier::spinoff_prover]
fn put_slice_equality_length_blocks(
    out: &mut String,
    is_equal: bool,
    left_ty: &str,
    left: &str,
    right_ty: &str,
    right: &str,
    element_ty: &str,
    x: &[&str],
)
    requires
        x@.len() == 18,
    ensures
        final(out)@ == old(out)@ + slice_equality_length_blocks(
            is_equal,
            left_ty@,
            left@,
            right_ty@,
            right@,
            element_ty@,
            Seq::new(18, |i: int| x@[i]@),
        ),
{
    let ghost start = out@;
    let differ = if is_equal { "0" } else { "1" };
    let initial = if is_equal { "1" } else { "0" };
    let ghost xs = Seq::new(18, |i: int| x@[i]@);
    let ghost before0 = out@;
    put_line(out, &[x[8], ":"]);
    let ghost piece0 = xs[8] + ":"@ + seq!['\n'];
    assert(out@ =~= before0 + piece0) by {
        reveal_with_fuel(concat_all, 9);
    }
    assert(out@ =~= start + (piece0));
    let ghost before1 = out@;
    put_line(out, &["  store i1 ", differ, ", ptr ", x[5]]);
    let ghost piece1 = "  store i1 "@ + differ@ + ", ptr "@ + xs[5] + seq!['\n'];
    assert(out@ =~= before1 + piece1) by {
        reveal_with_fuel(concat_all, 9);
    }
    assert(out@ =~= start + (piece0 + piece1));
    let ghost before2 = out@;
    put_line(out, &["  br label %", x[11]]);
    let ghost piece2 = "  br label %"@ + xs[11] + seq!['\n'];
    assert(out@ =~= before2 + piece2) by {
        reveal_with_fuel(concat_all, 9);
    }
    assert(out@ =~= start + (piece0 + piece1 + piece2));
    let ghost before3 = out@;
    put_line(out, &[x[7], ":"]);
    let ghost piece3 = xs[7] + ":"@ + seq!['\n'];
    assert(out@ =~= before3 + piece3) by {
        reveal_with_fuel(concat_all, 9);
    }
    assert(out@ =~= start + (piece0 + piece1 + piece2 + piece3));
    let ghost before4 = out@;
    put_line(out, &["  store i1 ", initial, ", ptr ", x[5]]);
    let ghost piece4 = "  store i1 "@ + initial@ + ", ptr "@ + xs[5] + seq!['\n'];
    assert(out@ =~= before4 + piece4) by {
        reveal_with_fuel(concat_all, 9);
    }
    assert(out@ =~= start + (piece0 + piece1 + piece2 + piece3 + piece4));
    let ghost before5 = out@;
    put_line(out, &["  store i32 0, ptr ", x[6]]);
    let ghost piece5 = "  store i32 0, ptr "@ + xs[6] + seq!['\n'];
    assert(out@ =~= before5 + piece5) by {
        reveal_with_fuel(concat_all, 9);
    }
    assert(out@ =~= start + (piece0 + piece1 + piece2 + piece3 + piece4 + piece5));
    let ghost before6 = out@;
    put_line(out, &["  br label %", x[9]]);
    let ghost piece6 = "  br label %"@ + xs[9] + seq!['\n'];
    assert(out@ =~= before6 + piece6) by {
        reveal_with_fuel(concat_all, 9);
    }
    reveal(slice_equality_length_blocks);
    assert(out@ =~= start + (piece0 + piece1 + piece2 + piece3 + piece4 + piece5 + piece6));
}

#[verifier::rlimit(60)]
#[verifier::spinoff_prover]
fn put_slice_equality_loop_header(
    out: &mut String,
    is_equal: bool,
    left_ty: &str,
    left: &str,
    right_ty: &str,
    right: &str,
    element_ty: &str,
    x: &[&str],
)
    requires
        x@.len() == 18,
    ensures
        final(out)@ == old(out)@ + slice_equality_loop_header(
            is_equal,
            left_ty@,
            left@,
            right_ty@,
            right@,
            element_ty@,
            Seq::new(18, |i: int| x@[i]@),
        ),
{
    let ghost start = out@;
    let differ = if is_equal { "0" } else { "1" };
    let initial = if is_equal { "1" } else { "0" };
    let ghost xs = Seq::new(18, |i: int| x@[i]@);
    let ghost before0 = out@;
    put_line(out, &[x[9], ":"]);
    let ghost piece0 = xs[9] + ":"@ + seq!['\n'];
    assert(out@ =~= before0 + piece0) by {
        reveal_with_fuel(concat_all, 9);
    }
    assert(out@ =~= start + (piece0));
    let ghost before1 = out@;
    put_line(out, &["  ", x[12], " = load i32, ptr ", x[6]]);
    let ghost piece1 = "  "@ + xs[12] + " = load i32, ptr "@ + xs[6] + seq!['\n'];
    assert(out@ =~= before1 + piece1) by {
        reveal_with_fuel(concat_all, 9);
    }
    assert(out@ =~= start + (piece0 + piece1));
    let ghost before2 = out@;
    put_line(out, &["  ", x[13], " = icmp slt i32 ", x[12], ", ", x[1]]);
    let ghost piece2 = "  "@ + xs[13] + " = icmp slt i32 "@ + xs[12] + ", "@ + xs[1] + seq!['\n'];
    assert(out@ =~= before2 + piece2) by {
        reveal_with_fuel(concat_all, 9);
    }
    assert(out@ =~= start + (piece0 + piece1 + piece2));
    let ghost before3 = out@;
    put_line(out, &["  br i1 ", x[13], ", label %", x[10], ", label %", x[11]]);
    let ghost piece3 = "  br i1 "@ + xs[13] + ", label %"@ + xs[10] + ", label %"@ + xs[11] + seq!['\n'];
    assert(out@ =~= before3 + piece3) by {
        reveal_with_fuel(concat_all, 9);
    }
    assert(out@ =~= start + (piece0 + piece1 + piece2 + piece3));
    let ghost before4 = out@;
    put_line(out, &[x[10], ":"]);
    let ghost piece4 = xs[10] + ":"@ + seq!['\n'];
    assert(out@ =~= before4 + piece4) by {
        reveal_with_fuel(concat_all, 9);
    }
    reveal(slice_equality_loop_header);
    assert(out@ =~= start + (piece0 + piece1 + piece2 + piece3 + piece4));
}

#[verifier::rlimit(60)]
#[verifier::spinoff_prover]
fn put_slice_equality_element_loads(
    out: &mut String,
    is_equal: bool,
    left_ty: &str,
    left: &str,
    right_ty: &str,
    right: &str,
    element_ty: &str,
    x: &[&str],
)
    requires
        x@.len() == 18,
    ensures
        final(out)@ == old(out)@ + slice_equality_element_loads(
            is_equal,
            left_ty@,
            left@,
            right_ty@,
            right@,
            element_ty@,
            Seq::new(18, |i: int| x@[i]@),
        ),
{
    let ghost start = out@;
    let differ = if is_equal { "0" } else { "1" };
    let initial = if is_equal { "1" } else { "0" };
    let ghost xs = Seq::new(18, |i: int| x@[i]@);
    let ghost before0 = out@;
    put_line(out, &["  ", x[14], " = getelementptr ", element_ty, ", ptr ", x[0], ", i32 ", x[12]]);
    let ghost piece0 = "  "@ + xs[14] + " = getelementptr "@ + element_ty@ + ", ptr "@ + xs[0] + ", i32 "@ + xs[12] + seq!['\n'];
    assert(out@ =~= before0 + piece0) by {
        reveal_with_fuel(concat_all, 9);
    }
    assert(out@ =~= start + (piece0));
    let ghost before1 = out@;
    put_line(out, &["  ", x[15], " = getelementptr ", element_ty, ", ptr ", x[2], ", i32 ", x[12]]);
    let ghost piece1 = "  "@ + xs[15] + " = getelementptr "@ + element_ty@ + ", ptr "@ + xs[2] + ", i32 "@ + xs[12] + seq!['\n'];
    assert(out@ =~= before1 + piece1) by {
        reveal_with_fuel(concat_all, 9);
    }
    assert(out@ =~= start + (piece0 + piece1));
    let ghost before2 = out@;
    put_line(out, &["  ", x[16], " = load ", element_ty, ", ptr ", x[14]]);
    let ghost piece2 = "  "@ + xs[16] + " = load "@ + element_ty@ + ", ptr "@ + xs[14] + seq!['\n'];
    assert(out@ =~= before2 + piece2) by {
        reveal_with_fuel(concat_all, 9);
    }
    assert(out@ =~= start + (piece0 + piece1 + piece2));
    let ghost before3 = out@;
    put_line(out, &["  ", x[17], " = load ", element_ty, ", ptr ", x[15]]);
    let ghost piece3 = "  "@ + xs[17] + " = load "@ + element_ty@ + ", ptr "@ + xs[15] + seq!['\n'];
    assert(out@ =~= before3 + piece3) by {
        reveal_with_fuel(concat_all, 9);
    }
    reveal(slice_equality_element_loads);
    assert(out@ =~= start + (piece0 + piece1 + piece2 + piece3));
}

/// Text appended to twice keeps what it started with.
pub proof fn lemma_appends_transitive(a: Seq<char>, b: Seq<char>, c: Seq<char>)
    requires
        appends(a, b),
        appends(b, c),
    ensures
        appends(a, c),
{
}

/// Writes the start of a slice comparison over the given names.
fn put_slice_equality_head(
    out: &mut String,
    is_equal: bool,
    left_ty: &str,
    left: &str,
    right_ty: &str,
    right: &str,
    element_ty: &str,
    x: &[&str],
)
    requires
        x@.len() == 18,
    ensures
        final(out)@ == old(out)@ + slice_equality_head(
            is_equal,
            left_ty@,
            left@,
            right_ty@,
            right@,
            element_ty@,
            Seq::new(18, |i: int| x@[i]@),
        ),
{
    let ghost start = out@;
    put_slice_equality_extracts(out, is_equal, left_ty, left, right_ty, right, element_ty, x);
    let ghost after_slice_equality_extracts = out@;
    put_slice_equality_length_test(out, is_equal, left_ty, left, right_ty, right, element_ty, x);
    let ghost after_slice_equality_length_test = out@;
    put_slice_equality_length_blocks(out, is_equal, left_ty, left, right_ty, right, element_ty, x);
    let ghost after_slice_equality_length_blocks = out@;
    put_slice_equality_loop_header(out, is_equal, left_ty, left, right_ty, right, element_ty, x);
    let ghost after_slice_equality_loop_header = out@;
    put_slice_equality_element_loads(out, is_equal, left_ty, left, right_ty, right, element_ty, x);
    let ghost after_slice_equality_element_loads = out@;
    proof {
        reveal(slice_equality_head);
        let xs = Seq::new(18, |i: int| x@[i]@);
        assert(out@ =~= start + slice_equality_head(is_equal, left_ty@, left@, right_ty@, right@, element_ty@, xs));
    }
}

/// Writes the end of a slice comparison over the given names.
#[verifier::rlimit(40)]
#[verifier::spinoff_prover]
fn put_slice_equality_tail(
    out: &mut String,
    combined: &str,
    result_slot: &str,
    index_slot: &str,
    index: &str,
    loop_label: &str,
    done_label: &str,
    next_index: &str,
    result: &str,
)
    ensures
        appends(old(out)@, final(out)@),
        final(out)@ == old(out)@ + "  store i1 "@ + combined@ + ", ptr "@ + result_slot@ + seq!['\n'] + "  "@
            + next_index@ + " = add i32 "@ + index@ + ", 1"@ + seq!['\n'] + "  store i32 "@ + next_index@ + ", ptr "@
            + index_slot@ + seq!['\n'] + "  br label %"@ + loop_label@ + seq!['\n'] + done_label@ + ":"@ + seq!['\n']
            + "  "@ + result@ + " = load i1, ptr "@ + result_slot@ + seq!['\n'],
{
    let ghost start = out@;
    put_line(out, &["  store i1 ", combined, ", ptr ", result_slot]);
    let ghost a = out@;
    put_line(out, &["  ", next_index, " = add i32 ", index, ", 1"]);
    let ghost b = out@;
    put_line(out, &["  store i32 ", next_index, ", ptr ", index_slot]);
    let ghost c = out@;
    put_line(out, &["  br label %", loop_label]);
    let ghost d = out@;
    put_line(out, &[done_label, ":"]);
    let ghost e = out@;
    put_line(out, &["  ", result, " = load i1, ptr ", result_slot]);
    proof {
        reveal_with_fuel(concat_all, 6);
        assert(a =~= start + "  store i1 "@ + combined@ + ", ptr "@ + result_slot@ + seq!['\n']);
        assert(b =~= a + "  "@ + next_index@ + " = add i32 "@ + index@ + ", 1"@ + seq!['\n']);
        assert(c =~= b + "  store i32 "@ + next_index@ + ", ptr "@ + index_slot@ + seq!['\n']);
        assert(d =~= c + "  br label %"@ + loop_label@ + seq!['\n']);
        assert(e =~= d + done_label@ + ":"@ + seq!['\n']);
        assert(out@ =~= e + "  "@ + result@ + " = load i1, ptr "@ + result_slot@ + seq!['\n']);
    }
}

/// Writes the test of an enum's tag against a variant's tag:
/// `result = icmp eq i32 tag_value, tag`.
fn put_tag_test(out: &mut String, result: &str, tag_value: &str, tag: &str)
    ensures
        final(out)@ == comparison_ending_text(old(out)@, result@, "eq"@, "i32"@, tag_value@, tag@),
{
    put_line(out, &["  ", result, " = icmp eq i32 ", tag_value, ", ", tag]);
    proof {
        reveal_with_fuel(concat_all, 7);
        lemma_eq_test_words();
        assert(out@ =~= comparison_ending_text(old(out)@, result@, "eq"@, "i32"@, tag_value@, tag@));
    }
}

impl<'a> FunctionEmitter<'a> {
    /// Lowers a struct literal: its fields in layout order.
    pub fn emit_struct_literal(
        &mut self,
        name: &str,
        fields: &Vec<StructLiteralField>,
        expected_ax_ty: Option<&Type>,
        out: &mut String,
        depth: u32,
    ) -> (r: Result<LlvmValue, String>)
        ensures
            appends(old(out)@, final(out)@),
            steps_forward(*old(self), *final(self)),
            depth == 0 ==> r is Err,
            expected_ax_ty is None && old(self).layouts.spec_get(name@) is None ==> r is Err,
            r matches Ok(v) ==> exists|key: Seq<char>| #[trigger] laid_out_as(*old(self).layouts, key, v),
        decreases depth,
    {
        if depth == 0 {
            return Err(too_deep());
        }
        let layout: &StructLayout = self.struct_literal_layout(name, expected_ax_ty)?;
        let ghost key = choose|key: Seq<char>| self.layouts.spec_get(key) == Some(*layout);
        let mut values: NameMap<LlvmValue> = NameMap::new();
        let mut i: usize = 0;
        while i < fields.len()
            invariant
                appends(old(out)@, out@),
                steps_forward(*old(self), *self),
                i <= fields@.len(),
                depth > 0,
            decreases fields@.len() - i,
        {
            let v = self.emit_expr(&fields[i].value, out, depth - 1)?;
            values.insert(fields[i].name.clone(), v);
            i += 1;
        }
        let mut consumed: NameMap<()> = NameMap::new();
        let mut rendered: Vec<(String, String)> = Vec::new();
        let mut f: usize = 0;
        while f < layout.fields.len()
            invariant
                appends(old(out)@, out@),
                steps_forward(*old(self), *self),
                f <= layout.fields@.len(),
            decreases layout.fields@.len() - f,
        {
            let field = &layout.fields[f];
            let v = match values.get(field.name.as_str()) {
                Some(v) => {
                    if consumed.contains_key(field.name.as_str()) {
                        None
                    } else {
                        Some(v.clone())
                    }
                },
                None => None,
            };
            let v = match v {
                Some(v) => v,
                None => return Err(
                    concat(
                        &[
                            "internal LLVM AOT error: struct `",
                            "` literal is missing field `",
                            field.name.as_str(),
                            "`",
                        ],
                    ),
                ),
            };
            consumed.insert(field.name.clone(), ());
            ensure_same_type(field.ty.as_str(), v.ty.as_str())?;
            rendered.push((field.ty.clone(), v.repr));
            f += 1;
        }
        let mut k: usize = 0;
        while k < values.len()
            invariant
                appends(old(out)@, out@),
                steps_forward(*old(self), *self),
                k <= values.entries().len(),
            decreases values.entries().len() - k,
        {
            let (key, _) = values.entry_at(k);
            if !consumed.contains_key(key.as_str()) {
                return Err(
                    concat(
                        &[
                            "internal LLVM AOT error: struct `",
                            layout.name.as_str(),
                            "` literal has unknown field `",
                            key.as_str(),
                            "`",
                        ],
                    ),
                );
            }
            k += 1;
        }
        let repr = self.emit_aggregate_value(layout.ty.as_str(), &rendered, out)?;
        let result = LlvmValue { ty: layout.ty.clone(), repr, ax_ty: Some(clone_type(&layout.ax_ty)) };
        assert(laid_out_as(*old(self).layouts, key, result));
        Ok(result)
    }

    /// Builds an aggregate by inserting each `(type, value)` field in turn
    /// into `undef`.
    pub fn emit_aggregate_value(
        &mut self,
        aggregate_ty: &str,
        fields: &Vec<(String, String)>,
        out: &mut String,
    ) -> (r: Result<String, String>)
        ensures
            appends(old(out)@, final(out)@),
            steps_forward(*old(self), *final(self)),
            r is Ok <==> old(self).temp_index + fields@.len() <= u32::MAX,
            r is Ok ==> final(self).temp_index == old(self).temp_index + fields@.len(),
            r matches Ok(t) ==> t@ == (if fields@.len() == 0 {
                "undef"@
            } else {
                temp_name((old(self).temp_index + fields@.len() - 1) as nat)
            }),
    {
        let mut current = owned("undef");
        let mut index: usize = 0;
        while index < fields.len()
            invariant
                appends(old(out)@, out@),
                steps_forward(*old(self), *self),
                index <= fields@.len(),
                self.temp_index == old(self).temp_index + index,
                current@ == (if index == 0 {
                    "undef"@
                } else {
                    temp_name((old(self).temp_index + index - 1) as nat)
                }),
            decreases fields@.len() - index,
        {
            let temp = self.next_temp()?;
            let n = usize_to_decimal(index);
            put_line(
                out,
                &[
                    "  ",
                    temp.as_str(),
                    " = insertvalue ",
                    aggregate_ty,
                    " ",
                    current.as_str(),
                    ", ",
                    fields[index].0.as_str(),
                    " ",
                    fields[index].1.as_str(),
                    ", ",
                    n.as_str(),
                ],
            );
            current = temp;
            index += 1;
        }
        Ok(current)
    }

    /// Lowers `base.field` by a pointer into the struct.
    pub fn emit_field(&mut self, base: &Expr, field: &str, out: &mut String, depth: u32) -> (r: Result<
        LlvmValue,
        String,
    >)
        ensures
            appends(old(out)@, final(out)@),
            steps_forward(*old(self), *final(self)),
            r matches Ok(v) ==> exists|key: Seq<char>, i: int|
                #[trigger] names_field(old(self).layouts, key, field@, i) && v.ty@ == old(self).layouts.spec_get(
                    key,
                )->0.fields@[i].ty@ && (v.ax_ty matches Some(t) && same_type(
                    t,
                    old(self).layouts.spec_get(key)->0.fields@[i].ax_ty,
                )),
            depth == 0 ==> r is Err,
            *base matches Expr::Local { local, .. } ==> (old(self).locals.view_map().contains_key(local) ==> (
            old(self).layouts.spec_get(ax_name_of(old(self).locals.view_map()[local].ax_ty)) matches Some(l) ==> ((
            depth > 1 && (old(self).locals.view_map()[local].ax_ty is Struct || old(self).locals.view_map()[local].ax_ty is StructInstance)
                && l.ty@ == old(self).locals.view_map()[local].ty@ && has_field(l.fields@, field@)
                && old(self).temp_index + 2 <= u32::MAX) ==> (r matches Ok(v) && v.repr@ == temp_name(
                (old(self).temp_index + 1) as nat,
            ) && final(self).temp_index == old(self).temp_index + 2)))),
        decreases depth,
    {
        if depth == 0 {
            return Err(too_deep());
        }
        let (base_ptr, layout) = self.emit_struct_base_ptr(base, out, depth - 1)?;
        let ghost start = self.temp_index;
        let field_layout = match find_field(layout, field) {
            Some(f) => f,
            None => return Err(
                concat(
                    &["internal LLVM AOT error: struct `", layout.name.as_str(), "` has no field `", field, "`"],
                ),
            ),
        };
        let field_ptr = self.next_temp()?;
        let n = usize_to_decimal(field_layout.index);
        put_line(
            out,
            &[
                "  ",
                field_ptr.as_str(),
                " = getelementptr ",
                layout.ty.as_str(),
                ", ptr ",
                base_ptr.as_str(),
                ", i32 0, i32 ",
                n.as_str(),
            ],
        );
        let loaded = self.next_temp()?;
        put_line(out, &["  ", loaded.as_str(), " = load ", field_layout.ty.as_str(), ", ptr ", field_ptr.as_str()]);
        assert(loaded@ == temp_name((start + 1) as nat));
        proof {
            let key = choose|k: Seq<char>| old(self).layouts.spec_get(k) == Some(*layout);
            let i = choose|i: int| is_first_field(layout.fields@, field@, i) && layout.fields@[i] == *field_layout;
            assert(names_field(old(self).layouts, key, field@, i));
        }
        Ok(LlvmValue { ty: field_layout.ty.clone(), repr: loaded, ax_ty: Some(clone_type(&field_layout.ax_ty)) })
    }

    /// A pointer to a struct: the local's own slot, or a temporary holding
    /// the value of a non-local struct expression.
    pub fn emit_struct_base_ptr(&mut self, base: &Expr, out: &mut String, depth: u32) -> (r: Result<
        (String, &'a StructLayout),
        String,
    >)
        ensures
            appends(old(out)@, final(out)@),
            steps_forward(*old(self), *final(self)),
            r matches Ok((_, layout)) ==> exists|key: Seq<char>| old(self).layouts.spec_get(key) == Some(*layout),
            *base matches Expr::Local { local, .. } ==> (r matches Ok((ptr, _)) ==> ptr@
                == old(self).locals.view_map()[local].ptr@),
            depth == 0 ==> r is Err,
            *base matches Expr::Local { local, .. } ==> (!old(self).locals.view_map().contains_key(local)
                ==> r is Err),
            *base matches Expr::Local { local, .. } ==> (old(self).locals.view_map().contains_key(local) ==> (
            old(self).layouts.spec_get(ax_name_of(old(self).locals.view_map()[local].ax_ty)) matches Some(l) ==> ((
            depth > 0 && (old(self).locals.view_map()[local].ax_ty is Struct || old(self).locals.view_map()[local].ax_ty is StructInstance)
                && l.ty@ == old(self).locals.view_map()[local].ty@) ==> (r matches Ok((_, layout)) && *layout == l
                && final(out)@ == old(out)@ && *final(self) == *old(self))))),
        decreases depth,
    {
        if depth == 0 {
            return Err(too_deep());
        }
        match base {
            Expr::Local { local, .. } => {
                let slot = self.local_slot(*local)?;
                proof {
                    lemma_same_type_same_name(slot.ax_ty, self.locals.view_map()[*local].ax_ty);
                }
                let layout = self.struct_layout_for_type(&slot.ax_ty)?;
                ensure_same_type(layout.ty.as_str(), slot.ty.as_str())?;
                return Ok((slot.ptr, layout));
            },
            _ => {},
        }
        let v = self.emit_expr(base, out, depth - 1)?;
        let ax_ty = match &v.ax_ty {
            Some(t) => clone_type(t),
            None => return Err(owned("field access base is not a struct in LLVM AOT v0")),
        };
        let layout = self.struct_layout_for_type(&ax_ty)?;
        ensure_same_type(layout.ty.as_str(), v.ty.as_str())?;
        let temp_struct = self.next_temp()?;
        put_line(out, &["  ", temp_struct.as_str(), " = alloca ", layout.ty.as_str()]);
        put_line(out, &["  store ", layout.ty.as_str(), " ", v.repr.as_str(), ", ptr ", temp_struct.as_str()]);
        Ok((temp_struct, layout))
    }

    /// Lowers an enum constructor with an optional payload expression.
    pub fn emit_enum_variant(
        &mut self,
        enum_name: &str,
        variant: &str,
        payload: Option<&Expr>,
        expected_ax_ty: Option<&Type>,
        out: &mut String,
        depth: u32,
    ) -> (r: Result<LlvmValue, String>)
        ensures
            appends(old(out)@, final(out)@),
            steps_forward(*old(self), *final(self)),
            depth == 0 ==> r is Err,
            expected_ax_ty matches Some(e) ==> ((*e is Enum || *e is EnumInstance) ==> (r matches Ok(v) ==> (
            old(self).enum_layouts.spec_get(ax_name_of(*e)) matches Some(l) && v.ty@ == l.ty@ && (v.ax_ty matches Some(
                t,
            ) && same_type(t, *e))))),
            expected_ax_ty matches Some(e) ==> ((*e is Enum || *e is EnumInstance) ==> (!(enum_name_of(*e)
                == enum_name@ && old(self).enum_layouts.spec_get(ax_name_of(*e)) is Some) ==> r is Err)),
        decreases depth,
    {
        if depth == 0 {
            return Err(too_deep());
        }
        let payload_value = match payload {
            Some(payload_expr) => Some(self.emit_expr(payload_expr, out, depth - 1)?),
            None => None,
        };
        self.emit_enum_variant_value(enum_name, variant, payload_value, expected_ax_ty, out)
    }

    /// Builds an enum value: a bare tag for unit enums, else the tag and a
    /// heap copy of the payload (or `null`).
    pub fn emit_enum_variant_value(
        &mut self,
        enum_name: &str,
        variant: &str,
        payload_value: Option<LlvmValue>,
        expected_ax_ty: Option<&Type>,
        out: &mut String,
    ) -> (r: Result<LlvmValue, String>)
        ensures
            appends(old(out)@, final(out)@),
            steps_forward(*old(self), *final(self)),
            expected_ax_ty matches Some(e) ==> ((*e is Enum || *e is EnumInstance) ==> (r matches Ok(v) ==> (
            old(self).enum_layouts.spec_get(ax_name_of(*e)) matches Some(l) && v.ty@ == l.ty@ && (v.ax_ty matches Some(
                t,
            ) && same_type(t, *e))))),
            expected_ax_ty matches Some(e) ==> ((*e is Enum || *e is EnumInstance) ==> (!(enum_name_of(*e)
                == enum_name@ && old(self).enum_layouts.spec_get(ax_name_of(*e)) is Some) ==> r is Err)),
    {
        let layout = self.enum_layout_for_constructor(enum_name, expected_ax_ty)?;
        let variant_layout = match find_variant(layout, variant) {
            Some(v) => v,
            None => return Err(
                concat(
                    &["internal LLVM AOT error: enum `", layout.name.as_str(), "` has no variant `", variant, "`"],
                ),
            ),
        };
        let tag_text = i64_to_decimal(variant_layout.tag as i64);
        if str_eq(layout.ty.as_str(), "i32") {
            if payload_value.is_some() {
                return Err(
                    concat(&["enum `", enum_name, ".", variant, "` does not carry a payload in LLVM AOT v0"]),
                );
            }
            let ax = self.enum_value_type_for_layout(layout, expected_ax_ty)?;
            return Ok(LlvmValue { ty: layout.ty.clone(), repr: tag_text, ax_ty: Some(ax) });
        }
        let payload_ptr = match (&variant_layout.payload_ax_ty, payload_value) {
            (Some(payload_ax_ty), Some(payload_value)) => {
                let payload_ty = match llvm_type(payload_ax_ty, self.layouts, self.enum_layouts) {
                    Some(t) => t,
                    None => {
                        let shown = ax_type_name(payload_ax_ty);
                        return Err(
                            concat(
                                &[
                                    "enum `",
                                    enum_name,
                                    ".",
                                    variant,
                                    "` payload type ",
                                    shown.as_str(),
                                    " is outside LLVM AOT v0",
                                ],
                            ),
                        );
                    },
                };
                ensure_same_type(payload_ty.as_str(), payload_value.ty.as_str())?;
                let payload_size = match llvm_alloc_size(payload_ax_ty, self.layouts, self.enum_layouts, EMIT_DEPTH) {
                    Some(size) => size,
                    None => {
                        let shown = ax_type_name(payload_ax_ty);
                        return Err(
                            concat(
                                &[
                                    "enum `",
                                    enum_name,
                                    ".",
                                    variant,
                                    "` payload type ",
                                    shown.as_str(),
                                    " needs a native size contract before LLVM AOT can lower it",
                                ],
                            ),
                        );
                    },
                };
                let payload_ptr = self.next_temp()?;
                let size_text = usize_to_decimal(payload_size);
                put_line(out, &["  ", payload_ptr.as_str(), " = call ptr @malloc(i64 ", size_text.as_str(), ")"]);
                put_line(
                    out,
                    &["  store ", payload_ty.as_str(), " ", payload_value.repr.as_str(), ", ptr ", payload_ptr.as_str()],
                );
                payload_ptr
            },
            (Some(_), None) => {
                return Err(concat(&["enum `", enum_name, ".", variant, "` requires a payload in LLVM AOT v0"]));
            },
            (None, Some(_)) => {
                return Err(
                    concat(&["enum `", enum_name, ".", variant, "` does not carry a payload in LLVM AOT v0"]),
                );
            },
            (None, None) => owned("null"),
        };
        let parts: Vec<(String, String)> = vec![(owned("i32"), tag_text), (owned("ptr"), payload_ptr)];
        let repr = self.emit_aggregate_value(layout.ty.as_str(), &parts, out)?;
        let ax = self.enum_value_type_for_layout(layout, expected_ax_ty)?;
        Ok(LlvmValue { ty: layout.ty.clone(), repr, ax_ty: Some(ax) })
    }

    /// Lowers `inner?`: returns `Err` rewrapped in the function's own result
    /// type when the tag is not `Ok`, and yields the `Ok` payload otherwise.
    pub fn emit_try(&mut self, inner: &Expr, out: &mut String, depth: u32) -> (r: Result<LlvmValue, String>)
        ensures
            appends(old(out)@, final(out)@),
            steps_forward(*old(self), *final(self)),
            depth == 0 || (depth > 1 && (*inner is Int || *inner is Bool || *inner is Float)) ==> r is Err,
            r matches Ok(v) ==> typed_as(v, *old(self).layouts, *old(self).enum_layouts),
        decreases depth,
    {
        if depth == 0 {
            return Err(too_deep());
        }
        let result_value = self.emit_expr(inner, out, depth - 1)?;
        let result_ax_ty = match &result_value.ax_ty {
            Some(t) => match t {
                Type::EnumInstance { .. } => clone_type(t),
                _ => return Err(
                    owned("`?` result propagation requires a concrete Result<T, E> value in LLVM AOT v0"),
                ),
            },
            None => return Err(
                owned("`?` result propagation requires a concrete Result<T, E> value in LLVM AOT v0"),
            ),
        };
        let (success_ax_ty, error_ax_ty) = self.result_success_error_types(&result_ax_ty)?;
        let return_ax_ty = clone_type(&self.return_ax_ty);
        let (_, return_error_ax_ty) = self.result_success_error_types(&return_ax_ty)?;
        if !type_eq(&error_ax_ty, &return_error_ax_ty) {
            let found = ax_type_name(&error_ax_ty);
            let current = ax_type_name(&return_error_ax_ty);
            return Err(
                concat(
                    &[
                        "`?` result propagation error type ",
                        found.as_str(),
                        " does not match current function error type ",
                        current.as_str(),
                        " in LLVM AOT v0",
                    ],
                ),
            );
        }
        let layout = self.enum_layout_for_type(&result_ax_ty)?;
        ensure_same_type(layout.ty.as_str(), result_value.ty.as_str())?;
        if str_eq(layout.ty.as_str(), "i32") {
            return Err(owned("`?` result propagation requires payload enum layout in LLVM AOT v0"));
        }
        let ok_tag = enum_variant_tag(layout, "Ok")?;
        let tag_value = self.next_temp()?;
        put_line(
            out,
            &["  ", tag_value.as_str(), " = extractvalue ", layout.ty.as_str(), " ", result_value.repr.as_str(), ", 0"],
        );
        let is_ok = self.next_temp()?;
        let ok_text = i64_to_decimal(ok_tag as i64);
        put_line(out, &["  ", is_ok.as_str(), " = icmp eq i32 ", tag_value.as_str(), ", ", ok_text.as_str()]);
        let ok_label = self.next_label("try_ok")?;
        let err_label = self.next_label("try_err")?;
        put_line(out, &["  br i1 ", is_ok.as_str(), ", label %", ok_label.as_str(), ", label %", err_label.as_str()]);
        put_line(out, &[err_label.as_str(), ":"]);
        let error_value = self.emit_enum_payload_value(&result_value, Some(&error_ax_ty), out)?;
        let return_enum_name = owned(enum_base_name(&return_ax_ty));
        let return_value = self.emit_enum_variant_value(
            return_enum_name.as_str(),
            "Err",
            Some(error_value),
            Some(&return_ax_ty),
            out,
        )?;
        let return_ty = match llvm_type(&return_ax_ty, self.layouts, self.enum_layouts) {
            Some(t) => t,
            None => {
                let shown = ax_type_name(&return_ax_ty);
                return Err(concat(&["function return type ", shown.as_str(), " is outside LLVM AOT v0"]));
            },
        };
        ensure_same_type(return_ty.as_str(), return_value.ty.as_str())?;
        put_line(out, &["  ret ", return_value.ty.as_str(), " ", return_value.repr.as_str()]);
        put_line(out, &[ok_label.as_str(), ":"]);
        self.emit_enum_payload_value(&result_value, Some(&success_ax_ty), out)
    }

    /// Lowers the payload read of an enum value.
    pub fn emit_enum_payload(
        &mut self,
        inner: &Expr,
        expected_ax_ty: Option<&Type>,
        out: &mut String,
        depth: u32,
    ) -> (r: Result<LlvmValue, String>)
        ensures
            appends(old(out)@, final(out)@),
            steps_forward(*old(self), *final(self)),
            depth == 0 ==> r is Err,
            r matches Ok(p) ==> typed_as(p, *old(self).layouts, *old(self).enum_layouts),
            expected_ax_ty matches Some(e) ==> (r matches Ok(p) ==> (p.ax_ty matches Some(t) && same_type(t, *e))),
        decreases depth,
    {
        if depth == 0 {
            return Err(too_deep());
        }
        let v = self.emit_expr(inner, out, depth - 1)?;
        self.emit_enum_payload_value(&v, expected_ax_ty, out)
    }

    /// Loads the payload of an enum value, of the expected type or of the one
    /// payload type the enum has.
    pub fn emit_enum_payload_value(
        &mut self,
        v: &LlvmValue,
        expected_ax_ty: Option<&Type>,
        out: &mut String,
    ) -> (r: Result<LlvmValue, String>)
        ensures
            appends(old(out)@, final(out)@),
            steps_forward(*old(self), *final(self)),
            !stores_payload(*old(self).enum_layouts, v.ax_ty) ==> r is Err,
            r matches Ok(p) ==> typed_as(p, *old(self).layouts, *old(self).enum_layouts) && p.repr@ == temp_name(
                (old(self).temp_index + 1) as nat,
            ) && final(self).temp_index == old(self).temp_index + 2,
            expected_ax_ty matches Some(e) ==> (r matches Ok(p) ==> (p.ax_ty matches Some(t) && same_type(t, *e))),
    {
        let enum_ax_ty = match &v.ax_ty {
            Some(t) => match t {
                Type::Enum { .. } | Type::EnumInstance { .. } => clone_type(t),
                _ => return Err(owned("enum payload extraction requires an enum value in LLVM AOT v0")),
            },
            None => return Err(owned("enum payload extraction requires an enum value in LLVM AOT v0")),
        };
        proof {
            lemma_same_type_same_name(enum_ax_ty, v.ax_ty->0);
        }
        let enum_name = owned(enum_base_name(&enum_ax_ty));
        let layout = self.enum_layout_for_type(&enum_ax_ty)?;
        if str_eq(layout.ty.as_str(), "i32") {
            return Err(
                concat(&["enum `", enum_name.as_str(), "` has no native payload storage in LLVM AOT v0"]),
            );
        }
        let payload_ax_ty = match expected_ax_ty {
            Some(expected) => {
                let mut found = false;
                let mut i: usize = 0;
                while i < layout.variants.len()
                    invariant
                        appends(old(out)@, out@),
                        steps_forward(*old(self), *self),
                        i <= layout.variants@.len(),
                    decreases layout.variants@.len() - i,
                {
                    match &layout.variants[i].payload_ax_ty {
                        Some(payload) => {
                            if type_eq(payload, expected) {
                                found = true;
                            }
                        },
                        None => {},
                    }
                    i += 1;
                }
                if !found {
                    let shown = ax_type_name(expected);
                    return Err(
                        concat(
                            &[
                                "enum `",
                                enum_name.as_str(),
                                "` has no payload variant with type ",
                                shown.as_str(),
                                " in LLVM AOT v0",
                            ],
                        ),
                    );
                }
                clone_type(expected)
            },
            None => single_payload_type(layout, enum_name.as_str())?,
        };
        let payload_ty = match llvm_type(&payload_ax_ty, self.layouts, self.enum_layouts) {
            Some(t) => t,
            None => {
                let shown = ax_type_name(&payload_ax_ty);
                return Err(
                    concat(
                        &["enum `", enum_name.as_str(), "` payload type ", shown.as_str(), " is outside LLVM AOT v0"],
                    ),
                );
            },
        };
        let ghost start = self.temp_index;
        let payload_ptr = self.next_temp()?;
        put_line(out, &["  ", payload_ptr.as_str(), " = extractvalue ", layout.ty.as_str(), " ", v.repr.as_str(), ", 1"]);
        let loaded = self.next_temp()?;
        put_line(out, &["  ", loaded.as_str(), " = load ", payload_ty.as_str(), ", ptr ", payload_ptr.as_str()]);
        assert(loaded@ == temp_name((start + 1) as nat));
        Ok(LlvmValue { ty: payload_ty, repr: loaded, ax_ty: Some(payload_ax_ty) })
    }

    /// Lowers a pattern test against the value of `scrutinee`.
    pub fn emit_match_test(
        &mut self,
        scrutinee: &Expr,
        pattern: &MatchPattern,
        out: &mut String,
        depth: u32,
    ) -> (r: Result<LlvmValue, String>)
        ensures
            appends(old(out)@, final(out)@),
            steps_forward(*old(self), *final(self)),
            r matches Ok(v) ==> v.ty@ == "i1"@ && v.ax_ty == Some(Type::Bool),
            depth == 0 ==> r is Err,
            (depth > 1 && (*pattern is Wildcard || *pattern is Binding) && (*scrutinee is Int || *scrutinee is Bool
                || *scrutinee is Float)) ==> (r matches Ok(t) && t.repr@ == "1"@ && final(out)@ == old(out)@
                && *final(self) == *old(self)),
        decreases depth,
    {
        if depth == 0 {
            return Err(too_deep());
        }
        let v = self.emit_expr(scrutinee, out, depth - 1)?;
        self.emit_match_test_value(&v, pattern, out, depth - 1)
    }

    /// The `i1` that says whether `v` matches `pattern`.
    pub fn emit_match_test_value(
        &mut self,
        v: &LlvmValue,
        pattern: &MatchPattern,
        out: &mut String,
        depth: u32,
    ) -> (r: Result<LlvmValue, String>)
        ensures
            appends(old(out)@, final(out)@),
            steps_forward(*old(self), *final(self)),
            r matches Ok(v) ==> v.ty@ == "i1"@ && v.ax_ty == Some(Type::Bool),
            depth == 0 ==> r is Err,
            depth > 0 ==> ((*pattern is Wildcard || *pattern is Binding) ==> (r matches Ok(t) && t.repr@ == "1"@
                && final(out)@ == old(out)@ && *final(self) == *old(self))),
            r matches Ok(t) ==> (*pattern matches MatchPattern::Bool { value } ==> final(out)@ == old(out)@
                + binary_line(t.repr@, "icmp eq"@, "i1"@, v.repr@, if value { "1"@ } else { "0"@ })),
            r matches Ok(t) ==> (*pattern matches MatchPattern::Int { value } ==> final(out)@ == old(out)@
                + binary_line(t.repr@, "icmp eq"@, "i32"@, v.repr@, signed_decimal(value as int))),
            r matches Ok(t) ==> (*pattern matches MatchPattern::IntRange { start, end } ==> exists|
                lower: Seq<char>,
                upper: Seq<char>,
            |
                final(out)@ == old(out)@ + binary_line(lower, "icmp sge"@, "i32"@, v.repr@, signed_decimal(start as int))
                    + binary_line(upper, "icmp sle"@, "i32"@, v.repr@, signed_decimal(end as int)) + binary_line(
                    t.repr@,
                    "and"@,
                    "i1"@,
                    lower,
                    upper,
                )),
            depth > 0 && old(self).temp_index < u32::MAX ==> ((pattern is Bool && v.ty@ == "i1"@) || (pattern is Int
                && v.ty@ == "i32"@) ==> (r matches Ok(t) && t.repr@ == temp_name(old(self).temp_index as nat)
                && final(self).temp_index == old(self).temp_index + 1)),
            depth > 0 && old(self).temp_index + 3 <= u32::MAX ==> (pattern is IntRange && v.ty@ == "i32"@ ==> (
            r matches Ok(t) && t.repr@ == temp_name((old(self).temp_index + 2) as nat) && final(self).temp_index
                == old(self).temp_index + 3)),
            *pattern matches MatchPattern::IntRange { start, end } ==> (r matches Ok(t) ==> final(out)@ == old(out)@
                + binary_line(temp_name(old(self).temp_index as nat), "icmp sge"@, "i32"@, v.repr@, signed_decimal(
                start as int,
            )) + binary_line(
                temp_name((old(self).temp_index + 1) as nat),
                "icmp sle"@,
                "i32"@,
                v.repr@,
                signed_decimal(end as int),
            ) + binary_line(
                t.repr@,
                "and"@,
                "i1"@,
                temp_name(old(self).temp_index as nat),
                temp_name((old(self).temp_index + 1) as nat),
            )),
            (pattern is Bool && v.ty@ != "i1"@) || ((pattern is Int || pattern is IntRange) && v.ty@ != "i32"@)
                ==> r is Err,
            r matches Ok(t) ==> (*pattern matches MatchPattern::String { value } ==> old(self).strings.spec_get(
                value@,
            ) is Some && exists|pred: Seq<char>|
                #[trigger] tests_zero(pred, true) && final(out)@ == old(out)@ + string_comparison_text(
                    temp_name(old(self).temp_index as nat),
                    t.repr@,
                    v.repr@,
                    old(self).strings.spec_get(value@).unwrap().symbol@,
                    pred,
                )),
            r matches Ok(t) ==> (*pattern is EnumVariant ==> exists|
                before: Seq<char>,
                pred: Seq<char>,
                tag_value: Seq<char>,
                tag: Seq<char>,
            |
                final(out)@ == #[trigger] comparison_ending_text(before, t.repr@, pred, "i32"@, tag_value, tag)
                    && tests_equality(pred)),
            r matches Ok(t) ==> (*pattern matches MatchPattern::Or { alternatives } ==> (alternatives@.len() >= 2
                ==> exists|before: Seq<char>, op: Seq<char>, left: Seq<char>, right: Seq<char>|
                final(out)@ == #[trigger] i1_combination_text(before, t.repr@, op, left, right) && is_disjunction(op))),
        decreases depth,
    {
        if depth == 0 {
            return Err(too_deep());
        }
        let ghost k = self.temp_index;
        match pattern {
            MatchPattern::Wildcard | MatchPattern::Binding { .. } => Ok(bool_value(owned("1"))),
            MatchPattern::Bool { value: expected } => {
                ensure_same_type("i1", v.ty.as_str())?;
                let result = self.next_temp()?;
                assert(result@ == temp_name(k as nat));
                let expected_text = if *expected { "1" } else { "0" };
                put_binary_line(out, result.as_str(), "icmp eq", "", "i1", v.repr.as_str(), expected_text);
                proof {
                    reveal_strlit("");
                    assert("icmp eq"@ + ""@ =~= "icmp eq"@);
                }
                Ok(bool_value(result))
            },
            MatchPattern::Int { value: expected } => {
                ensure_same_type("i32", v.ty.as_str())?;
                let result = self.next_temp()?;
                assert(result@ == temp_name(k as nat));
                let expected_text = i64_to_decimal(*expected);
                put_binary_line(out, result.as_str(), "icmp eq", "", "i32", v.repr.as_str(), expected_text.as_str());
                proof {
                    reveal_strlit("");
                    assert("icmp eq"@ + ""@ =~= "icmp eq"@);
                }
                Ok(bool_value(result))
            },
            MatchPattern::IntRange { start, end } => {
                ensure_same_type("i32", v.ty.as_str())?;
                let lower = self.next_temp()?;
                let upper = self.next_temp()?;
                let result = self.next_temp()?;
                assert(lower@ == temp_name(k as nat) && upper@ == temp_name((k + 1) as nat) && result@ == temp_name(
                    (k + 2) as nat,
                ));
                let start_text = i64_to_decimal(*start);
                let end_text = i64_to_decimal(*end);
                put_binary_line(out, lower.as_str(), "icmp sge", "", "i32", v.repr.as_str(), start_text.as_str());
                put_binary_line(out, upper.as_str(), "icmp sle", "", "i32", v.repr.as_str(), end_text.as_str());
                put_binary_line(out, result.as_str(), "and", "", "i1", lower.as_str(), upper.as_str());
                proof {
                    reveal_strlit("");
                    assert("icmp sge"@ + ""@ =~= "icmp sge"@);
                    assert("icmp sle"@ + ""@ =~= "icmp sle"@);
                    assert("and"@ + ""@ =~= "and"@);
                    assert(out@ =~= old(out)@ + binary_line(lower@, "icmp sge"@, "i32"@, v.repr@, start_text@)
                        + binary_line(upper@, "icmp sle"@, "i32"@, v.repr@, end_text@) + binary_line(
                        result@,
                        "and"@,
                        "i1"@,
                        lower@,
                        upper@,
                    ));
                }
                Ok(bool_value(result))
            },
            MatchPattern::String { value: expected } => {
                ensure_same_type("ptr", v.ty.as_str())?;
                let symbol = match self.strings.get(expected.as_str()) {
                    Some(literal) => literal.symbol.clone(),
                    None => return Err(owned("internal LLVM AOT error: missing string pattern literal")),
                };
                let compare = self.next_temp()?;
                let result = self.next_temp()?;
                let ghost b0 = out@;
                put_line(
                    out,
                    &["  ", compare.as_str(), " = call i32 @strcmp(ptr ", v.repr.as_str(), ", ptr ", symbol.as_str(), ")"],
                );
                proof {
                    reveal_with_fuel(concat_all, 8);
                    assert(out@ =~= b0 + c_string_compare_line(compare@, v.repr@, symbol@));
                }
                let ghost b1 = out@;
                put_line(out, &["  ", result.as_str(), " = icmp eq i32 ", compare.as_str(), ", 0"]);
                proof {
                    reveal_with_fuel(concat_all, 6);
                    lemma_zero_equality_text(result@, compare@);
                    assert(out@ =~= b1 + binary_line(result@, "icmp "@ + "eq"@, "i32"@, compare@, "0"@));
                    eq_and_ne_test_zero();
                    assert(tests_zero("eq"@, true));
                    assert(out@ =~= old(out)@ + string_comparison_text(compare@, result@, v.repr@, symbol@, "eq"@));
                }
                Ok(bool_value(result))
            },
            MatchPattern::EnumVariant { enum_name, variant, payload, .. } => {
                let value_ax_ty = match &v.ax_ty {
                    Some(t) => match t {
                        Type::Enum { .. } | Type::EnumInstance { .. } => {
                            if str_eq(enum_base_name(t), enum_name.as_str()) {
                                Some(t)
                            } else {
                                None
                            }
                        },
                        _ => None,
                    },
                    None => None,
                };
                let value_ax_ty = match value_ax_ty {
                    Some(t) => t,
                    None => {
                        let shown = shown_value_type(v);
                        return Err(
                            concat(
                                &[
                                    "match pattern `",
                                    enum_name.as_str(),
                                    ".",
                                    variant.as_str(),
                                    "` cannot be tested against ",
                                    shown.as_str(),
                                    " in LLVM AOT v0",
                                ],
                            ),
                        );
                    },
                };
                let layout = self.enum_layout_for_type(value_ax_ty)?;
                let variant_layout = match find_variant(layout, variant.as_str()) {
                    Some(found) => found,
                    None => return Err(
                        concat(
                            &[
                                "internal LLVM AOT error: enum `",
                                layout.name.as_str(),
                                "` has no variant `",
                                variant.as_str(),
                                "`",
                            ],
                        ),
                    ),
                };
                if payload.is_some() && variant_layout.payload_ax_ty.is_none() {
                    return Err(
                        concat(
                            &[
                                "match pattern `",
                                enum_name.as_str(),
                                ".",
                                variant.as_str(),
                                "(...)` targets a unit variant in LLVM AOT v0",
                            ],
                        ),
                    );
                }
                let tag_value = if str_eq(layout.ty.as_str(), "i32") {
                    v.repr.clone()
                } else {
                    let tag_value = self.next_temp()?;
                    put_line(
                        out,
                        &["  ", tag_value.as_str(), " = extractvalue ", layout.ty.as_str(), " ", v.repr.as_str(), ", 0"],
                    );
                    tag_value
                };
                let result = self.next_temp()?;
                let tag_text = i64_to_decimal(variant_layout.tag as i64);
                put_tag_test(out, result.as_str(), tag_value.as_str(), tag_text.as_str());
                proof {
                    eq_tests_equality();
                }
                Ok(bool_value(result))
            },
            MatchPattern::Struct { struct_name, fields } => {
                let value_ax_ty = match &v.ax_ty {
                    Some(t) => match t {
                        Type::Struct { .. } => t,
                        _ => {
                            let shown = shown_value_type(v);
                            return Err(
                                concat(
                                    &[
                                        "struct pattern `",
                                        struct_name.as_str(),
                                        " { ... }` cannot be tested against ",
                                        shown.as_str(),
                                        " in LLVM AOT v0",
                                    ],
                                ),
                            );
                        },
                    },
                    None => {
                        let shown = shown_value_type(v);
                        return Err(
                            concat(
                                &[
                                    "struct pattern `",
                                    struct_name.as_str(),
                                    " { ... }` cannot be tested against ",
                                    shown.as_str(),
                                    " in LLVM AOT v0",
                                ],
                            ),
                        );
                    },
                };
                let layout = self.struct_layout_for_type(value_ax_ty)?;
                if !str_eq(layout.name.as_str(), struct_name.as_str()) {
                    let shown = ax_type_name(value_ax_ty);
                    return Err(
                        concat(
                            &[
                                "struct pattern `",
                                struct_name.as_str(),
                                " { ... }` cannot be tested against ",
                                shown.as_str(),
                                " in LLVM AOT v0",
                            ],
                        ),
                    );
                }
                ensure_same_type(layout.ty.as_str(), v.ty.as_str())?;
                let mut i: usize = 0;
                while i < fields.len()
                    invariant
                        *pattern is Struct,
                        appends(old(out)@, out@),
                        steps_forward(*old(self), *self),
                        i <= fields@.len(),
                    decreases fields@.len() - i,
                {
                    if find_field(layout, fields[i].name.as_str()).is_none() {
                        return Err(
                            concat(
                                &[
                                    "internal LLVM AOT error: struct `",
                                    struct_name.as_str(),
                                    "` has no field `",
                                    fields[i].name.as_str(),
                                    "`",
                                ],
                            ),
                        );
                    }
                    i += 1;
                }
                Ok(bool_value(owned("1")))
            },
            MatchPattern::Error => Err(owned("match pattern requires native lowering outside LLVM AOT v0")),
            MatchPattern::Or { alternatives } => {
                let mut any_binding = false;
                let mut b: usize = 0;
                while b < alternatives.len()
                    invariant
                        *pattern is Or,
                        appends(old(out)@, out@),
                        steps_forward(*old(self), *self),
                        b <= alternatives@.len(),
                    decreases alternatives@.len() - b,
                {
                    if match_pattern_contains_binding(&alternatives[b]) {
                        any_binding = true;
                    }
                    b += 1;
                }
                if any_binding {
                    return Err(
                        owned(
                            "or patterns with bindings need binding merge semantics before LLVM AOT can lower them",
                        ),
                    );
                }
                if alternatives.len() == 0 {
                    return Ok(bool_value(owned("0")));
                }
                let mut result = self.emit_match_test_value(v, &alternatives[0], out, depth - 1)?;
                ensure_same_type("i1", result.ty.as_str())?;
                let mut k: usize = 1;
                while k < alternatives.len()
                    invariant
                        *pattern is Or,
                        appends(old(out)@, out@),
                        steps_forward(*old(self), *self),
                        1 <= k <= alternatives@.len(),
                        depth > 0,
                        result.ty@ == "i1"@ && result.ax_ty == Some(Type::Bool),
                        k >= 2 ==> exists|before: Seq<char>, op: Seq<char>, left: Seq<char>, right: Seq<char>|
                            out@ == #[trigger] i1_combination_text(before, result.repr@, op, left, right)
                                && is_disjunction(op),
                    decreases alternatives@.len() - k,
                {
                    let next = self.emit_match_test_value(v, &alternatives[k], out, depth - 1)?;
                    ensure_same_type("i1", next.ty.as_str())?;
                    let combined = self.next_temp()?;
                    let ghost b = out@;
                    put_line(out, &["  ", combined.as_str(), " = or i1 ", result.repr.as_str(), ", ", next.repr.as_str()]);
                    proof {
                        reveal_with_fuel(concat_all, 7);
                        lemma_or_line_text(combined@, result.repr@, next.repr@);
                        or_is_disjunction();
                        assert(out@ =~= i1_combination_text(b, combined@, "or"@, result.repr@, next.repr@));
                    }
                    result = bool_value(combined);
                    k += 1;
                }
                Ok(result)
            },
        }
    }

    /// Stores what a matched arm's pattern binds into the locals its guard or
    /// value reads.
    pub fn emit_match_bindings(
        &mut self,
        scrutinee: &LlvmValue,
        arm: &MatchExprArm,
        out: &mut String,
        depth: u32,
    ) -> (r: Result<(), String>)
        ensures
            appends(old(out)@, final(out)@),
            steps_forward(*old(self), *final(self)),
            depth == 0 ==> r is Err,
            (depth > 0 && (arm.pattern is Wildcard || arm.pattern is Bool || arm.pattern is Int
                || arm.pattern is IntRange || arm.pattern is String || arm.pattern is Or || arm.pattern is Error))
                ==> (r is Ok && final(out)@ == old(out)@ && *final(self) == *old(self)),
            arm.pattern matches MatchPattern::EnumVariant { payload, .. } ==> ((depth > 0 && !(payload matches Some(
                EnumVariantPayloadPattern::Binding { .. },
            ))) ==> (r is Ok && final(out)@ == old(out)@ && *final(self) == *old(self))),
        decreases depth,
    {
        if depth == 0 {
            return Err(too_deep());
        }
        match &arm.pattern {
            MatchPattern::Binding { name } => {
                match find_local_use_by_name_in_match_arm(arm, name.as_str()) {
                    Some(local) => {
                        let slot = self.local_slot(local)?;
                        if str_eq(slot.ty.as_str(), scrutinee.ty.as_str()) {
                            put_line(
                                out,
                                &["  store ", slot.ty.as_str(), " ", scrutinee.repr.as_str(), ", ptr ", slot.ptr.as_str()],
                            );
                        }
                    },
                    None => {},
                }
                Ok(())
            },
            MatchPattern::EnumVariant {
                variant,
                payload: Some(EnumVariantPayloadPattern::Binding { name: payload_name }),
                ..
            } => {
                match find_local_use_by_name_in_match_arm(arm, payload_name.as_str()) {
                    Some(local) => {
                        let slot = self.local_slot(local)?;
                        let layout = self.enum_layout_for_value(scrutinee)?;
                        let payload_ax_ty = match find_variant(layout, variant.as_str()) {
                            Some(found) => match &found.payload_ax_ty {
                                Some(t) => Some(clone_type(t)),
                                None => None,
                            },
                            None => None,
                        };
                        let payload_ax_ty = match payload_ax_ty {
                            Some(t) => t,
                            None => return Err(
                                concat(
                                    &[
                                        "match pattern payload `",
                                        variant.as_str(),
                                        "` needs a native payload type in LLVM AOT v0",
                                    ],
                                ),
                            ),
                        };
                        let expected_ty = match llvm_type(&payload_ax_ty, self.layouts, self.enum_layouts) {
                            Some(t) => t,
                            None => {
                                let shown = ax_type_name(&payload_ax_ty);
                                return Err(
                                    concat(&["enum payload type ", shown.as_str(), " is outside LLVM AOT v0"]),
                                );
                            },
                        };
                        if str_eq(slot.ty.as_str(), expected_ty.as_str()) {
                            let payload_value = self.emit_enum_payload_value(scrutinee, Some(&payload_ax_ty), out)?;
                            ensure_same_type(slot.ty.as_str(), payload_value.ty.as_str())?;
                            put_line(
                                out,
                                &[
                                    "  store ",
                                    slot.ty.as_str(),
                                    " ",
                                    payload_value.repr.as_str(),
                                    ", ptr ",
                                    slot.ptr.as_str(),
                                ],
                            );
                        }
                    },
                    None => {},
                }
                Ok(())
            },
            MatchPattern::Struct { struct_name, fields } => {
                let scrutinee_ax_ty = match &scrutinee.ax_ty {
                    Some(t) => match t {
                        Type::Struct { .. } => t,
                        _ => return Err(
                            concat(
                                &[
                                    "struct pattern `",
                                    struct_name.as_str(),
                                    " { ... }` requires a struct value in LLVM AOT v0",
                                ],
                            ),
                        ),
                    },
                    None => return Err(
                        concat(
                            &["struct pattern `", struct_name.as_str(), " { ... }` requires a struct value in LLVM AOT v0"],
                        ),
                    ),
                };
                let layout = self.struct_layout_for_type(scrutinee_ax_ty)?;
                if !str_eq(layout.name.as_str(), struct_name.as_str()) {
                    let shown = ax_type_name(scrutinee_ax_ty);
                    return Err(
                        concat(
                            &[
                                "struct pattern `",
                                struct_name.as_str(),
                                " { ... }` cannot bind fields from ",
                                shown.as_str(),
                                " in LLVM AOT v0",
                            ],
                        ),
                    );
                }
                ensure_same_type(layout.ty.as_str(), scrutinee.ty.as_str())?;
                let mut i: usize = 0;
                while i < fields.len()
                    invariant
                        appends(old(out)@, out@),
                        steps_forward(*old(self), *self),
                        i <= fields@.len(),
                        arm.pattern is Struct,
                    decreases fields@.len() - i,
                {
                    let field = &fields[i];
                    match find_local_use_by_name_in_match_arm(arm, field.binding.as_str()) {
                        Some(local) => {
                            let slot = self.local_slot(local)?;
                            let field_layout = match find_field(layout, field.name.as_str()) {
                                Some(f) => f,
                                None => return Err(
                                    concat(
                                        &[
                                            "internal LLVM AOT error: struct `",
                                            layout.name.as_str(),
                                            "` has no field `",
                                            field.name.as_str(),
                                            "`",
                                        ],
                                    ),
                                ),
                            };
                            ensure_same_type(field_layout.ty.as_str(), slot.ty.as_str())?;
                            let extracted = self.next_temp()?;
                            let n = usize_to_decimal(field_layout.index);
                            put_line(
                                out,
                                &[
                                    "  ",
                                    extracted.as_str(),
                                    " = extractvalue ",
                                    layout.ty.as_str(),
                                    " ",
                                    scrutinee.repr.as_str(),
                                    ", ",
                                    n.as_str(),
                                ],
                            );
                            put_line(out, &["  store ", slot.ty.as_str(), " ", extracted.as_str(), ", ptr ", slot.ptr.as_str()]);
                        },
                        None => {},
                    }
                    i += 1;
                }
                Ok(())
            },
            _ => Ok(()),
        }
    }

    /// Lowers a binary operator applied to two lowered operands.
    #[verifier::rlimit(80)]
    pub fn emit_binary(
        &mut self,
        op: BinaryOp,
        left: LlvmValue,
        right: LlvmValue,
        out: &mut String,
        depth: u32,
    ) -> (r: Result<LlvmValue, String>)
        ensures
            appends(old(out)@, final(out)@),
            steps_forward(*old(self), *final(self)),
            depth > 0 && old(self).temp_index < u32::MAX && left.ty@ == "i32"@ && right.ty@ == "i32"@
                && left.ax_ty == Some(Type::I32) && right.ax_ty == Some(Type::I32) && is_ordering_op(op) ==> r is Ok,
            depth > 0 && old(self).temp_index < u32::MAX && left.ty@ == "i1"@ && right.ty@ == "i1"@
                && left.ax_ty == Some(Type::Bool) && right.ax_ty == Some(Type::Bool) && (op is LogicalAnd
                || op is LogicalOr) ==> r is Ok,
            r is Ok ==> left.ty@ == right.ty@,
            r matches Ok(v) ==> (is_boolean_op(op) ==> v.ty@ == "i1"@ && v.ax_ty == Some(Type::Bool)),
            r matches Ok(v) ==> (is_arithmetic_op(op) ==> v.ty@ == left.ty@ && (v.ty@ == "i32"@
                || v.ty@ == "float"@ || v.ty@ == "ptr"@)),
            r matches Ok(v) ==> (op is Remainder ==> v.ty@ == "i32"@),
            r matches Ok(v) ==> (is_ordering_op(op) && left.ty@ == "i32"@ ==> final(out)@ == old(out)@
                + binary_line(v.repr@, "icmp "@ + int_predicate(op), "i32"@, left.repr@, right.repr@)),
            r matches Ok(v) ==> (is_ordering_op(op) && left.ty@ == "float"@ ==> final(out)@ == old(out)@
                + binary_line(v.repr@, "fcmp "@ + float_predicate(op), "float"@, left.repr@, right.repr@)),
            r matches Ok(v) ==> (op is LogicalAnd ==> final(out)@ == old(out)@ + binary_line(
                v.repr@,
                "and"@,
                "i1"@,
                left.repr@,
                right.repr@,
            )),
            r matches Ok(v) ==> (op is LogicalOr ==> final(out)@ == old(out)@ + binary_line(
                v.repr@,
                "or"@,
                "i1"@,
                left.repr@,
                right.repr@,
            )),
            r matches Ok(v) ==> ((op is Add || op is Subtract || op is Multiply) && left.ty@ == "float"@
                ==> final(out)@ == old(out)@ + binary_line(
                v.repr@,
                float_instruction(op),
                "float"@,
                left.repr@,
                right.repr@,
            )),
            r matches Ok(v) ==> (op is Divide && left.ty@ == "float"@ ==> final(out)@ == old(out)@
                + f32_zero_divisor_text(right.repr@, (old(self).temp_index + 1) as nat) + binary_line(
                v.repr@,
                "fdiv"@,
                "float"@,
                left.repr@,
                right.repr@,
            )),
            r matches Ok(v) ==> (op is Divide && left.ty@ == "i32"@ ==> v.repr@ == temp_name(
                old(self).temp_index as nat,
            ) && final(out)@ == old(out)@ + i32_zero_divisor_text(
                right.repr@,
                "@.ax_rt_div_zero"@,
                (old(self).temp_index + 1) as nat,
            ) + i32_min_overflow_text(
                left.repr@,
                right.repr@,
                "i32_div_overflow"@,
                "@.ax_rt_div_overflow"@,
                (old(self).temp_index + 4) as nat,
            ) + binary_line(v.repr@, "sdiv"@, "i32"@, left.repr@, right.repr@)),
            r matches Ok(v) ==> (op is Remainder && left.ty@ == "i32"@ ==> v.repr@ == temp_name(
                old(self).temp_index as nat,
            ) && final(out)@ == old(out)@ + i32_zero_divisor_text(
                right.repr@,
                "@.ax_rt_mod_zero"@,
                (old(self).temp_index + 1) as nat,
            ) + i32_min_overflow_text(
                left.repr@,
                right.repr@,
                "i32_rem_overflow"@,
                "@.ax_rt_rem_overflow"@,
                (old(self).temp_index + 4) as nat,
            ) + binary_line(v.repr@, "srem"@, "i32"@, left.repr@, right.repr@)),
            r matches Ok(v) ==> ((op is Add || op is Subtract || op is Multiply) && left.ty@ == "i32"@ ==> v.repr@
                == temp_name((old(self).temp_index + 2) as nat) && final(out)@ == old(out)@ + checked_i32_text(
                op,
                left.repr@,
                right.repr@,
                (old(self).temp_index + 1) as nat,
            )),
            r matches Ok(v) ==> (op is Add && left.ty@ == "ptr"@ ==> final(out)@ == old(out)@ + "  "@ + v.repr@
                + " = call ptr @ax_string_concat(ptr "@ + left.repr@ + ", ptr "@ + right.repr@ + ")"@ + seq![
                '\n',
            ]),
            depth > 0 && old(self).temp_index + 9 <= u32::MAX && left.ty@ == "i32"@ && right.ty@ == "i32"@
                && !enum_valued(left) && !enum_valued(right) && is_arithmetic_op(op) ==> r is Ok,
            depth > 0 && old(self).temp_index + 4 <= u32::MAX && left.ty@ == "float"@ && right.ty@ == "float"@
                && !enum_valued(left) && !enum_valued(right) && (op is Add || op is Subtract || op is Multiply
                || op is Divide) ==> r is Ok,
            depth > 0 && old(self).temp_index + 1 <= u32::MAX && left.ty@ == "ptr"@ && right.ty@ == "ptr"@
                && !enum_valued(left) && !enum_valued(right) && op is Add ==> r is Ok,
            depth > 0 && left.ty@ != right.ty@ ==> r is Err && final(out)@ == old(out)@,
            depth > 0 && left.ty@ == right.ty@ && (enum_valued(left) || enum_valued(right)) && !(op is Equal
                || op is NotEqual) ==> final(out)@ == old(out)@ && (r matches Err(e) && e@ == (if match (
                left.ax_ty,
                right.ax_ty,
            ) {
                (Some(x), Some(y)) => same_type(x, y),
                (None, None) => true,
                _ => false,
            } {
                "enum values only support equality comparisons in LLVM AOT v0"@
            } else {
                "enum comparison in LLVM AOT v0 requires both operands to have the same enum type"@
            })),
        decreases depth,
    {
        if depth == 0 {
            return Err(too_deep());
        }
        proof {
            reveal_strlit("i32");
            reveal_strlit("i1");
            reveal_strlit("float");
            reveal_strlit("ptr");
            assert("ptr"@[0] != "i32"@[0] && "float"@.len() != "i32"@.len());
        }
        let ghost k = self.temp_index;
        ensure_same_type(left.ty.as_str(), right.ty.as_str())?;
        if is_enum_value(&left) || is_enum_value(&right) {
            if !opt_type_eq(&left.ax_ty, &right.ax_ty) {
                return Err(
                    owned("enum comparison in LLVM AOT v0 requires both operands to have the same enum type"),
                );
            }
            match op {
                BinaryOp::Equal | BinaryOp::NotEqual => {},
                _ => return Err(owned("enum values only support equality comparisons in LLVM AOT v0")),
            }
            return self.emit_enum_equality(op, left, right, out, depth - 1);
        }
        let temp = self.next_temp()?;
        assert(temp@ == temp_name(k as nat));
        match op {
            BinaryOp::Add | BinaryOp::Subtract | BinaryOp::Multiply | BinaryOp::Divide
            | BinaryOp::Remainder => {
                if str_eq(left.ty.as_str(), "ptr") {
                    match op {
                        BinaryOp::Add => {
                            let ghost before = out@;
                            put_line(
                                out,
                                &[
                                    "  ",
                                    temp.as_str(),
                                    " = call ptr @ax_string_concat(ptr ",
                                    left.repr.as_str(),
                                    ", ptr ",
                                    right.repr.as_str(),
                                    ")",
                                ],
                            );
                            proof {
                                reveal_with_fuel(concat_all, 8);
                            }
                            return Ok(value("ptr", temp, Some(Type::String)));
                        },
                        _ => return Err(
                            concat(&["string values do not support `", llvm_binary_op_name(op), "` in LLVM AOT v0"]),
                        ),
                    }
                }
                if str_eq(left.ty.as_str(), "float") {
                    let instruction = match op {
                        BinaryOp::Add => "fadd",
                        BinaryOp::Subtract => "fsub",
                        BinaryOp::Multiply => "fmul",
                        BinaryOp::Divide => "fdiv",
                        _ => return Err(owned("f32 values do not support `%` in LLVM AOT v0")),
                    };
                    match op {
                        BinaryOp::Divide => self.emit_float_zero_divisor_check(right.repr.as_str(), out)?,
                        _ => {},
                    }
                    let ghost before = out@;
                    put_binary_line(out, temp.as_str(), instruction, "", "float", left.repr.as_str(), right.repr.as_str());
                    proof {
                        reveal_strlit("");
                        assert(instruction@ + ""@ =~= instruction@);
                        let checks = if op is Divide {
                            f32_zero_divisor_text(right.repr@, (k + 1) as nat)
                        } else {
                            Seq::<char>::empty()
                        };
                        assert(before =~= old(out)@ + checks);
                        assert(out@ =~= old(out)@ + checks + binary_line(
                            temp@,
                            instruction@,
                            "float"@,
                            left.repr@,
                            right.repr@,
                        ));
                        if !(op is Divide) {
                            assert(before == old(out)@);
                            assert(checks =~= Seq::<char>::empty());
                        }
                    }
                    return Ok(value("float", temp, Some(Type::F32)));
                }
                ensure_same_type("i32", left.ty.as_str())?;
                let instruction = match op {
                    BinaryOp::Add | BinaryOp::Subtract | BinaryOp::Multiply => {
                        return self.emit_checked_i32_arithmetic(op, &left, &right, out);
                    },
                    BinaryOp::Divide => {
                        self.emit_i32_zero_divisor_check(right.repr.as_str(), "@.ax_rt_div_zero", out)?;
                        self.emit_i32_signed_min_overflow_check(
                            left.repr.as_str(),
                            right.repr.as_str(),
                            "i32_div_overflow",
                            "@.ax_rt_div_overflow",
                            out,
                        )?;
                        "sdiv"
                    },
                    _ => {
                        self.emit_i32_zero_divisor_check(right.repr.as_str(), "@.ax_rt_mod_zero", out)?;
                        self.emit_i32_signed_min_overflow_check(
                            left.repr.as_str(),
                            right.repr.as_str(),
                            "i32_rem_overflow",
                            "@.ax_rt_rem_overflow",
                            out,
                        )?;
                        "srem"
                    },
                };
                let ghost before = out@;
                put_binary_line(out, temp.as_str(), instruction, "", "i32", left.repr.as_str(), right.repr.as_str());
                proof {
                    reveal_strlit("");
                    assert(instruction@ + ""@ =~= instruction@);
                    let checks = if op is Divide {
                        i32_zero_divisor_text(right.repr@, "@.ax_rt_div_zero"@, (k + 1) as nat) + i32_min_overflow_text(
                            left.repr@,
                            right.repr@,
                            "i32_div_overflow"@,
                            "@.ax_rt_div_overflow"@,
                            (k + 4) as nat,
                        )
                    } else {
                        i32_zero_divisor_text(right.repr@, "@.ax_rt_mod_zero"@, (k + 1) as nat) + i32_min_overflow_text(
                            left.repr@,
                            right.repr@,
                            "i32_rem_overflow"@,
                            "@.ax_rt_rem_overflow"@,
                            (k + 4) as nat,
                        )
                    };
                    assert(before =~= old(out)@ + checks);
                    assert(out@ =~= old(out)@ + checks + binary_line(
                        temp@,
                        instruction@,
                        "i32"@,
                        left.repr@,
                        right.repr@,
                    ));
                }
                Ok(i32_value(temp))
            },
            BinaryOp::LogicalAnd | BinaryOp::LogicalOr => {
                ensure_same_type("i1", left.ty.as_str())?;
                let instruction = match op {
                    BinaryOp::LogicalAnd => "and",
                    _ => "or",
                };
                put_binary_line(out, temp.as_str(), instruction, "", "i1", left.repr.as_str(), right.repr.as_str());
                proof {
                    reveal_strlit("");
                    assert(instruction@ + ""@ =~= instruction@);
                }
                Ok(bool_value(temp))
            },
            BinaryOp::Equal | BinaryOp::NotEqual => {
                let result = self.emit_value_equality(op, &left, &right, out, depth - 1)?;
                Ok(bool_value(result))
            },
            _ => {
                if str_eq(left.ty.as_str(), "float") {
                    let predicate = match op {
                        BinaryOp::Less => "olt",
                        BinaryOp::LessEqual => "ole",
                        BinaryOp::Greater => "ogt",
                        _ => "oge",
                    };
                    put_binary_line(out, temp.as_str(), "fcmp ", predicate, "float", left.repr.as_str(), right.repr.as_str());
                    return Ok(bool_value(temp));
                }
                ensure_same_type("i32", left.ty.as_str())?;
                let predicate = match op {
                    BinaryOp::Less => "slt",
                    BinaryOp::LessEqual => "sle",
                    BinaryOp::Greater => "sgt",
                    _ => "sge",
                };
                put_binary_line(out, temp.as_str(), "icmp ", predicate, "i32", left.repr.as_str(), right.repr.as_str());
                Ok(bool_value(temp))
            },
        }
    }

    #[verifier::rlimit(60)]
    #[verifier::spinoff_prover]
    fn emit_checked_i32_arithmetic(
        &mut self,
        op: BinaryOp,
        left: &LlvmValue,
        right: &LlvmValue,
        out: &mut String,
    ) -> (r: Result<LlvmValue, String>)
        ensures
            appends(old(out)@, final(out)@),
            steps_forward(*old(self), *final(self)),
            r is Ok <==> old(self).temp_index + 5 <= u32::MAX,
            r is Ok ==> final(self).temp_index == old(self).temp_index + 5,
            r matches Ok(v) ==> v.ty@ == "i32"@ && v.ax_ty == Some(Type::I32),
            r matches Ok(v) ==> v.repr@ == temp_name((old(self).temp_index + 1) as nat) && final(out)@ == old(out)@
                + checked_i32_text(op, left.repr@, right.repr@, old(self).temp_index as nat),
    {
        let ghost k = self.temp_index;
        let (intrinsic, label_prefix, message) = match op {
            BinaryOp::Add => ("@llvm.sadd.with.overflow.i32", "i32_add_overflow", "@.ax_rt_add_overflow"),
            BinaryOp::Subtract => ("@llvm.ssub.with.overflow.i32", "i32_sub_overflow", "@.ax_rt_sub_overflow"),
            _ => ("@llvm.smul.with.overflow.i32", "i32_mul_overflow", "@.ax_rt_mul_overflow"),
        };
        proof {
            assert(intrinsic@ == checked_op_parts(op).0 && label_prefix@ == checked_op_parts(op).1 && message@
                == checked_op_parts(op).2);
        }
        let checked = self.next_temp()?;
        put_line(
            out,
            &[
                "  ",
                checked.as_str(),
                " = call { i32, i1 } ",
                intrinsic,
                "(i32 ",
                left.repr.as_str(),
                ", i32 ",
                right.repr.as_str(),
                ")",
            ],
        );
        proof {
            reveal(line4);
            reveal_with_fuel(concat_all, 10);
            assert(out@ =~= old(out)@ + line4(
                temp_name(k as nat),
                " = call { i32, i1 } "@,
                intrinsic@,
                "(i32 "@ + left.repr@ + ", i32 "@ + right.repr@,
                ")"@,
            ));
        }
        let ghost o1 = out@;
        let result = self.next_temp()?;
        put_line(out, &["  ", result.as_str(), " = extractvalue { i32, i1 } ", checked.as_str(), ", 0"]);
        proof {
            reveal(line4);
            reveal_with_fuel(concat_all, 6);
            assert(out@ =~= o1 + line4(temp_name((k + 1) as nat), " = extractvalue { i32, i1 } "@, temp_name(k as nat), ", 0"@, Seq::empty()));
        }
        let ghost o2 = out@;
        let overflow = self.next_temp()?;
        put_line(out, &["  ", overflow.as_str(), " = extractvalue { i32, i1 } ", checked.as_str(), ", 1"]);
        proof {
            reveal(line4);
            reveal_with_fuel(concat_all, 6);
            assert(out@ =~= o2 + line4(temp_name((k + 2) as nat), " = extractvalue { i32, i1 } "@, temp_name(k as nat), ", 1"@, Seq::empty()));
        }
        self.emit_runtime_error_if(overflow.as_str(), label_prefix, message, out)?;
        proof {
            assert(out@ =~= old(out)@ + checked_i32_text(op, left.repr@, right.repr@, k as nat));
        }
        Ok(i32_value(result))
    }

    fn emit_i32_zero_divisor_check(&mut self, divisor: &str, message: &str, out: &mut String) -> (r: Result<
        (),
        String,
    >)
        ensures
            appends(old(out)@, final(out)@),
            steps_forward(*old(self), *final(self)),
            r is Ok <==> old(self).temp_index + 3 <= u32::MAX,
            r is Ok ==> final(self).temp_index == old(self).temp_index + 3,
            r is Ok ==> final(out)@ == old(out)@ + i32_zero_divisor_text(divisor@, message@, old(self).temp_index as nat),
    {
        let ghost k = self.temp_index;
        let is_zero = self.next_temp()?;
        put_line(out, &["  ", is_zero.as_str(), " = icmp eq i32 ", divisor, ", 0"]);
        proof {
            reveal(line4);
            reveal_with_fuel(concat_all, 6);
            assert(out@ =~= old(out)@ + line4(temp_name(k as nat), " = icmp eq i32 "@, divisor@, ", 0"@, Seq::empty()));
        }
        let r = self.emit_runtime_error_if(is_zero.as_str(), "i32_div_zero", message, out);
        proof {
            if r is Ok {
                assert(out@ =~= old(out)@ + i32_zero_divisor_text(divisor@, message@, k as nat));
            }
        }
        r
    }

    #[verifier::rlimit(40)]
    #[verifier::spinoff_prover]
    fn emit_i32_signed_min_overflow_check(
        &mut self,
        left: &str,
        right: &str,
        label_prefix: &str,
        message: &str,
        out: &mut String,
    ) -> (r: Result<(), String>)
        ensures
            appends(old(out)@, final(out)@),
            steps_forward(*old(self), *final(self)),
            r is Ok <==> old(self).temp_index + 5 <= u32::MAX,
            r is Ok ==> final(self).temp_index == old(self).temp_index + 5,
            r is Ok ==> final(out)@ == old(out)@ + i32_min_overflow_text(
                left@,
                right@,
                label_prefix@,
                message@,
                old(self).temp_index as nat,
            ),
    {
        let ghost k = self.temp_index;
        let is_min = self.next_temp()?;
        let is_neg_one = self.next_temp()?;
        let overflow = self.next_temp()?;
        let ghost o0 = out@;
        put_line(out, &["  ", is_min.as_str(), " = icmp eq i32 ", left, ", -2147483648"]);
        proof {
            reveal(line4);
            reveal_with_fuel(concat_all, 6);
            assert(out@ =~= o0 + line4(temp_name(k as nat), " = icmp eq i32 "@, left@, ", -2147483648"@, Seq::empty()));
        }
        let ghost o1 = out@;
        put_line(out, &["  ", is_neg_one.as_str(), " = icmp eq i32 ", right, ", -1"]);
        proof {
            reveal(line4);
            reveal_with_fuel(concat_all, 6);
            assert(out@ =~= o1 + line4(temp_name((k + 1) as nat), " = icmp eq i32 "@, right@, ", -1"@, Seq::empty()));
        }
        let ghost o2 = out@;
        put_line(out, &["  ", overflow.as_str(), " = and i1 ", is_min.as_str(), ", ", is_neg_one.as_str()]);
        proof {
            reveal(line4);
            reveal_with_fuel(concat_all, 7);
            assert(out@ =~= o2 + line4(
                temp_name((k + 2) as nat),
                " = and i1 "@,
                temp_name(k as nat),
                ", "@,
                temp_name((k + 1) as nat),
            ));
        }
        let r = self.emit_runtime_error_if(overflow.as_str(), label_prefix, message, out);
        proof {
            if r is Ok {
                assert(out@ =~= old(out)@ + i32_min_overflow_text(left@, right@, label_prefix@, message@, k as nat));
            }
        }
        r
    }

    fn emit_float_zero_divisor_check(&mut self, divisor: &str, out: &mut String) -> (r: Result<(), String>)
        ensures
            appends(old(out)@, final(out)@),
            steps_forward(*old(self), *final(self)),
            r is Ok <==> old(self).temp_index + 3 <= u32::MAX,
            r is Ok ==> final(self).temp_index == old(self).temp_index + 3,
            r is Ok ==> final(out)@ == old(out)@ + f32_zero_divisor_text(divisor@, old(self).temp_index as nat),
    {
        let ghost k = self.temp_index;
        let is_zero = self.next_temp()?;
        let zero = llvm_float_literal(0);
        put_line(out, &["  ", is_zero.as_str(), " = fcmp oeq float ", divisor, ", ", zero.as_str()]);
        proof {
            reveal(line4);
            reveal_with_fuel(concat_all, 7);
            assert(out@ =~= old(out)@ + line4(temp_name(k as nat), " = fcmp oeq float "@, divisor@, ", "@, float_literal(0)));
        }
        let r = self.emit_runtime_error_if(is_zero.as_str(), "f32_div_zero", "@.ax_rt_div_zero", out);
        proof {
            if r is Ok {
                assert(out@ =~= old(out)@ + f32_zero_divisor_text(divisor@, k as nat));
            }
        }
        r
    }

    /// Branches to a block that reports `message` and exits when `condition`
    /// holds, and continues in a fresh block otherwise.
    pub fn emit_runtime_error_if(
        &mut self,
        condition: &str,
        label_prefix: &str,
        message: &str,
        out: &mut String,
    ) -> (r: Result<(), String>)
        ensures
            appends(old(out)@, final(out)@),
            steps_forward(*old(self), *final(self)),
            r is Ok <==> old(self).temp_index + 2 <= u32::MAX,
            r is Ok ==> final(self).temp_index == old(self).temp_index + 2,
            r is Ok ==> final(out)@ == old(out)@ + runtime_guard_text(
                condition@,
                label_prefix@,
                message@,
                old(self).temp_index as nat,
            ),
            r is Err ==> final(out)@ == old(out)@,
    {
        let fail_label = self.next_label(label_prefix)?;
        let ok_prefix = concat(&[label_prefix, "_ok"]);
        proof {
            reveal_with_fuel(concat_all, 3);
        }
        let ok_label = self.next_label(ok_prefix.as_str())?;
        put_guard_block(out, condition, fail_label.as_str(), ok_label.as_str(), message);
        Ok(())
    }

    /// Equality of two enum values: tags first, then the payloads of the
    /// variant both carry.
    pub fn emit_enum_equality(
        &mut self,
        op: BinaryOp,
        left: LlvmValue,
        right: LlvmValue,
        out: &mut String,
        depth: u32,
    ) -> (r: Result<LlvmValue, String>)
        ensures
            appends(old(out)@, final(out)@),
            steps_forward(*old(self), *final(self)),
            r matches Ok(v) ==> v.ty@ == "i1"@ && v.ax_ty == Some(Type::Bool),
            r matches Ok(v) ==> issued_temp(v.repr@, old(self).temp_index, final(self).temp_index),
            depth == 0 || left.ax_ty is None ==> r is Err,
            left.ax_ty matches Some(t) && !(old(self).enum_layouts.spec_get(ax_name_of(t)) matches Some(layout)
                && layout.ty@ == left.ty@ && layout.ty@ == right.ty@) ==> r is Err,
            left.ax_ty matches Some(t) ==> (old(self).enum_layouts.spec_get(ax_name_of(t)) matches Some(layout) ==> ((
            depth > 0 && layout.ty@ == "i32"@ && left.ty@ == "i32"@ && right.ty@ == "i32"@ && old(self).temp_index
                < u32::MAX) ==> (r matches Ok(v) && v.repr@ == temp_name(old(self).temp_index as nat)
                && final(self).temp_index == old(self).temp_index + 1 && final(out)@ == old(out)@ + binary_line(
                v.repr@,
                "icmp "@ + (if op is Equal {
                    "eq"@
                } else {
                    "ne"@
                }),
                "i32"@,
                left.repr@,
                right.repr@,
            )))),
        decreases depth,
    {
        if depth == 0 {
            return Err(too_deep());
        }
        let enum_ax_ty = match &left.ax_ty {
            Some(t) => clone_type(t),
            None => return Err(owned("enum equality requires enum type metadata in LLVM AOT v0")),
        };
        proof {
            lemma_same_type_same_name(enum_ax_ty, left.ax_ty->0);
        }
        let layout = self.enum_layout_for_type(&enum_ax_ty)?;
        ensure_same_type(layout.ty.as_str(), left.ty.as_str())?;
        ensure_same_type(layout.ty.as_str(), right.ty.as_str())?;
        let is_equal = match op {
            BinaryOp::Equal => true,
            _ => false,
        };
        if str_eq(layout.ty.as_str(), "i32") {
            let ghost k = self.temp_index;
            let result = self.next_temp()?;
            let predicate = if is_equal { "eq" } else { "ne" };
            put_binary_line(out, result.as_str(), "icmp ", predicate, "i32", left.repr.as_str(), right.repr.as_str());
            assert(result@ == temp_name(k as nat));
            return Ok(bool_value(result));
        }
        let left_tag = self.next_temp()?;
        let right_tag = self.next_temp()?;
        let tags_equal = self.next_temp()?;
        put_line(out, &["  ", left_tag.as_str(), " = extractvalue ", left.ty.as_str(), " ", left.repr.as_str(), ", 0"]);
        put_line(out, &["  ", right_tag.as_str(), " = extractvalue ", right.ty.as_str(), " ", right.repr.as_str(), ", 0"]);
        put_line(out, &["  ", tags_equal.as_str(), " = icmp eq i32 ", left_tag.as_str(), ", ", right_tag.as_str()]);
        let result_slot = self.next_temp()?;
        let tags_match_label = self.next_label("enum_eq_tags_match")?;
        let tags_differ_label = self.next_label("enum_eq_tags_differ")?;
        let done_label = self.next_label("enum_eq_done")?;
        let invalid_label = self.next_label("enum_eq_invalid_tag")?;
        put_line(out, &["  ", result_slot.as_str(), " = alloca i1"]);
        put_line(
            out,
            &[
                "  br i1 ",
                tags_equal.as_str(),
                ", label %",
                tags_match_label.as_str(),
                ", label %",
                tags_differ_label.as_str(),
            ],
        );
        let differ_value = if is_equal { "0" } else { "1" };
        put_line(out, &[tags_differ_label.as_str(), ":"]);
        put_line(out, &["  store i1 ", differ_value, ", ptr ", result_slot.as_str()]);
        put_line(out, &["  br label %", done_label.as_str()]);
        put_line(out, &[tags_match_label.as_str(), ":"]);
        let mut test_labels: Vec<String> = Vec::new();
        let mut variant_labels: Vec<String> = Vec::new();
        let mut k: usize = 0;
        assert(!payload_free_enum(*old(self).enum_layouts, left.ax_ty));
        while k < layout.variants.len()
            invariant
                appends(old(out)@, out@),
                steps_forward(*old(self), *self),
                !payload_free_enum(*old(self).enum_layouts, left.ax_ty),
                k <= layout.variants@.len(),
                test_labels@.len() == k,
                variant_labels@.len() == k,
            decreases layout.variants@.len() - k,
        {
            let test_prefix = concat(&["enum_eq_test_", layout.variants[k].name.as_str()]);
            test_labels.push(self.next_label(test_prefix.as_str())?);
            let variant_prefix = concat(&["enum_eq_", layout.variants[k].name.as_str()]);
            variant_labels.push(self.next_label(variant_prefix.as_str())?);
            k += 1;
        }
        let count = layout.variants.len();
        let first_test_label = if count > 0 {
            test_labels[0].clone()
        } else {
            invalid_label.clone()
        };
        put_line(out, &["  br label %", first_test_label.as_str()]);
        let mut index: usize = 0;
        while index < count
            invariant
                appends(old(out)@, out@),
                steps_forward(*old(self), *self),
                !payload_free_enum(*old(self).enum_layouts, left.ax_ty),
                index <= count,
                count == layout.variants@.len(),
                test_labels@.len() == count,
                variant_labels@.len() == count,
                depth > 0,
            decreases count - index,
        {
            let variant = &layout.variants[index];
            let next_label = if index + 1 < count {
                test_labels[index + 1].clone()
            } else {
                invalid_label.clone()
            };
            put_line(out, &[test_labels[index].as_str(), ":"]);
            let is_variant = self.next_temp()?;
            let tag_text = i64_to_decimal(variant.tag as i64);
            put_line(out, &["  ", is_variant.as_str(), " = icmp eq i32 ", left_tag.as_str(), ", ", tag_text.as_str()]);
            put_line(
                out,
                &[
                    "  br i1 ",
                    is_variant.as_str(),
                    ", label %",
                    variant_labels[index].as_str(),
                    ", label %",
                    next_label.as_str(),
                ],
            );
            put_line(out, &[variant_labels[index].as_str(), ":"]);
            let result = match &variant.payload_ax_ty {
                Some(payload_ax_ty) => self.emit_enum_payload_equality(
                    op,
                    &left,
                    &right,
                    payload_ax_ty,
                    layout.name.as_str(),
                    variant.name.as_str(),
                    out,
                    depth - 1,
                )?,
                None => owned(if is_equal { "1" } else { "0" }),
            };
            put_line(out, &["  store i1 ", result.as_str(), ", ptr ", result_slot.as_str()]);
            put_line(out, &["  br label %", done_label.as_str()]);
            index += 1;
        }
        put_line(out, &[invalid_label.as_str(), ":"]);
        put_line(out, &["  call void @exit(i32 1)"]);
        put_line(out, &["  unreachable"]);
        put_line(out, &[done_label.as_str(), ":"]);
        let ghost k = self.temp_index;
        let loaded = self.next_temp()?;
        assert(loaded@ == temp_name(k as nat));
        put_line(out, &["  ", loaded.as_str(), " = load i1, ptr ", result_slot.as_str()]);
        Ok(bool_value(loaded))
    }

    fn emit_enum_payload_equality(
        &mut self,
        op: BinaryOp,
        left: &LlvmValue,
        right: &LlvmValue,
        payload_ax_ty: &Type,
        enum_name: &str,
        variant_name: &str,
        out: &mut String,
        depth: u32,
    ) -> (r: Result<String, String>)
        ensures
            appends(old(out)@, final(out)@),
            steps_forward(*old(self), *final(self)),
            depth == 0 ==> r is Err,
            r matches Ok(t) ==> equality_operand(op, t@, old(self).temp_index, final(self).temp_index),
        decreases depth,
    {
        if depth == 0 {
            return Err(too_deep());
        }
        let payload_ty = match llvm_type(payload_ax_ty, self.layouts, self.enum_layouts) {
            Some(t) => t,
            None => {
                let shown = ax_type_name(payload_ax_ty);
                return Err(
                    concat(
                        &[
                            "enum `",
                            enum_name,
                            ".",
                            variant_name,
                            "` payload type ",
                            shown.as_str(),
                            " is outside LLVM AOT v0",
                        ],
                    ),
                );
            },
        };
        if !payload_equality_supported(payload_ax_ty, self.layouts, self.enum_layouts, EMIT_DEPTH) {
            let shown = ax_type_name(payload_ax_ty);
            return Err(
                concat(
                    &[
                        "enum `",
                        enum_name,
                        ".",
                        variant_name,
                        "` payload type ",
                        shown.as_str(),
                        " needs a native equality comparator before LLVM AOT can lower it",
                    ],
                ),
            );
        }
        let left_payload_ptr = self.next_temp()?;
        let right_payload_ptr = self.next_temp()?;
        let left_payload = self.next_temp()?;
        let right_payload = self.next_temp()?;
        put_line(out, &["  ", left_payload_ptr.as_str(), " = extractvalue ", left.ty.as_str(), " ", left.repr.as_str(), ", 1"]);
        put_line(
            out,
            &["  ", right_payload_ptr.as_str(), " = extractvalue ", right.ty.as_str(), " ", right.repr.as_str(), ", 1"],
        );
        put_line(out, &["  ", left_payload.as_str(), " = load ", payload_ty.as_str(), ", ptr ", left_payload_ptr.as_str()]);
        put_line(
            out,
            &["  ", right_payload.as_str(), " = load ", payload_ty.as_str(), ", ptr ", right_payload_ptr.as_str()],
        );
        self.emit_value_equality(
            op,
            &LlvmValue { ty: payload_ty.clone(), repr: left_payload, ax_ty: Some(clone_type(payload_ax_ty)) },
            &LlvmValue { ty: payload_ty, repr: right_payload, ax_ty: Some(clone_type(payload_ax_ty)) },
            out,
            depth - 1,
        )
    }

    /// Native equality (or inequality) of two values of one AX type; the
    /// result names an `i1`.
    pub fn emit_value_equality(
        &mut self,
        op: BinaryOp,
        left: &LlvmValue,
        right: &LlvmValue,
        out: &mut String,
        depth: u32,
    ) -> (r: Result<String, String>)
        ensures
            appends(old(out)@, final(out)@),
            steps_forward(*old(self), *final(self)),
            depth == 0 ==> r is Err,
            left.ty@ != right.ty@ ==> r is Err,
            !(match (left.ax_ty, right.ax_ty) {
                (Some(a), Some(b)) => same_type(a, b),
                (None, None) => true,
                _ => false,
            }) ==> r is Err,
            r matches Ok(t) ==> equality_operand(op, t@, old(self).temp_index, final(self).temp_index),
            left.ax_ty matches Some(a) ==> (right.ax_ty matches Some(b) ==> ((depth > 0 && left.ty@
                == right.ty@ && (left.ty@ == "i1"@ || left.ty@ == "i32"@) && (a is Bool || a is I32) && same_type(
                a,
                b,
            ) && old(self).temp_index < u32::MAX) ==> (r matches Ok(t) && t@ == temp_name(
                old(self).temp_index as nat,
            ) && final(self).temp_index == old(self).temp_index + 1 && final(out)@ == old(out)@ + binary_line(
                t@,
                "icmp "@ + (if op is Equal {
                    "eq"@
                } else {
                    "ne"@
                }),
                left.ty@,
                left.repr@,
                right.repr@,
            )))),
            r matches Ok(t) ==> (left.ty@ == "ptr"@ && !compared_piecewise(left.ax_ty) ==> exists|pred: Seq<char>|
                #[trigger] tests_zero(pred, op is Equal) && final(out)@ == old(out)@ + string_comparison_text(
                    temp_name(old(self).temp_index as nat),
                    t@,
                    left.repr@,
                    right.repr@,
                    pred,
                )),
        decreases depth,
    {
        if depth == 0 {
            return Err(too_deep());
        }
        ensure_same_type(left.ty.as_str(), right.ty.as_str())?;
        if !opt_type_eq(&left.ax_ty, &right.ax_ty) {
            return Err(
                owned("native equality in LLVM AOT v0 requires both operands to have the same AX type"),
            );
        }
        match &left.ax_ty {
            Some(Type::Array { element, length }) => {
                return self.emit_array_equality(op, left, right, element, *length, out, depth - 1);
            },
            Some(Type::Slice { element }) => {
                return self.emit_slice_equality(op, left, right, element, out, depth - 1);
            },
            Some(Type::Struct { name }) => {
                return self.emit_struct_equality(op, left, right, name.as_str(), out, depth - 1);
            },
            Some(Type::Enum { .. }) | Some(Type::EnumInstance { .. }) => {
                let result = self.emit_enum_equality(op, left.clone(), right.clone(), out, depth - 1)?;
                return Ok(result.repr);
            },
            _ => {},
        }
        proof {
            reveal_strlit("ptr");
            reveal_strlit("float");
            reveal_strlit("i1");
            reveal_strlit("i32");
            assert("i1"@.len() == 2 && "ptr"@.len() == 3 && "float"@.len() == 5 && "i32"@.len() == 3);
            assert("i32"@[0] == 'i' && "ptr"@[0] == 'p');
        }
        let is_equal = match op {
            BinaryOp::Equal => true,
            _ => false,
        };
        let predicate = if is_equal { "eq" } else { "ne" };
        if str_eq(left.ty.as_str(), "ptr") {
            let compare = self.next_temp()?;
            let ghost k = self.temp_index;
            let result = self.next_temp()?;
            assert(result@ == temp_name(k as nat));
            let ghost b0 = out@;
            put_line(
                out,
                &["  ", compare.as_str(), " = call i32 @strcmp(ptr ", left.repr.as_str(), ", ptr ", right.repr.as_str(), ")"],
            );
            proof {
                reveal_with_fuel(concat_all, 8);
                assert(out@ =~= b0 + c_string_compare_line(compare@, left.repr@, right.repr@));
            }
            let ghost b1 = out@;
            put_line(out, &["  ", result.as_str(), " = icmp ", predicate, " i32 ", compare.as_str(), ", 0"]);
            proof {
                reveal_with_fuel(concat_all, 8);
                lemma_zero_compare_text(result@, predicate@, compare@);
                assert(out@ =~= b1 + binary_line(result@, "icmp "@ + predicate@, "i32"@, compare@, "0"@));
                eq_and_ne_test_zero();
                assert(tests_zero(predicate@, op is Equal));
                assert(out@ =~= old(out)@ + string_comparison_text(compare@, result@, left.repr@, right.repr@, predicate@));
            }
            return Ok(result);
        }
        if str_eq(left.ty.as_str(), "float") {
            let float_predicate = if is_equal { "oeq" } else { "one" };
            let ghost k = self.temp_index;
            let result = self.next_temp()?;
            assert(result@ == temp_name(k as nat));
            put_line(
                out,
                &["  ", result.as_str(), " = fcmp ", float_predicate, " float ", left.repr.as_str(), ", ", right.repr.as_str()],
            );
            return Ok(result);
        }
        if str_eq(left.ty.as_str(), "i1") || str_eq(left.ty.as_str(), "i32") {
            let ghost k = self.temp_index;
            let result = self.next_temp()?;
            put_binary_line(out, result.as_str(), "icmp ", predicate, left.ty.as_str(), left.repr.as_str(), right.repr.as_str());
            assert(result@ == temp_name(k as nat));
            return Ok(result);
        }
        let shown = shown_value_type(left);
        Err(concat(&["type ", shown.as_str(), " needs a native equality comparator before LLVM AOT can lower it"]))
    }

    fn emit_array_equality(
        &mut self,
        op: BinaryOp,
        left: &LlvmValue,
        right: &LlvmValue,
        element: &Type,
        length: usize,
        out: &mut String,
        depth: u32,
    ) -> (r: Result<String, String>)
        ensures
            appends(old(out)@, final(out)@),
            steps_forward(*old(self), *final(self)),
            depth == 0 ==> r is Err,
            r matches Ok(t) ==> equality_operand(op, t@, old(self).temp_index, final(self).temp_index),
        decreases depth,
    {
        if depth == 0 {
            return Err(too_deep());
        }
        let array_ax_ty = Type::Array { element: Box::new(clone_type(element)), length };
        let array_ty = match llvm_type(&array_ax_ty, self.layouts, self.enum_layouts) {
            Some(t) => t,
            None => {
                let shown = ax_type_name(&array_ax_ty);
                return Err(concat(&["array type ", shown.as_str(), " is outside LLVM AOT v0"]));
            },
        };
        ensure_same_type(array_ty.as_str(), left.ty.as_str())?;
        let element_ty = match llvm_type(element, self.layouts, self.enum_layouts) {
            Some(t) => t,
            None => {
                let shown = ax_type_name(element);
                return Err(
                    concat(
                        &[
                            "array element type ",
                            shown.as_str(),
                            " needs a native equality comparator before LLVM AOT can lower it",
                        ],
                    ),
                );
            },
        };
        let mut current = owned(
            match op {
                BinaryOp::Equal => "1",
                _ => "0",
            },
        );
        let mut index: usize = 0;
        while index < length
            invariant
                appends(old(out)@, out@),
                steps_forward(*old(self), *self),
                index <= length,
                depth > 0,
                equality_operand(op, current@, old(self).temp_index, self.temp_index),
            decreases length - index,
        {
            let left_element = self.next_temp()?;
            let right_element = self.next_temp()?;
            let n = usize_to_decimal(index);
            put_line(
                out,
                &["  ", left_element.as_str(), " = extractvalue ", array_ty.as_str(), " ", left.repr.as_str(), ", ", n.as_str()],
            );
            put_line(
                out,
                &[
                    "  ",
                    right_element.as_str(),
                    " = extractvalue ",
                    array_ty.as_str(),
                    " ",
                    right.repr.as_str(),
                    ", ",
                    n.as_str(),
                ],
            );
            let element_result = self.emit_value_equality(
                op,
                &LlvmValue { ty: element_ty.clone(), repr: left_element, ax_ty: Some(clone_type(element)) },
                &LlvmValue { ty: element_ty.clone(), repr: right_element, ax_ty: Some(clone_type(element)) },
                out,
                depth - 1,
            )?;
            let ghost k = self.temp_index;
            current = self.emit_equality_accumulator(op, current.as_str(), element_result.as_str(), out)?;
            assert(current@ == temp_name(k as nat));
            index += 1;
        }
        Ok(current)
    }

    #[verifier::rlimit(100)]
    #[verifier::spinoff_prover]
    /// Allocates the names of a slice comparison and writes its start.
    #[verifier::rlimit(60)]
    #[verifier::spinoff_prover]
    fn emit_slice_equality_head(
        &mut self,
        is_equal: bool,
        left: &LlvmValue,
        right: &LlvmValue,
        element_ty: &str,
        out: &mut String,
    ) -> (r: Result<(String, String, String, String, String, String, String), String>)
        ensures
            appends(old(out)@, final(out)@),
            steps_forward(*old(self), *final(self)),
            r is Ok <==> old(self).temp_index + 18 <= u32::MAX,
            r is Ok ==> final(self).temp_index == old(self).temp_index + 18,
            r is Err ==> final(out)@ == old(out)@,
            r matches Ok((slot, index_slot, loop_label, done_label, index, left_element, right_element)) ==> {
                let x = slice_equality_names(old(self).temp_index as nat);
                &&& final(out)@ == old(out)@ + slice_equality_head(
                    is_equal,
                    left.ty@,
                    left.repr@,
                    right.ty@,
                    right.repr@,
                    element_ty@,
                    x,
                )
                &&& slot@ == x[5] && index_slot@ == x[6] && loop_label@ == x[9] && done_label@ == x[11]
                &&& index@ == x[12] && left_element@ == x[16] && right_element@ == x[17]
            },
    {
        let ghost n = self.temp_index as nat;
        let left_data = self.next_temp()?;
        let left_len = self.next_temp()?;
        let right_data = self.next_temp()?;
        let right_len = self.next_temp()?;
        let lengths_equal = self.next_temp()?;
        let result_slot = self.next_temp()?;
        let index_slot = self.next_temp()?;
        let length_match_label = self.next_label("slice_eq_length_match")?;
        let length_differ_label = self.next_label("slice_eq_length_differ")?;
        let loop_label = self.next_label("slice_eq_loop")?;
        let body_label = self.next_label("slice_eq_body")?;
        let done_label = self.next_label("slice_eq_done")?;
        let index = self.next_temp()?;
        let has_item = self.next_temp()?;
        let left_ptr = self.next_temp()?;
        let right_ptr = self.next_temp()?;
        let left_element = self.next_temp()?;
        let right_element = self.next_temp()?;
        let names: [&str; 18] = [
            left_data.as_str(),
            left_len.as_str(),
            right_data.as_str(),
            right_len.as_str(),
            lengths_equal.as_str(),
            result_slot.as_str(),
            index_slot.as_str(),
            length_match_label.as_str(),
            length_differ_label.as_str(),
            loop_label.as_str(),
            body_label.as_str(),
            done_label.as_str(),
            index.as_str(),
            has_item.as_str(),
            left_ptr.as_str(),
            right_ptr.as_str(),
            left_element.as_str(),
            right_element.as_str(),
        ];
        put_slice_equality_head(
            out,
            is_equal,
            left.ty.as_str(),
            left.repr.as_str(),
            right.ty.as_str(),
            right.repr.as_str(),
            element_ty,
            &names,
        );
        proof {
            assert(Seq::new(18, |i: int| names@[i]@) =~= slice_equality_names(n));
        }
        Ok((result_slot, index_slot, loop_label, done_label, index, left_element, right_element))
    }

    fn emit_slice_equality(
        &mut self,
        op: BinaryOp,
        left: &LlvmValue,
        right: &LlvmValue,
        element: &Type,
        out: &mut String,
        depth: u32,
    ) -> (r: Result<String, String>)
        ensures
            appends(old(out)@, final(out)@),
            steps_forward(*old(self), *final(self)),
            depth == 0 ==> r is Err,
            r matches Ok(t) ==> equality_operand(op, t@, old(self).temp_index, final(self).temp_index),
            (left.ty@ != "{ ptr, i32 }"@ || right.ty@ != "{ ptr, i32 }"@) ==> r is Err,
            (depth > 1 && left.ty@ == "{ ptr, i32 }"@ && right.ty@ == "{ ptr, i32 }"@ && (*element is I32
                || *element is Bool) && old(self).temp_index + 23 <= u32::MAX) ==> (r matches Ok(t) && t@ == temp_name(
                (old(self).temp_index + 22) as nat,
            ) && final(self).temp_index == old(self).temp_index + 23),
            r is Ok ==> appends(
                old(out)@ + slice_equality_head(
                    op is Equal,
                    left.ty@,
                    left.repr@,
                    right.ty@,
                    right.repr@,
                    llvm_type_of(*element, *old(self).layouts, *old(self).enum_layouts)->0,
                    slice_equality_names(old(self).temp_index as nat),
                ),
                final(out)@,
            ),
        decreases depth,
    {
        if depth == 0 {
            return Err(too_deep());
        }
        let ghost k0 = self.temp_index;
        let slice_ty = slice_llvm_type();
        ensure_same_type(slice_ty.as_str(), left.ty.as_str())?;
        ensure_same_type(slice_ty.as_str(), right.ty.as_str())?;
        assert(appends(old(out)@, out@));
        let element_ty = match llvm_type(element, self.layouts, self.enum_layouts) {
            Some(t) => t,
            None => {
                let shown = ax_type_name(element);
                return Err(
                    concat(
                        &[
                            "slice element type ",
                            shown.as_str(),
                            " needs a native equality comparator before LLVM AOT can lower it",
                        ],
                    ),
                );
            },
        };
        assert(appends(old(out)@, out@));
        let is_equal = match op {
            BinaryOp::Equal => true,
            _ => false,
        };
        assert(appends(old(out)@, out@));
        let ghost n = self.temp_index as nat;
        let (result_slot, index_slot, loop_label, done_label, index, left_element, right_element) = self.emit_slice_equality_head(
            is_equal,
            left,
            right,
            element_ty.as_str(),
            out,
        )?;
        let ghost head_end = out@;
        assert(appends(old(out)@, out@));
        proof {
            if *element is I32 || *element is Bool {
                reveal_strlit("i32");
                reveal_strlit("i1");
            }
        }
        let element_result = self.emit_value_equality(
            op,
            &LlvmValue { ty: element_ty.clone(), repr: left_element, ax_ty: Some(clone_type(element)) },
            &LlvmValue { ty: element_ty, repr: right_element, ax_ty: Some(clone_type(element)) },
            out,
            depth - 1,
        )?;
        assert(appends(old(out)@, out@));
        let current = self.next_temp()?;
        assert(appends(old(out)@, out@));
        put_line(out, &["  ", current.as_str(), " = load i1, ptr ", result_slot.as_str()]);
        assert(appends(old(out)@, out@));
        let combined = self.emit_equality_accumulator(op, current.as_str(), element_result.as_str(), out)?;
        assert(appends(old(out)@, out@));
        let ghost middle_end = out@;
        let next_index = self.next_temp()?;
        let ghost k = self.temp_index;
        let result = self.next_temp()?;
        assert(result@ == temp_name(k as nat));
        put_slice_equality_tail(
            out,
            combined.as_str(),
            result_slot.as_str(),
            index_slot.as_str(),
            index.as_str(),
            loop_label.as_str(),
            done_label.as_str(),
            next_index.as_str(),
            result.as_str(),
        );

        proof {
            assert(is_equal == (op is Equal));
            lemma_appends_transitive(head_end, middle_end, out@);
        }
        Ok(result)
    }

    fn emit_struct_equality(
        &mut self,
        op: BinaryOp,
        left: &LlvmValue,
        right: &LlvmValue,
        name: &str,
        out: &mut String,
        depth: u32,
    ) -> (r: Result<String, String>)
        ensures
            appends(old(out)@, final(out)@),
            steps_forward(*old(self), *final(self)),
            depth == 0 || old(self).layouts.spec_get(name@) is None ==> r is Err,
            old(self).layouts.spec_get(name@) matches Some(l) ==> (l.ty@ != left.ty@ ==> r is Err),
            old(self).layouts.spec_get(name@) matches Some(l) ==> ((depth > 0 && l.ty@ == left.ty@
                && l.fields@.len() == 0) ==> (r matches Ok(t) && t@ == equality_identity(op) && final(out)@
                == old(out)@ && final(self).temp_index == old(self).temp_index)),
            r matches Ok(t) ==> equality_operand(op, t@, old(self).temp_index, final(self).temp_index),
        decreases depth,
    {
        if depth == 0 {
            return Err(too_deep());
        }
        let layout = match self.layouts.get(name) {
            Some(layout) => layout,
            None => return Err(concat(&["struct `", name, "` is outside the LLVM AOT v0 equality subset"])),
        };
        ensure_same_type(layout.ty.as_str(), left.ty.as_str())?;
        let mut current = owned(
            match op {
                BinaryOp::Equal => "1",
                _ => "0",
            },
        );
        let mut i: usize = 0;
        while i < layout.fields.len()
            invariant
                appends(old(out)@, out@),
                steps_forward(*old(self), *self),
                i <= layout.fields@.len(),
                depth > 0,
                equality_operand(op, current@, old(self).temp_index, self.temp_index),
                layout.fields@.len() == 0 ==> out@ == old(out)@ && self.temp_index == old(self).temp_index,
                old(self).layouts.spec_get(name@) == Some(*layout),
            decreases layout.fields@.len() - i,
        {
            let field = &layout.fields[i];
            let left_field = self.next_temp()?;
            let right_field = self.next_temp()?;
            let n = usize_to_decimal(field.index);
            put_line(
                out,
                &["  ", left_field.as_str(), " = extractvalue ", layout.ty.as_str(), " ", left.repr.as_str(), ", ", n.as_str()],
            );
            put_line(
                out,
                &["  ", right_field.as_str(), " = extractvalue ", layout.ty.as_str(), " ", right.repr.as_str(), ", ", n.as_str()],
            );
            let field_result = self.emit_value_equality(
                op,
                &LlvmValue { ty: field.ty.clone(), repr: left_field, ax_ty: Some(clone_type(&field.ax_ty)) },
                &LlvmValue { ty: field.ty.clone(), repr: right_field, ax_ty: Some(clone_type(&field.ax_ty)) },
                out,
                depth - 1,
            )?;
            let ghost k = self.temp_index;
            current = self.emit_equality_accumulator(op, current.as_str(), field_result.as_str(), out)?;
            assert(current@ == temp_name(k as nat));
            i += 1;
        }
        Ok(current)
    }

    fn emit_equality_accumulator(&mut self, op: BinaryOp, current: &str, next: &str, out: &mut String) -> (r:
        Result<String, String>)
        ensures
            appends(old(out)@, final(out)@),
            steps_forward(*old(self), *final(self)),
            r is Ok <==> old(self).temp_index + 1 <= u32::MAX,
            r is Ok ==> final(self).temp_index == old(self).temp_index + 1,
            r matches Ok(t) ==> t@ == "%t"@ + decimal(old(self).temp_index as nat) && final(out)@ == old(out)@
                + binary_line(t@, if op is Equal { "and"@ } else { "or"@ }, "i1"@, current@, next@),
            r matches Ok(t) ==> exists|instruction: Seq<char>|
                final(out)@ == old(out)@ + #[trigger] binary_line(t@, instruction, "i1"@, current@, next@)
                    && (op is Equal ==> is_conjunction(instruction)) && (!(op is Equal) ==> is_disjunction(
                    instruction,
                )),
    {
        let combined = self.next_temp()?;
        let instruction = match op {
            BinaryOp::Equal => "and",
            _ => "or",
        };
        put_binary_line(out, combined.as_str(), instruction, "", "i1", current, next);
        proof {
            reveal_strlit("");
            assert(instruction@ + ""@ =~= instruction@);
            and_is_conjunction();
            or_is_disjunction();
            assert(out@ == old(out)@ + binary_line(combined@, instruction@, "i1"@, current@, next@));
        }
        Ok(combined)
    }
}

} // verus!
