//! The per-function emitter: lowers statements, terminators and expressions
//! of one function body to LLVM instructions.
use vstd::prelude::*;
use crate::id_map::IdMap;
use crate::mir::{
    clone_type, same_type, type_eq, BasicBlock, BinaryOp, Expr, MatchExprArm, Place, Statement,
    Terminator, Type, UnaryOp,
};
use crate::name_map::NameMap;
use crate::text::{appends, concat, concat_all, decimal, lemma_decimal_injective, signed_decimal, i64_to_decimal, owned, put_line, str_eq, u32_to_decimal, usize_to_decimal};
use super::model::{
    EnumVariantLayout, has_field, has_variant, is_first_field, is_first_variant, ConstBinding, EnumLayout, FunctionSignature, LlvmValue, LocalSlot, StringLiteral, StructLayout,
};
use super::specialization::method_prefix;
use super::support::{
    array_type_parts, ax_name_of, ax_type_name, float_literal, enum_base_name, enum_layout_key, ensure_same_type,
    llvm_float_literal, llvm_type, llvm_type_of, slice_llvm_type, struct_layout_key,
};

use self::composite::{is_arithmetic_op, is_boolean_op};
use self::array::slice_range_checks_text;
pub mod array;
pub mod call;
pub mod composite;
pub mod host;

verus! {

/// The nesting budget of one function body: expressions, statements, consts
/// and formatted types nested deeper than this are reported as an error.
pub const EMIT_DEPTH: u32 = 4096;

/// The state of lowering one function: the program-wide tables, the slots of
/// the function's locals, its return type, the consts being lowered (to catch
/// cycles) and the counter that numbers temporaries and labels.
pub struct FunctionEmitter<'a> {
    pub signatures: &'a NameMap<FunctionSignature>,
    pub layouts: &'a NameMap<StructLayout>,
    pub enum_layouts: &'a NameMap<EnumLayout>,
    pub consts: &'a NameMap<ConstBinding<'a>>,
    pub strings: &'a NameMap<StringLiteral>,
    pub locals: IdMap<LocalSlot>,
    pub return_ax_ty: Type,
    pub const_stack: Vec<String>,
    pub temp_index: u32,
}

/// A lowering step keeps the program-wide tables and never moves the counter
/// of temporaries and labels back.
pub open spec fn steps_forward<'a>(before: FunctionEmitter<'a>, after: FunctionEmitter<'a>) -> bool {
    &&& after.temp_index >= before.temp_index
    &&& after.signatures == before.signatures
    &&& after.layouts == before.layouts
    &&& after.enum_layouts == before.enum_layouts
    &&& after.consts == before.consts
    &&& after.strings == before.strings
}

/// The name of temporary number `k`.
pub open spec fn temp_name(k: nat) -> Seq<char> {
    "%t"@ + decimal(k)
}

/// The head of `left && right` (`is_and`) or `left || right` after the left
/// side's code: a slot `%tN` that holds `false` (`true` for `||`), and a
/// branch that runs the right side only when the left value does not decide,
/// then the right side's label.
#[verifier::opaque]
pub open spec fn short_circuit_head(is_and: bool, left: Seq<char>, n: nat) -> Seq<char> {
    let slot = temp_name(n);
    let rhs = "logical_rhs"@ + "_"@ + decimal(n + 1);
    let done = "logical_done"@ + "_"@ + decimal(n + 2);
    "  "@ + slot + " = alloca i1"@ + seq!['\n'] + "  store i1 "@ + (if is_and {
        "0"@
    } else {
        "1"@
    }) + ", ptr "@ + slot + seq!['\n'] + "  br i1 "@ + left + ", label %"@ + (if is_and {
        rhs
    } else {
        done
    }) + ", label %"@ + (if is_and {
        done
    } else {
        rhs
    }) + seq!['\n'] + rhs + ":"@ + seq!['\n']
}

/// The tail of a short-circuit operator after the right side's code: the
/// store of its value into the slot, the join label and the load of the slot
/// into `result`.
#[verifier::opaque]
pub open spec fn short_circuit_tail(right: Seq<char>, n: nat, result: Seq<char>) -> Seq<char> {
    let slot = temp_name(n);
    let done = "logical_done"@ + "_"@ + decimal(n + 2);
    "  store i1 "@ + right + ", ptr "@ + slot + seq!['\n'] + "  br label %"@ + done + seq!['\n'] + done + ":"@
        + seq!['\n'] + "  "@ + result + " = load i1, ptr "@ + slot + seq!['\n']
}

/// Writes the head of a short-circuit operator over the given names.
fn put_short_circuit_head(out: &mut String, is_and: bool, left: &str, slot: &str, rhs: &str, done: &str)
    ensures
        final(out)@ == old(out)@ + "  "@ + slot@ + " = alloca i1"@ + seq!['\n'] + "  store i1 "@ + (if is_and {
            "0"@
        } else {
            "1"@
        }) + ", ptr "@ + slot@ + seq!['\n'] + "  br i1 "@ + left@ + ", label %"@ + (if is_and {
            rhs@
        } else {
            done@
        }) + ", label %"@ + (if is_and {
            done@
        } else {
            rhs@
        }) + seq!['\n'] + rhs@ + ":"@ + seq!['\n'],
{
    let ghost start = out@;
    let default_value = if is_and { "0" } else { "1" };
    put_line(out, &["  ", slot, " = alloca i1"]);
    let ghost a = out@;
    put_line(out, &["  store i1 ", default_value, ", ptr ", slot]);
    let ghost b = out@;
    if is_and {
        put_line(out, &["  br i1 ", left, ", label %", rhs, ", label %", done]);
    } else {
        put_line(out, &["  br i1 ", left, ", label %", done, ", label %", rhs]);
    }
    let ghost c = out@;
    put_line(out, &[rhs, ":"]);
    proof {
        reveal_with_fuel(concat_all, 7);
        assert(a =~= start + "  "@ + slot@ + " = alloca i1"@ + seq!['\n']);
        assert(b =~= a + "  store i1 "@ + default_value@ + ", ptr "@ + slot@ + seq!['\n']);
        assert(out@ =~= c + rhs@ + ":"@ + seq!['\n']);
    }
}

/// Writes the tail of a short-circuit operator over the given names.
fn put_short_circuit_tail(out: &mut String, right: &str, slot: &str, done: &str, result: &str)
    ensures
        final(out)@ == old(out)@ + "  store i1 "@ + right@ + ", ptr "@ + slot@ + seq!['\n'] + "  br label %"@ + done@
            + seq!['\n'] + done@ + ":"@ + seq!['\n'] + "  "@ + result@ + " = load i1, ptr "@ + slot@ + seq!['\n'],
{
    let ghost start = out@;
    put_line(out, &["  store i1 ", right, ", ptr ", slot]);
    let ghost a = out@;
    put_line(out, &["  br label %", done]);
    let ghost b = out@;
    put_line(out, &[done, ":"]);
    let ghost c = out@;
    put_line(out, &["  ", result, " = load i1, ptr ", slot]);
    proof {
        reveal_with_fuel(concat_all, 5);
        assert(a =~= start + "  store i1 "@ + right@ + ", ptr "@ + slot@ + seq!['\n']);
        assert(b =~= a + "  br label %"@ + done@ + seq!['\n']);
        assert(c =~= b + done@ + ":"@ + seq!['\n']);
        assert(out@ =~= c + "  "@ + result@ + " = load i1, ptr "@ + slot@ + seq!['\n']);
    }
}

/// The whole text of a short-circuit operator.
pub open spec fn short_circuit_text(
    is_and: bool,
    left_code: Seq<char>,
    left: Seq<char>,
    right_code: Seq<char>,
    right: Seq<char>,
    n: nat,
    result: Seq<char>,
) -> Seq<char> {
    left_code + short_circuit_head(is_and, left, n) + right_code + short_circuit_tail(right, n, result)
}

/// `t` names a temporary numbered in `[before, after)`.
pub open spec fn issued_temp(t: Seq<char>, before: u32, after: u32) -> bool {
    exists|k: nat| before <= k < after && t == #[trigger] temp_name(k)
}

/// The `i1` constant an equality over no parts gives: `1` for `==`, `0` for `!=`.
pub open spec fn equality_identity(op: BinaryOp) -> Seq<char> {
    if op is Equal {
        "1"@
    } else {
        "0"@
    }
}

/// What an equality comparison names as its `i1` result: a temporary issued in
/// `[before, after)`, or the identity constant when there was nothing to compare.
pub open spec fn equality_operand(op: BinaryOp, t: Seq<char>, before: u32, after: u32) -> bool {
    t == equality_identity(op) || issued_temp(t, before, after)
}

/// The temporaries an operand takes when it lowers straight to an `i1`: none
/// for a boolean literal, one load for a local whose slot holds an `i1`;
/// `None` for any other operand.
pub open spec fn simple_i1_operand(locals: Map<u32, LocalSlot>, e: Expr) -> Option<nat> {
    match e {
        Expr::Bool { .. } => Some(0),
        Expr::Local { local, .. } => if locals.contains_key(local) && locals[local].ty@ == "i1"@ {
            Some(1)
        } else {
            None
        },
        _ => None,
    }
}

/// A value with the given LLVM type, representation and AX type.
pub fn value(ty: &str, repr: String, ax_ty: Option<Type>) -> (r: LlvmValue)
    ensures
        r.ty@ == ty@,
        r.repr == repr,
        r.ax_ty == ax_ty,
{
    LlvmValue { ty: owned(ty), repr, ax_ty }
}

/// An `i1` value of AX type `bool`.
pub fn bool_value(repr: String) -> (r: LlvmValue)
    ensures
        r.ty@ == "i1"@,
        r.repr == repr,
        r.ax_ty == Some(Type::Bool),
{
    value("i1", repr, Some(Type::Bool))
}

/// An `i32` value of AX type `i32`.
pub fn i32_value(repr: String) -> (r: LlvmValue)
    ensures
        r.ty@ == "i32"@,
        r.repr == repr,
        r.ax_ty == Some(Type::I32),
{
    value("i32", repr, Some(Type::I32))
}

/// A `ptr` value of AX type `string`.
pub fn string_value(repr: String) -> (r: LlvmValue)
    ensures
        r.ty@ == "ptr"@,
        r.repr == repr,
        r.ax_ty == Some(Type::String),
{
    value("ptr", repr, Some(Type::String))
}

/// One instruction line `  %r = <instruction> <ty> <left>, <right>`.
pub open spec fn binary_line(
    result: Seq<char>,
    instruction: Seq<char>,
    ty: Seq<char>,
    left: Seq<char>,
    right: Seq<char>,
) -> Seq<char> {
    "  "@ + result + " = "@ + instruction + " "@ + ty + " "@ + left + ", "@ + right + seq!['\n']
}

/// What LLVM's `icmp` yields with predicate `pred` on two integers; a pointer
/// compares as its address, `null` being address 0.
pub open spec fn integer_test_holds(pred: Seq<char>, a: int, b: int) -> bool {
    if pred == "eq"@ {
        a == b
    } else if pred == "ne"@ {
        a != b
    } else if pred == "slt"@ {
        a < b
    } else if pred == "sle"@ {
        a <= b
    } else if pred == "sgt"@ {
        a > b
    } else if pred == "sge"@ {
        a >= b
    } else {
        false
    }
}

/// `icmp pred x, 0` holds exactly when `x == 0` is `on_zero`: with `on_zero`
/// it tests for zero, without it for anything else.
pub open spec fn tests_zero(pred: Seq<char>, on_zero: bool) -> bool {
    forall|c: int| #[trigger] integer_test_holds(pred, c, 0) <==> ((c == 0) == on_zero)
}

/// What LLVM's bitwise instruction `op` yields on two `i1` values.
pub open spec fn i1_op_holds(op: Seq<char>, a: bool, b: bool) -> bool {
    if op == "or"@ {
        a || b
    } else if op == "and"@ {
        a && b
    } else if op == "xor"@ {
        a != b
    } else {
        false
    }
}

/// `op` computes the disjunction of two `i1` values.
pub open spec fn is_disjunction(op: Seq<char>) -> bool {
    forall|a: bool, b: bool| #[trigger] i1_op_holds(op, a, b) <==> (a || b)
}

/// `  %r = call i32 @strcmp(ptr <left>, ptr <right>)`: zero exactly when the
/// two C strings are equal.
pub open spec fn c_string_compare_line(result: Seq<char>, left: Seq<char>, right: Seq<char>) -> Seq<char> {
    "  "@ + result + " = call i32 @strcmp(ptr "@ + left + ", ptr "@ + right + ")"@ + seq!['\n']
}

/// The `strcmp` of `left` and `right` into `compare`, then
/// `result = icmp pred i32 compare, 0`.
pub open spec fn string_comparison_text(
    compare: Seq<char>,
    result: Seq<char>,
    left: Seq<char>,
    right: Seq<char>,
    pred: Seq<char>,
) -> Seq<char> {
    c_string_compare_line(compare, left, right) + binary_line(result, "icmp "@ + pred, "i32"@, compare, "0"@)
}

/// `==` on two strings holds exactly when they are equal and `!=` exactly
/// when they differ: the predicate chosen for `==` and the one chosen for
/// `!=` never agree on the same `strcmp` result.
pub proof fn string_equality_and_inequality_disagree(equal_pred: Seq<char>, unequal_pred: Seq<char>, c: int)
    requires
        tests_zero(equal_pred, true),
        tests_zero(unequal_pred, false),
    ensures
        integer_test_holds(equal_pred, c, 0) != integer_test_holds(unequal_pred, c, 0),
        integer_test_holds(equal_pred, 0, 0),
        !integer_test_holds(unequal_pred, 0, 0),
{
    assert(integer_test_holds(equal_pred, c, 0) <==> c == 0);
    assert(integer_test_holds(unequal_pred, c, 0) <==> c != 0);
    assert(integer_test_holds(equal_pred, 0, 0));
    assert(!integer_test_holds(unequal_pred, 0, 0));
}

/// The `eq` predicate tests for zero, `ne` for anything else.
pub proof fn eq_and_ne_test_zero()
    ensures
        tests_zero("eq"@, true),
        tests_zero("ne"@, false),
{
    reveal_strlit("eq");
    reveal_strlit("ne");
    assert("eq"@ != "ne"@) by {
        assert("eq"@[0] != "ne"@[0]);
    }
    assert forall|c: int| #[trigger] integer_test_holds("ne"@, c, 0) <==> ((c == 0) == false) by {}
}

/// The pieces a zero comparison is written in make up its `binary_line`.
pub proof fn lemma_zero_compare_text(result: Seq<char>, pred: Seq<char>, compare: Seq<char>)
    ensures
        "  "@ + result + " = icmp "@ + pred + " i32 "@ + compare + ", 0"@ + seq!['\n'] == binary_line(
            result,
            "icmp "@ + pred,
            "i32"@,
            compare,
            "0"@,
        ),
{
    reveal_strlit(" = icmp ");
    reveal_strlit(" = ");
    reveal_strlit("icmp ");
    reveal_strlit(" i32 ");
    reveal_strlit(" ");
    reveal_strlit("i32");
    reveal_strlit(", 0");
    reveal_strlit(", ");
    reveal_strlit("0");
    assert("  "@ + result + " = icmp "@ + pred + " i32 "@ + compare + ", 0"@ + seq!['\n'] =~= binary_line(
        result,
        "icmp "@ + pred,
        "i32"@,
        compare,
        "0"@,
    ));
}

/// A zero test written with its predicate `eq` inline is its `binary_line`.
pub proof fn lemma_zero_equality_text(result: Seq<char>, compare: Seq<char>)
    ensures
        "  "@ + result + " = icmp eq i32 "@ + compare + ", 0"@ + seq!['\n'] == binary_line(
            result,
            "icmp "@ + "eq"@,
            "i32"@,
            compare,
            "0"@,
        ),
{
    reveal_strlit(" = icmp eq i32 ");
    reveal_strlit(" = ");
    reveal_strlit("icmp ");
    reveal_strlit("eq");
    reveal_strlit(" ");
    reveal_strlit("i32");
    reveal_strlit(", 0");
    reveal_strlit(", ");
    reveal_strlit("0");
    assert("  "@ + result + " = icmp eq i32 "@ + compare + ", 0"@ + seq!['\n'] =~= binary_line(
        result,
        "icmp "@ + "eq"@,
        "i32"@,
        compare,
        "0"@,
    ));
}

/// Text that ends with `result = op i1 left, right`.
pub open spec fn i1_combination_text(
    before: Seq<char>,
    result: Seq<char>,
    op: Seq<char>,
    left: Seq<char>,
    right: Seq<char>,
) -> Seq<char> {
    before + binary_line(result, op, "i1"@, left, right)
}

/// A disjunction written with `or` inline is its `binary_line`.
pub proof fn lemma_or_line_text(result: Seq<char>, left: Seq<char>, right: Seq<char>)
    ensures
        "  "@ + result + " = or i1 "@ + left + ", "@ + right + seq!['\n'] == binary_line(result, "or"@, "i1"@, left, right),
{
    reveal_strlit(" = or i1 ");
    reveal_strlit(" = ");
    reveal_strlit("or");
    reveal_strlit(" ");
    reveal_strlit("i1");
    assert("  "@ + result + " = or i1 "@ + left + ", "@ + right + seq!['\n'] =~= binary_line(
        result,
        "or"@,
        "i1"@,
        left,
        right,
    ));
}

/// A string pattern's test holds exactly when the scrutinee's text equals the
/// pattern's text, that is when `strcmp` of the two is zero.
pub proof fn string_pattern_test_holds_exactly_on_equal_text(pred: Seq<char>, strcmp_result: int)
    requires
        tests_zero(pred, true),
    ensures
        integer_test_holds(pred, strcmp_result, 0) <==> strcmp_result == 0,
{
    assert(integer_test_holds(pred, strcmp_result, 0) <==> ((strcmp_result == 0) == true));
}

/// An or-pattern's test holds exactly when the test of at least one of the
/// alternatives it combines holds.
pub proof fn or_pattern_holds_exactly_when_an_alternative_does(op: Seq<char>, first: bool, second: bool)
    requires
        is_disjunction(op),
    ensures
        first ==> i1_op_holds(op, first, second),
        second ==> i1_op_holds(op, first, second),
        !first && !second ==> !i1_op_holds(op, first, second),
{
    assert(i1_op_holds(op, first, second) <==> (first || second));
}

/// A type whose values native equality compares field by field or element
/// by element rather than in one instruction.
pub open spec fn compared_piecewise(ty: Option<Type>) -> bool {
    match ty {
        Some(t) => t is Array || t is Slice || t is Struct || t is Enum || t is EnumInstance,
        None => false,
    }
}

/// `icmp pred a, b` holds exactly when `a == b`.
pub open spec fn tests_equality(pred: Seq<char>) -> bool {
    forall|a: int, b: int| #[trigger] integer_test_holds(pred, a, b) <==> a == b
}

/// Text that ends with `result = icmp pred ty left, right`.
pub open spec fn comparison_ending_text(
    before: Seq<char>,
    result: Seq<char>,
    pred: Seq<char>,
    ty: Seq<char>,
    left: Seq<char>,
    right: Seq<char>,
) -> Seq<char> {
    before + binary_line(result, "icmp "@ + pred, ty, left, right)
}

/// `eq` tests equality.
pub proof fn eq_tests_equality()
    ensures
        tests_equality("eq"@),
{
}

/// The words of an `i32` equality test make up the ones `binary_line` puts
/// around its instruction.
pub proof fn lemma_eq_test_words()
    ensures
        " = icmp eq i32 "@ == " = "@ + ("icmp "@ + "eq"@) + " "@ + "i32"@ + " "@,
{
    reveal_strlit(" = icmp eq i32 ");
    reveal_strlit(" = ");
    reveal_strlit("icmp ");
    reveal_strlit("eq");
    reveal_strlit(" ");
    reveal_strlit("i32");
    assert(" = icmp eq i32 "@ =~= " = "@ + ("icmp "@ + "eq"@) + " "@ + "i32"@ + " "@);
}

/// `op` computes the conjunction of two `i1` values.
pub open spec fn is_conjunction(op: Seq<char>) -> bool {
    forall|a: bool, b: bool| #[trigger] i1_op_holds(op, a, b) <==> (a && b)
}

/// `and` is the conjunction of two `i1` values.
pub proof fn and_is_conjunction()
    ensures
        is_conjunction("and"@),
{
    reveal_strlit("or");
    reveal_strlit("and");
    assert("or"@.len() != "and"@.len());
    assert forall|a: bool, b: bool| #[trigger] i1_op_holds("and"@, a, b) <==> (a && b) by {}
}

/// `or` is the disjunction of two `i1` values.
pub proof fn or_is_disjunction()
    ensures
        is_disjunction("or"@),
{
    assert forall|a: bool, b: bool| #[trigger] i1_op_holds("or"@, a, b) <==> (a || b) by {}
}

/// Writes `  %r = <instruction><predicate> <ty> <left>, <right>`.
pub(crate) fn put_binary_line(
    out: &mut String,
    result: &str,
    instruction: &str,
    predicate: &str,
    ty: &str,
    left: &str,
    right: &str,
)
    ensures
        final(out)@ == old(out)@ + binary_line(result@, instruction@ + predicate@, ty@, left@, right@),
{
    put_line(out, &["  ", result, " = ", instruction, predicate, " ", ty, " ", left, ", ", right]);
    proof {
        reveal_with_fuel(concat_all, 12);
        assert(out@ =~= old(out)@ + binary_line(result@, instruction@ + predicate@, ty@, left@, right@));
    }
}


/// A branch to a block that reports `message` and stops when `condition`
/// holds, and the block that continues otherwise.
pub open spec fn guard_block(
    condition: Seq<char>,
    fail_label: Seq<char>,
    ok_label: Seq<char>,
    message: Seq<char>,
) -> Seq<char> {
    "  br i1 "@ + condition + ", label %"@ + fail_label + ", label %"@ + ok_label + seq!['\n'] + fail_label
        + ":"@ + seq!['\n'] + "  call void @ax_runtime_error(ptr "@ + message + ")"@ + seq!['\n']
        + "  unreachable"@ + seq!['\n'] + ok_label + ":"@ + seq!['\n']
}

/// Writes the guard: the branch, the failing block and the label of the
/// block that continues.
#[verifier::rlimit(30)]
pub(crate) fn put_guard_block(out: &mut String, condition: &str, fail_label: &str, ok_label: &str, message: &str)
    ensures
        final(out)@ == old(out)@ + guard_block(condition@, fail_label@, ok_label@, message@),
{
    let ghost start = out@;
    put_line(out, &["  br i1 ", condition, ", label %", fail_label, ", label %", ok_label]);
    put_line(out, &[fail_label, ":"]);
    put_line(out, &["  call void @ax_runtime_error(ptr ", message, ")"]);
    put_line(out, &["  unreachable"]);
    put_line(out, &[ok_label, ":"]);
    proof {
        reveal_with_fuel(concat_all, 7);
        assert(out@ =~= start + guard_block(condition@, fail_label@, ok_label@, message@));
    }
}

/// The error reported when a body nests deeper than the budget.
pub fn too_deep() -> (r: String)
    ensures
        r@ == "expression nesting is too deep for LLVM AOT v0"@,
{
    owned("expression nesting is too deep for LLVM AOT v0")
}

fn optional_type(ty: &Option<Type>) -> (r: Option<Type>)
    ensures
        r is Some == ty is Some,
        r matches Some(t) ==> same_type(t, ty->0),
{
    match ty {
        Some(t) => Some(clone_type(t)),
        None => None,
    }
}

/// Temporaries are named `%tN` after the counter, which `next_temp` moves past
/// the number it used and which no lowering step moves back (each one ensures
/// so); two temporaries handed out at different counter values therefore
/// never share a name.
pub proof fn temporaries_are_fresh(first: u32, second: u32)
    requires
        first != second,
    ensures
        "%t"@ + decimal(first as nat) != "%t"@ + decimal(second as nat),
{
    reveal_strlit("%t");
    let a = "%t"@ + decimal(first as nat);
    let b = "%t"@ + decimal(second as nat);
    if a == b {
        assert(a.subrange(2, a.len() as int) =~= decimal(first as nat));
        assert(b.subrange(2, b.len() as int) =~= decimal(second as nat));
        lemma_decimal_injective(first as nat, second as nat);
    }
}

/// The pair of an LLVM type and an AX type that an expression has.
pub type ValueType = (String, Type);

/// The base name of an enum type (its name without type arguments).
pub open spec fn enum_name_of(ty: Type) -> Seq<char> {
    match ty {
        Type::Enum { name } => name@,
        Type::EnumInstance { name, .. } => name@,
        _ => "<non-enum>"@,
    }
}

/// The LLVM and AX types of the value of a call to a builtin whose result
/// type is fixed.
pub open spec fn builtin_value_type(function: Seq<char>) -> Option<(Seq<char>, Type)> {
    if function == "string_len"@ || function == "len"@ || function == "fs_file_size"@ || function
        == "fs_copy_file"@ {
        Some(("i32"@, Type::I32))
    } else if function == "env_has"@ || function == "fs_exists"@ || function == "fs_is_file"@
        || function == "fs_is_dir"@ || function == "string_contains"@ || function
        == "string_starts_with"@ || function == "string_ends_with"@ {
        Some(("i1"@, Type::Bool))
    } else if function == "env_get"@ || function == "fs_read_to_string"@ || function
        == "string_replace"@ || function == "string_trim"@ || function == "string_list_get"@
        || function == "string_list_join"@ || function == "to_string"@ {
        Some(("ptr"@, Type::String))
    } else if function == "string_list_new"@ || function == "string_list_push"@ {
        Some(("ptr"@, Type::StringList))
    } else {
        None
    }
}

/// The LLVM and AX type that an expression built from literals, locals,
/// unary and binary operators and blocks has (`None` for other expressions,
/// whose type this does not say): a boolean operator gives `i1`, an
/// arithmetic one the type of its left operand (`ptr` string for `+` of
/// strings), a block the type of its value.
pub open spec fn value_type_of(e: FunctionEmitter, expr: Expr) -> Option<(Seq<char>, Type)>
    decreases expr,
{
    match expr {
        Expr::Int { .. } => Some(("i32"@, Type::I32)),
        Expr::Bool { .. } => Some(("i1"@, Type::Bool)),
        Expr::String { .. } => Some(("ptr"@, Type::String)),
        Expr::Float { .. } => Some(("float"@, Type::F32)),
        Expr::MatchTest { .. } => Some(("i1"@, Type::Bool)),
        Expr::Local { local, .. } => if e.locals.view_map().contains_key(local) {
            Some((e.locals.view_map()[local].ty@, e.locals.view_map()[local].ax_ty))
        } else {
            None
        },
        Expr::Unary { op, .. } => if op is Negate {
            Some(("i32"@, Type::I32))
        } else {
            Some(("i1"@, Type::Bool))
        },
        Expr::Binary { op, left, .. } => if is_boolean_op(op) {
            Some(("i1"@, Type::Bool))
        } else {
            match value_type_of(e, *left) {
                Some((t, a)) => if op is Add && a == Type::String {
                    Some(("ptr"@, Type::String))
                } else {
                    Some((t, a))
                },
                None => None,
            }
        },
        Expr::Block { value, .. } => value_type_of(e, *value),
        _ => None,
    }
}

/// `expr` is built from literals, known locals, `-` on `i32`, `!` on `i1`
/// and binary operators over operands of one LLVM type, nested at most
/// `depth` deep: its value type is inferred without failing.
pub open spec fn simply_typed(e: FunctionEmitter, expr: Expr, depth: u32) -> bool
    decreases expr,
{
    depth > 0 && match expr {
        Expr::Int { .. } | Expr::Bool { .. } | Expr::String { .. } | Expr::Float { .. } | Expr::MatchTest { .. } => true,
        Expr::Local { local, .. } => e.locals.view_map().contains_key(local),
        Expr::Unary { op, expr: inner } => simply_typed(e, *inner, (depth - 1) as u32) && (value_type_of(e, *inner) matches Some(
            (t, _),
        ) && t == (if op is Negate {
            "i32"@
        } else {
            "i1"@
        })),
        Expr::Binary { left, right, .. } => simply_typed(e, *left, (depth - 1) as u32) && simply_typed(
            e,
            *right,
            (depth - 1) as u32,
        ) && (value_type_of(e, *left) matches Some((lt, _)) && value_type_of(e, *right) matches Some((rt, _)) && lt
            == rt),
        _ => false,
    }
}

/// `function` names a user function directly (not a builtin nor a method).
pub open spec fn user_call(function: Seq<char>) -> bool {
    builtin_value_type(function) is None && function != "println"@ && function != "fs_read_dir"@ && function
        != "string_split_lines"@ && !(function.len() >= 9 && function.take(9) == method_prefix())
}

/// `expr` reads a local that holds a string.
pub open spec fn is_string_local(e: FunctionEmitter, expr: Expr) -> bool {
    expr matches Expr::Local { local, .. } && e.locals.view_map().contains_key(local)
        && e.locals.view_map()[local].ty@ == "ptr"@ && e.locals.view_map()[local].ax_ty == Type::String
}

/// What `emit_expr` gives for strings, unary and binary operators and
/// slices: `before` is the emitter and `start` the text before the call,
/// `text` the text after it.
#[verifier::opaque]
pub open spec fn composite_expr_result<'a>(
    before: FunctionEmitter<'a>,
    expr: Expr,
    r: Result<LlvmValue, String>,
    start: Seq<char>,
    text: Seq<char>,
    depth: u32,
) -> bool {
    &&& depth > 0 ==> (expr matches Expr::String { value } ==> (r is Ok <==> before.strings.spec_get(value@) is Some)
        && (r matches Ok(v) ==> v.ty@ == "ptr"@ && v.ax_ty == Some(Type::String) && v.repr
        == before.strings.spec_get(value@)->0.symbol && text == start))
    &&& r matches Ok(v) ==> (expr matches Expr::Unary { op: UnaryOp::Not, .. } ==> v.ty@ == "i1"@ && v.ax_ty
        == Some(Type::Bool) && exists|body: Seq<char>, operand: Seq<char>|
        text == body + binary_line(v.repr@, "xor"@, "i1"@, operand, "1"@))
    &&& r matches Ok(v) ==> (expr matches Expr::Unary { op: UnaryOp::Negate, .. } ==> (v.ty@ == "i32"@ && v.ax_ty
        == Some(Type::I32)) || (v.ty@ == "float"@ && v.ax_ty == Some(Type::F32)))
    &&& r matches Ok(v) ==> (expr matches Expr::Binary { op, .. } ==> (is_boolean_op(op) ==> v.ty@ == "i1"@
        && v.ax_ty == Some(Type::Bool)) && (is_arithmetic_op(op) ==> v.ty@ == "i32"@ || v.ty@ == "float"@
        || v.ty@ == "ptr"@))
    &&& r matches Ok(v) ==> (expr is Slice ==> v.ty@ == crate::abi::SLICE_LLVM_TYPE@ && (v.ax_ty matches Some(
        Type::Slice { .. },
    )) && exists|
        head: Seq<char>,
        tail: Seq<char>,
        start_value: Seq<char>,
        end_value: Seq<char>,
        length: Seq<char>,
        names: Seq<Seq<char>>,
    | #![auto] text == head + slice_range_checks_text(start_value, end_value, length, names) + tail)
}

impl<'a> FunctionEmitter<'a> {
    /// A fresh temporary `%tN`, `N` being the counter, which then moves on.
    pub fn next_temp(&mut self) -> (r: Result<String, String>)
        ensures
            steps_forward(*old(self), *final(self)),
            old(self).temp_index < u32::MAX ==> (r matches Ok(t) && t@ == "%t"@ + decimal(
                old(self).temp_index as nat,
            ) && final(self).temp_index == old(self).temp_index + 1),
            old(self).temp_index == u32::MAX ==> r is Err && final(self).temp_index
                == old(self).temp_index,
            final(self).locals == old(self).locals,
            final(self).const_stack == old(self).const_stack,
    {
        let index = self.temp_index;
        if index == u32::MAX {
            return Err(owned("function needs more temporaries than LLVM AOT v0 can number"));
        }
        self.temp_index = index + 1;
        let number = u32_to_decimal(index);
        let r = concat(&["%t", number.as_str()]);
        proof {
            reveal_with_fuel(concat_all, 3);
        }
        Ok(r)
    }

    /// A fresh label `prefix_N`, `N` being the counter, which then moves on.
    pub fn next_label(&mut self, prefix: &str) -> (r: Result<String, String>)
        ensures
            steps_forward(*old(self), *final(self)),
            steps_forward(*old(self), *final(self)),
            old(self).temp_index < u32::MAX ==> (r matches Ok(t) && t@ == prefix@ + "_"@ + decimal(
                old(self).temp_index as nat,
            ) && final(self).temp_index == old(self).temp_index + 1),
            old(self).temp_index == u32::MAX ==> r is Err && final(self).temp_index
                == old(self).temp_index,
            final(self).locals == old(self).locals,
            final(self).const_stack == old(self).const_stack,
    {
        let index = self.temp_index;
        if index == u32::MAX {
            return Err(owned("function needs more labels than LLVM AOT v0 can number"));
        }
        self.temp_index = index + 1;
        let number = u32_to_decimal(index);
        let r = concat(&[prefix, "_", number.as_str()]);
        proof {
            reveal_with_fuel(concat_all, 4);
        }
        Ok(r)
    }

    /// A fresh label `prefix_index_N`, `N` being the counter, which then moves on.
    pub fn next_indexed_label(&mut self, prefix: &str, index: usize) -> (r: Result<String, String>)
        ensures
            steps_forward(*old(self), *final(self)),
            steps_forward(*old(self), *final(self)),
            old(self).temp_index < u32::MAX ==> (r matches Ok(t) && t@ == prefix@ + "_"@ + decimal(
                index as nat,
            ) + "_"@ + decimal(old(self).temp_index as nat) && final(self).temp_index
                == old(self).temp_index + 1),
            old(self).temp_index == u32::MAX ==> r is Err && final(self).temp_index
                == old(self).temp_index,
            final(self).locals == old(self).locals,
            final(self).const_stack == old(self).const_stack,
    {
        let n = usize_to_decimal(index);
        let full = concat(&[prefix, "_", n.as_str()]);
        proof {
            reveal_with_fuel(concat_all, 4);
        }
        self.next_label(full.as_str())
    }

    /// The slot of local `local`.
    pub fn local_slot(&self, local: u32) -> (r: Result<LocalSlot, String>)
        ensures
            self.locals.view_map().contains_key(local) <==> r is Ok,
            r matches Ok(slot) ==> slot.ty@ == self.locals.view_map()[local].ty@ && slot.ptr@
                == self.locals.view_map()[local].ptr@ && same_type(
                slot.ax_ty,
                self.locals.view_map()[local].ax_ty,
            ),
    {
        match self.locals.get(local) {
            Some(slot) => Ok(
                LocalSlot { ptr: slot.ptr.clone(), ty: slot.ty.clone(), ax_ty: clone_type(&slot.ax_ty) },
            ),
            None => {
                let n = u32_to_decimal(local);
                Err(concat(&["internal LLVM AOT error: missing local slot ", n.as_str()]))
            },
        }
    }

    /// Lowers one statement.
    pub fn emit_statement(&mut self, statement: &Statement, out: &mut String, depth: u32) -> (r: Result<(), String>)
        ensures
            appends(old(out)@, final(out)@),
            steps_forward(*old(self), *final(self)),
            depth == 0 ==> r is Err,
            *statement matches Statement::Let { local, .. } ==> (!old(self).locals.view_map().contains_key(local)
                ==> r is Err),
            r is Ok ==> (*statement matches Statement::Let { local, .. } ==> exists|body: Seq<char>, value: Seq<char>|
                final(out)@ == body + "  store "@ + old(self).locals.view_map()[local].ty@ + " "@ + value
                    + ", ptr "@ + old(self).locals.view_map()[local].ptr@ + seq!['\n']),
            *statement matches Statement::Let { local, initializer, .. } ==> (initializer matches Expr::Int {
                value,
            } ==> (old(self).locals.view_map().contains_key(local) ==> ((depth > 2 && old(self).locals.view_map()[local].ty@
                == "i32"@ && !(old(self).locals.view_map()[local].ax_ty is Slice)) ==> (r is Ok && final(out)@
                == old(out)@ + "  store "@ + "i32"@ + " "@ + signed_decimal(value as int) + ", ptr "@ + old(
                self,
            ).locals.view_map()[local].ptr@ + seq!['\n'] && *final(self) == *old(self))))),
        decreases depth,
    {
        if depth == 0 {
            return Err(too_deep());
        }
        match statement {
            Statement::Let { local, initializer, .. } => {
                let slot = self.local_slot(*local)?;
                let is_slice = match &slot.ax_ty {
                    Type::Slice { .. } => true,
                    _ => false,
                };
                let val = match initializer {
                    Expr::EnumPayload { value } => self.emit_enum_payload(value, Some(&slot.ax_ty), out, depth - 1)?,
                    _ => {
                        if is_slice {
                            self.emit_slice_from_expr(initializer, out, depth - 1)?
                        } else {
                            match initializer {
                                Expr::EnumVariant { enum_name, variant, payload } => {
                                    let payload_expr: Option<&Expr> = match payload {
                                        Some(p) => Some(&**p),
                                        None => None,
                                    };
                                    self.emit_enum_variant(
                                        enum_name.as_str(),
                                        variant.as_str(),
                                        payload_expr,
                                        Some(&slot.ax_ty),
                                        out,
                                        depth - 1,
                                    )?
                                },
                                Expr::StructLiteral { name, fields } => self.emit_struct_literal(
                                    name.as_str(),
                                    fields,
                                    Some(&slot.ax_ty),
                                    out,
                                    depth - 1,
                                )?,
                                Expr::ArrayLiteral { elements } => self.emit_array_literal(
                                    elements,
                                    Some(&slot.ax_ty),
                                    out,
                                    depth - 1,
                                )?,
                                _ => self.emit_expr_with_expected(
                                    initializer,
                                    Some(&slot.ax_ty),
                                    out,
                                    depth - 1,
                                )?,
                            }
                        }
                    },
                };
                ensure_same_type(slot.ty.as_str(), val.ty.as_str())?;
                let ghost body = out@;
                put_line(out, &["  store ", val.ty.as_str(), " ", val.repr.as_str(), ", ptr ", slot.ptr.as_str()]);
                proof {
                    reveal_with_fuel(concat_all, 7);
                    assert(out@ == body + "  store "@ + slot.ty@ + " "@ + val.repr@ + ", ptr "@ + slot.ptr@
                        + seq!['\n']);
                }
                Ok(())
            },
            Statement::Assign { target, value: assigned } => {
                let slot = self.emit_place_ptr(target, out, depth - 1)?;
                let val = match assigned {
                    Expr::StructLiteral { name, fields } => self.emit_struct_literal(
                        name.as_str(),
                        fields,
                        Some(&slot.ax_ty),
                        out,
                        depth - 1,
                    )?,
                    Expr::ArrayLiteral { elements } => self.emit_array_literal(
                        elements,
                        Some(&slot.ax_ty),
                        out,
                        depth - 1,
                    )?,
                    _ => self.emit_expr_with_expected(assigned, Some(&slot.ax_ty), out, depth - 1)?,
                };
                ensure_same_type(slot.ty.as_str(), val.ty.as_str())?;
                put_line(out, &["  store ", val.ty.as_str(), " ", val.repr.as_str(), ", ptr ", slot.ptr.as_str()]);
                Ok(())
            },
            Statement::Eval { expr } => {
                self.emit_expr(expr, out, depth - 1)?;
                Ok(())
            },
        }
    }

    /// Lowers the terminator of a block.
    pub fn emit_terminator(&mut self, block: &BasicBlock, out: &mut String, depth: u32) -> (r: Result<(), String>)
        ensures
            appends(old(out)@, final(out)@),
            steps_forward(*old(self), *final(self)),
            depth == 0 ==> r is Err,
            depth > 0 ==> (block.terminator matches Terminator::Goto { target } ==> r is Ok
                && final(out)@ == old(out)@ + "  br label %bb"@ + decimal(target as nat) + seq!['\n']),
            depth > 0 ==> (block.terminator is Unreachable ==> r is Ok && final(out)@ == old(out)@
                + "  unreachable"@ + seq!['\n']),
            r is Ok ==> (block.terminator matches Terminator::Branch { then_block, else_block, .. }
                ==> exists|body: Seq<char>, cond: Seq<char>|
                final(out)@ == body + "  br i1 "@ + cond + ", label %bb"@ + decimal(then_block as nat)
                    + ", label %bb"@ + decimal(else_block as nat) + seq!['\n']),
            r is Ok ==> (block.terminator is Return ==> exists|body: Seq<char>, ty: Seq<char>, value: Seq<char>|
                final(out)@ == body + "  ret "@ + ty + " "@ + value + seq!['\n']),
            depth > 2 ==> (block.terminator matches Terminator::Return { value: Expr::Int { value } } ==> r is Ok
                && final(out)@ == old(out)@ + "  ret "@ + "i32"@ + " "@ + signed_decimal(value as int) + seq!['\n']),
            depth > 2 ==> (block.terminator matches Terminator::Return { value: Expr::Bool { value } } ==> r is Ok
                && final(out)@ == old(out)@ + "  ret "@ + "i1"@ + " "@ + (if value { "1"@ } else { "0"@ }) + seq!['\n']),
        decreases depth,
    {
        if depth == 0 {
            return Err(too_deep());
        }
        proof {
            reveal_with_fuel(concat_all, 3);
        }
        match &block.terminator {
            Terminator::Goto { target } => {
                let t = u32_to_decimal(*target);
                put_line(out, &["  br label %bb", t.as_str()]);
                Ok(())
            },
            Terminator::Branch { condition, then_block, else_block } => {
                let cond = self.emit_expr(condition, out, depth - 1)?;
                ensure_same_type("i1", cond.ty.as_str())?;
                let then_label = u32_to_decimal(*then_block);
                let else_label = u32_to_decimal(*else_block);
                let ghost body = out@;
                put_line(
                    out,
                    &[
                        "  br i1 ",
                        cond.repr.as_str(),
                        ", label %bb",
                        then_label.as_str(),
                        ", label %bb",
                        else_label.as_str(),
                    ],
                );
                proof {
                    reveal_with_fuel(concat_all, 7);
                    assert(out@ == body + "  br i1 "@ + cond.repr@ + ", label %bb"@ + decimal(*then_block as nat)
                        + ", label %bb"@ + decimal(*else_block as nat) + seq!['\n']);
                }
                Ok(())
            },
            Terminator::Return { value: returned } => {
                let return_ax_ty = clone_type(&self.return_ax_ty);
                let val = match returned {
                    Expr::EnumVariant { enum_name, variant, payload } => {
                        let payload_expr: Option<&Expr> = match payload {
                            Some(p) => Some(&**p),
                            None => None,
                        };
                        self.emit_enum_variant(
                            enum_name.as_str(),
                            variant.as_str(),
                            payload_expr,
                            Some(&return_ax_ty),
                            out,
                            depth - 1,
                        )?
                    },
                    Expr::StructLiteral { name, fields } => self.emit_struct_literal(
                        name.as_str(),
                        fields,
                        Some(&return_ax_ty),
                        out,
                        depth - 1,
                    )?,
                    Expr::ArrayLiteral { elements } => self.emit_array_literal(
                        elements,
                        Some(&return_ax_ty),
                        out,
                        depth - 1,
                    )?,
                    _ => self.emit_expr_with_expected(returned, Some(&return_ax_ty), out, depth - 1)?,
                };
                let ghost body = out@;
                put_line(out, &["  ret ", val.ty.as_str(), " ", val.repr.as_str()]);
                proof {
                    reveal_with_fuel(concat_all, 5);
                    assert(out@ == body + "  ret "@ + val.ty@ + " "@ + val.repr@ + seq!['\n']);
                }
                Ok(())
            },
            Terminator::Unreachable => {
                put_line(out, &["  unreachable"]);
                Ok(())
            },
        }
    }

    /// Lowers an expression whose type needs no context.
    pub fn emit_expr(&mut self, expr: &Expr, out: &mut String, depth: u32) -> (r: Result<LlvmValue, String>)
        ensures
            appends(old(out)@, final(out)@),
            steps_forward(*old(self), *final(self)),
            depth > 0 ==> (*expr matches Expr::Int { value } ==> (r matches Ok(v) && v.ty@ == "i32"@
                && v.repr@ == signed_decimal(value as int) && v.ax_ty == Some(Type::I32)
                && final(out)@ == old(out)@)),
            depth > 0 && (*expr is Int || *expr is Float || *expr is Bool) ==> *final(self) == *old(self),
            depth > 0 && old(self).temp_index < u32::MAX ==> (*expr matches Expr::Local { local, .. }
                ==> (old(self).locals.view_map().contains_key(local) ==> (r matches Ok(v) && (v.ax_ty matches Some(
                t,
            ) && same_type(t, old(self).locals.view_map()[local].ax_ty)) && final(self).locals
                == old(self).locals && final(self).temp_index == old(self).temp_index + 1))),
            depth > 0 ==> (*expr matches Expr::Float { bits } ==> (r matches Ok(v) && v.ty@ == "float"@
                && v.repr@ == float_literal(bits) && v.ax_ty == Some(Type::F32) && final(out)@
                == old(out)@)),
            depth > 0 ==> (*expr matches Expr::Bool { value } ==> (r matches Ok(v) && v.ty@ == "i1"@
                && v.repr@ == (if value { "1"@ } else { "0"@ }) && v.ax_ty == Some(Type::Bool)
                && final(out)@ == old(out)@)),
            depth > 0 && old(self).temp_index < u32::MAX ==> (*expr matches Expr::Local { local, .. }
                ==> (old(self).locals.view_map().contains_key(local) ==> (r matches Ok(v) && v.ty@
                == old(self).locals.view_map()[local].ty@ && v.repr@ == "%t"@ + decimal(
                old(self).temp_index as nat,
            ) && final(out)@ == old(out)@ + "  "@ + v.repr@ + " = load "@ + v.ty@ + ", ptr "@
                + old(self).locals.view_map()[local].ptr@ + "\n"@))),
            composite_expr_result(*old(self), *expr, r, old(out)@, final(out)@, depth),
        decreases depth,
    {
        proof {
            reveal(composite_expr_result);
        }
        if depth == 0 {
            return Err(too_deep());
        }
        match expr {
            Expr::Int { value: v } => Ok(i32_value(i64_to_decimal(*v))),
            Expr::Float { bits } => Ok(value("float", llvm_float_literal(*bits), Some(Type::F32))),
            Expr::Bool { value: v } => Ok(bool_value(owned(if *v { "1" } else { "0" }))),
            Expr::Local { local, .. } => {
                let slot = self.local_slot(*local)?;
                let temp = self.next_temp()?;
                let ghost before = out@;
                put_line(out, &["  ", temp.as_str(), " = load ", slot.ty.as_str(), ", ptr ", slot.ptr.as_str()]);
                proof {
                    reveal_with_fuel(concat_all, 7);
                    reveal_strlit("\n");
                    assert(out@ =~= before + "  "@ + temp@ + " = load "@ + slot.ty@ + ", ptr "@ + slot.ptr@
                        + "\n"@);
                }
                Ok(LlvmValue { ty: slot.ty, repr: temp, ax_ty: Some(slot.ax_ty) })
            },
            Expr::Unary { op, expr: inner } => {
                let operand = self.emit_expr(inner, out, depth - 1)?;
                match op {
                    UnaryOp::Negate => {
                        let temp = self.next_temp()?;
                        if str_eq(operand.ty.as_str(), "i32") {
                            let overflow = self.next_temp()?;
                            put_line(
                                out,
                                &["  ", overflow.as_str(), " = icmp eq i32 ", operand.repr.as_str(), ", -2147483648"],
                            );
                            self.emit_runtime_error_if(overflow.as_str(), "i32_neg_overflow", "@.ax_rt_neg_overflow", out)?;
                            put_line(out, &["  ", temp.as_str(), " = sub i32 0, ", operand.repr.as_str()]);
                            Ok(i32_value(temp))
                        } else if str_eq(operand.ty.as_str(), "float") {
                            put_line(out, &["  ", temp.as_str(), " = fneg float ", operand.repr.as_str()]);
                            Ok(value("float", temp, Some(Type::F32)))
                        } else {
                            Err(concat(&["unary `-` expects i32 or f32 in LLVM AOT v0, found ", operand.ty.as_str()]))
                        }
                    },
                    UnaryOp::Not => {
                        ensure_same_type("i1", operand.ty.as_str())?;
                        let temp = self.next_temp()?;
                        let ghost body = out@;
                        put_line(out, &["  ", temp.as_str(), " = xor i1 ", operand.repr.as_str(), ", 1"]);
                        proof {
                            reveal_with_fuel(concat_all, 6);
                            reveal_strlit(" = xor i1 ");
                            reveal_strlit(", 1");
                            reveal_strlit("  ");
                            reveal_strlit(" = ");
                            reveal_strlit(" ");
                            reveal_strlit(", ");
                            reveal_strlit("xor");
                            reveal_strlit("i1");
                            reveal_strlit("1");
                            assert(out@ =~= body + binary_line(temp@, "xor"@, "i1"@, operand.repr@, "1"@));
                        }
                        Ok(bool_value(temp))
                    },
                }
            },
            Expr::Binary { op, left, right } => {
                match op {
                    BinaryOp::LogicalAnd | BinaryOp::LogicalOr => {
                        return self.emit_short_circuit_logical(*op, left, right, out, depth - 1);
                    },
                    _ => {},
                }
                let l = self.emit_expr(left, out, depth - 1)?;
                let r = self.emit_expr(right, out, depth - 1)?;
                self.emit_binary(*op, l, r, out, depth - 1)
            },
            Expr::Call { function, arguments } => self.emit_call(function.as_str(), arguments, None, out, depth - 1),
            Expr::String { value: text } => match self.strings.get(text.as_str()) {
                Some(literal) => Ok(string_value(literal.symbol.clone())),
                None => Err(owned("internal LLVM AOT error: missing string literal")),
            },
            Expr::Const { name } => self.emit_const(name.as_str(), out, depth - 1),
            Expr::Try { expr: inner } => self.emit_try(inner, out, depth - 1),
            Expr::ArrayLiteral { elements } => self.emit_array_literal(elements, None, out, depth - 1),
            Expr::Index { base, index } => self.emit_index(base, index, out, depth - 1),
            Expr::Slice { base, start, end } => self.emit_slice_range(base, start, end, out, depth - 1),
            Expr::StructLiteral { name, fields } => self.emit_struct_literal(name.as_str(), fields, None, out, depth - 1),
            Expr::Field { base, field } => self.emit_field(base, field.as_str(), out, depth - 1),
            Expr::EnumVariant { enum_name, variant, payload } => {
                let payload_expr: Option<&Expr> = match payload {
                    Some(p) => Some(&**p),
                    None => None,
                };
                self.emit_enum_variant(enum_name.as_str(), variant.as_str(), payload_expr, None, out, depth - 1)
            },
            Expr::MatchTest { scrutinee, pattern } => self.emit_match_test(scrutinee, pattern, out, depth - 1),
            Expr::EnumPayload { value: inner } => self.emit_enum_payload(inner, None, out, depth - 1),
            Expr::Block { statements, value: result } => self.emit_block_expr_with_expected(
                statements,
                result,
                None,
                out,
                depth - 1,
            ),
            Expr::Match { scrutinee, arms } => self.emit_match_expr_with_expected(scrutinee, arms, None, out, depth - 1),
        }
    }

    /// Lowers an expression that may use the type the context expects.
    pub fn emit_expr_with_expected(
        &mut self,
        expr: &Expr,
        expected_ax_ty: Option<&Type>,
        out: &mut String,
        depth: u32,
    ) -> (r: Result<LlvmValue, String>)
        ensures
            appends(old(out)@, final(out)@),
            steps_forward(*old(self), *final(self)),
            depth == 0 ==> r is Err,
            depth > 1 ==> (*expr matches Expr::Int { value } ==> (r matches Ok(v) && v.ty@ == "i32"@
                && v.repr@ == signed_decimal(value as int) && v.ax_ty == Some(Type::I32) && final(out)@
                == old(out)@ && *final(self) == *old(self))),
            depth > 1 ==> (*expr matches Expr::Bool { value } ==> (r matches Ok(v) && v.ty@ == "i1"@
                && v.repr@ == (if value { "1"@ } else { "0"@ }) && v.ax_ty == Some(Type::Bool) && final(out)@
                == old(out)@ && *final(self) == *old(self))),
            depth > 1 && old(self).temp_index < u32::MAX ==> (*expr matches Expr::Local { local, .. }
                ==> (old(self).locals.view_map().contains_key(local) ==> (r matches Ok(v) && v.ty@
                == old(self).locals.view_map()[local].ty@ && v.repr@ == temp_name(old(self).temp_index as nat)
                && final(self).temp_index == old(self).temp_index + 1))),
        decreases depth,
    {
        if depth == 0 {
            return Err(too_deep());
        }
        match expr {
            Expr::Call { function, arguments } => self.emit_call(
                function.as_str(),
                arguments,
                expected_ax_ty,
                out,
                depth - 1,
            ),
            Expr::EnumPayload { value: inner } => self.emit_enum_payload(inner, expected_ax_ty, out, depth - 1),
            Expr::EnumVariant { enum_name, variant, payload } => {
                let payload_expr: Option<&Expr> = match payload {
                    Some(p) => Some(&**p),
                    None => None,
                };
                self.emit_enum_variant(
                    enum_name.as_str(),
                    variant.as_str(),
                    payload_expr,
                    expected_ax_ty,
                    out,
                    depth - 1,
                )
            },
            Expr::StructLiteral { name, fields } => self.emit_struct_literal(
                name.as_str(),
                fields,
                expected_ax_ty,
                out,
                depth - 1,
            ),
            Expr::ArrayLiteral { elements } => self.emit_array_literal(elements, expected_ax_ty, out, depth - 1),
            Expr::Block { statements, value: result } => self.emit_block_expr_with_expected(
                statements,
                result,
                expected_ax_ty,
                out,
                depth - 1,
            ),
            Expr::Match { scrutinee, arms } => self.emit_match_expr_with_expected(
                scrutinee,
                arms,
                expected_ax_ty,
                out,
                depth - 1,
            ),
            _ => self.emit_expr(expr, out, depth - 1),
        }
    }

    #[verifier::rlimit(100)]
    #[verifier::spinoff_prover]
    fn emit_short_circuit_logical(
        &mut self,
        op: BinaryOp,
        left: &Expr,
        right: &Expr,
        out: &mut String,
        depth: u32,
    ) -> (r: Result<LlvmValue, String>)
        ensures
            appends(old(out)@, final(out)@),
            steps_forward(*old(self), *final(self)),
            r matches Ok(v) ==> v.ty@ == "i1"@ && v.ax_ty == Some(Type::Bool),
            r matches Ok(v) ==> exists|left_code: Seq<char>, l: Seq<char>, right_code: Seq<char>, rv: Seq<char>, n: nat|
                final(out)@ == old(out)@ + #[trigger] short_circuit_text(
                    op is LogicalAnd,
                    left_code,
                    l,
                    right_code,
                    rv,
                    n,
                    v.repr@,
                ),
            depth == 0 || (depth > 1 && *left is Int) ==> r is Err,
            simple_i1_operand(old(self).locals.view_map(), *left) matches Some(a) ==> (simple_i1_operand(
                old(self).locals.view_map(),
                *right,
            ) matches Some(b) ==> ((depth > 1 && old(self).temp_index + a + b + 4 <= u32::MAX) ==> (r matches Ok(
                v,
            ) && v.repr@ == temp_name((old(self).temp_index + a + b + 3) as nat) && final(self).temp_index
                == old(self).temp_index + a + b + 4))),
        decreases depth,
    {
        if depth == 0 {
            return Err(too_deep());
        }
        proof {
            reveal_strlit("i1");
            reveal_strlit("i32");
            assert("i1"@.len() == 2 && "i32"@.len() == 3);
        }
        let ghost start = self.temp_index;
        let l = self.emit_expr(left, out, depth - 1)?;
        ensure_same_type("i1", l.ty.as_str())?;
        let ghost after_left = out@;
        let ghost n = self.temp_index as nat;
        let result_slot = self.next_temp()?;
        let rhs_label = self.next_label("logical_rhs")?;
        let done_label = self.next_label("logical_done")?;
        let is_and = match op {
            BinaryOp::LogicalAnd => true,
            _ => false,
        };
        put_short_circuit_head(out, is_and, l.repr.as_str(), result_slot.as_str(), rhs_label.as_str(), done_label.as_str());
        let ghost before_right = out@;
        assert(before_right == after_left + short_circuit_head(is_and, l.repr@, n)) by {
            reveal(short_circuit_head);
        }
        let r = self.emit_expr(right, out, depth - 1)?;
        ensure_same_type("i1", r.ty.as_str())?;
        let ghost after_right = out@;
        let ghost k = self.temp_index;
        let result = self.next_temp()?;
        put_short_circuit_tail(out, r.repr.as_str(), result_slot.as_str(), done_label.as_str(), result.as_str());
        assert(result@ == temp_name(k as nat));
        assert(out@ == after_right + short_circuit_tail(r.repr@, n, result@)) by {
            reveal(short_circuit_tail);
        }
        proof {
            let left_code = after_left.subrange(old(out)@.len() as int, after_left.len() as int);
            let right_code = after_right.subrange(before_right.len() as int, after_right.len() as int);
            assert(after_left =~= old(out)@ + left_code);
            assert(after_right =~= before_right + right_code);
            assert(is_and == (op is LogicalAnd));
            assert(out@ =~= old(out)@ + short_circuit_text(
                is_and,
                left_code,
                l.repr@,
                right_code,
                r.repr@,
                n,
                result@,
            ));
        }
        Ok(bool_value(result))
    }

    fn emit_block_expr_with_expected(
        &mut self,
        statements: &Vec<Statement>,
        result: &Expr,
        expected_ax_ty: Option<&Type>,
        out: &mut String,
        depth: u32,
    ) -> (r: Result<LlvmValue, String>)
        ensures
            appends(old(out)@, final(out)@),
            steps_forward(*old(self), *final(self)),
            depth == 0 ==> r is Err,
            statements@.len() == 0 && depth > 2 ==> (*result matches Expr::Int { value } ==> (r matches Ok(v)
                && v.ty@ == "i32"@ && v.repr@ == signed_decimal(value as int) && v.ax_ty == Some(Type::I32)
                && final(out)@ == old(out)@ && *final(self) == *old(self))),
            statements@.len() == 0 && depth > 2 ==> (*result matches Expr::Bool { value } ==> (r matches Ok(v)
                && v.ty@ == "i1"@ && v.repr@ == (if value { "1"@ } else { "0"@ }) && v.ax_ty == Some(Type::Bool)
                && final(out)@ == old(out)@ && *final(self) == *old(self))),
        decreases depth,
    {
        if depth == 0 {
            return Err(too_deep());
        }
        let mut i: usize = 0;
        while i < statements.len()
            invariant
                appends(old(out)@, out@),
                steps_forward(*old(self), *self),
                i <= statements@.len(),
                depth > 0,
                i == 0 ==> out@ == old(out)@ && *self == *old(self),
            decreases statements@.len() - i,
        {
            self.emit_statement(&statements[i], out, depth - 1)?;
            i += 1;
        }
        self.emit_expr_with_expected(result, expected_ax_ty, out, depth - 1)
    }

    fn emit_const(&mut self, name: &str, out: &mut String, depth: u32) -> (r: Result<LlvmValue, String>)
        ensures
            appends(old(out)@, final(out)@),
            steps_forward(*old(self), *final(self)),
            depth == 0 || old(self).consts.spec_get(name@) is None ==> r is Err,
            (exists|j: int| 0 <= j < old(self).const_stack@.len() && #[trigger] old(self).const_stack@[j]@ == name@)
                ==> r is Err,
            r matches Ok(v) ==> (old(self).consts.spec_get(name@) matches Some(b) && llvm_type_of(
                *b.ty,
                *old(self).layouts,
                *old(self).enum_layouts,
            ) == Some(v.ty@) && (v.ax_ty matches Some(t) && same_type(t, *b.ty))),
        decreases depth,
    {
        if depth == 0 {
            return Err(too_deep());
        }
        let binding: ConstBinding<'a> = match self.consts.get(name) {
            Some(binding) => *binding,
            None => return Err(concat(&["const `", name, "` was not found for LLVM AOT lowering"])),
        };
        let mut i: usize = 0;
        while i < self.const_stack.len()
            invariant
                appends(old(out)@, out@),
                steps_forward(*old(self), *self),
                i <= self.const_stack@.len(),
                self.const_stack == old(self).const_stack,
                forall|j: int| 0 <= j < i ==> self.const_stack@[j]@ != name@,
            decreases self.const_stack@.len() - i,
        {
            if str_eq(self.const_stack[i].as_str(), name) {
                return Err(
                    concat(&["const `", name, "` recursively references itself during LLVM AOT lowering"]),
                );
            }
            i += 1;
        }
        self.const_stack.push(owned(name));
        let lowered = self.emit_expr_with_expected(binding.value, Some(binding.ty), out, depth - 1);
        self.const_stack.pop();
        let mut val = lowered?;
        let expected_ty = match llvm_type(binding.ty, self.layouts, self.enum_layouts) {
            Some(t) => t,
            None => {
                let shown = ax_type_name(binding.ty);
                return Err(concat(&["const `", name, "` uses unsupported type ", shown.as_str()]));
            },
        };
        ensure_same_type(expected_ty.as_str(), val.ty.as_str())?;
        val.ax_ty = Some(clone_type(binding.ty));
        Ok(val)
    }

    fn emit_match_expr_with_expected(
        &mut self,
        scrutinee: &Expr,
        arms: &Vec<MatchExprArm>,
        expected_ax_ty: Option<&Type>,
        out: &mut String,
        depth: u32,
    ) -> (r: Result<LlvmValue, String>)
        ensures
            appends(old(out)@, final(out)@),
            steps_forward(*old(self), *final(self)),
            depth == 0 || arms@.len() == 0 ==> r is Err,
            depth > 0 && arms@.len() == 0 ==> (r matches Err(e) && e@ == "match expression has no arms in LLVM AOT v0"@)
                && final(out)@ == old(out)@ && *final(self) == *old(self),
            r matches Ok(v) ==> final(self).temp_index > old(self).temp_index && v.repr@ == temp_name(
                (final(self).temp_index - 1) as nat,
            ),
            expected_ax_ty matches Some(e) ==> (r matches Ok(v) ==> (v.ax_ty matches Some(t) && same_type(t, *e))
                && llvm_type_of(*e, *old(self).layouts, *old(self).enum_layouts) == Some(v.ty@)),
            expected_ax_ty matches Some(e) ==> (llvm_type_of(*e, *old(self).layouts, *old(self).enum_layouts) is None
                ==> r is Err),
        decreases depth,
    {
        if depth == 0 {
            return Err(too_deep());
        }
        if arms.len() == 0 {
            return Err(owned("match expression has no arms in LLVM AOT v0"));
        }
        let (result_ty, result_ax_ty) = match expected_ax_ty {
            Some(expected) => match llvm_type(expected, self.layouts, self.enum_layouts) {
                Some(ty) => (ty, clone_type(expected)),
                None => {
                    let shown = ax_type_name(expected);
                    return Err(
                        concat(&["match expression expected type ", shown.as_str(), " is outside LLVM AOT v0"]),
                    );
                },
            },
            None => {
                let (first_ty, first_ax_ty) = self.infer_expr_value_type(&arms[0].value, depth - 1)?;
                let mut k: usize = 1;
                while k < arms.len()
                    invariant
                        appends(old(out)@, out@),
                        steps_forward(*old(self), *self),
                        1 <= k <= arms@.len(),
                        depth > 0,
                    decreases arms@.len() - k,
                {
                    let (arm_ty, _) = self.infer_expr_value_type(&arms[k].value, depth - 1)?;
                    ensure_same_type(first_ty.as_str(), arm_ty.as_str())?;
                    k += 1;
                }
                (first_ty, first_ax_ty)
            },
        };
        let scrutinee_value = self.emit_expr(scrutinee, out, depth - 1)?;
        let result_slot = self.next_temp()?;
        let done_label = self.next_label("match_done")?;
        let no_match_label = self.next_label("match_no_match")?;
        put_line(out, &["  ", result_slot.as_str(), " = alloca ", result_ty.as_str()]);
        let mut arm_labels: Vec<String> = Vec::new();
        let mut a: usize = 0;
        while a < arms.len()
            invariant
                appends(old(out)@, out@),
                steps_forward(*old(self), *self),
                a <= arms@.len(),
                arm_labels@.len() == a,
            decreases arms@.len() - a,
        {
            arm_labels.push(self.next_indexed_label("match_arm", a)?);
            a += 1;
        }
        let mut next_labels: Vec<String> = Vec::new();
        let mut n: usize = 0;
        while n < arms.len()
            invariant
                appends(old(out)@, out@),
                steps_forward(*old(self), *self),
                n <= arms@.len(),
                next_labels@.len() == n,
            decreases arms@.len() - n,
        {
            if n + 1 == arms.len() {
                next_labels.push(no_match_label.clone());
            } else {
                next_labels.push(self.next_indexed_label("match_next", n)?);
            }
            n += 1;
        }
        let mut index: usize = 0;
        while index < arms.len()
            invariant
                appends(old(out)@, out@),
                steps_forward(*old(self), *self),
                index <= arms@.len(),
                arm_labels@.len() == arms@.len(),
                next_labels@.len() == arms@.len(),
                depth > 0,
            decreases arms@.len() - index,
        {
            let arm = &arms[index];
            let matched = self.emit_match_test_value(&scrutinee_value, &arm.pattern, out, depth - 1)?;
            ensure_same_type("i1", matched.ty.as_str())?;
            match &arm.guard {
                Some(guard) => {
                    let guard_label = self.next_indexed_label("match_guard", index)?;
                    put_line(
                        out,
                        &[
                            "  br i1 ",
                            matched.repr.as_str(),
                            ", label %",
                            guard_label.as_str(),
                            ", label %",
                            next_labels[index].as_str(),
                        ],
                    );
                    put_line(out, &[guard_label.as_str(), ":"]);
                    self.emit_match_bindings(&scrutinee_value, arm, out, depth - 1)?;
                    let guard_value = self.emit_expr(guard, out, depth - 1)?;
                    ensure_same_type("i1", guard_value.ty.as_str())?;
                    put_line(
                        out,
                        &[
                            "  br i1 ",
                            guard_value.repr.as_str(),
                            ", label %",
                            arm_labels[index].as_str(),
                            ", label %",
                            next_labels[index].as_str(),
                        ],
                    );
                },
                None => {
                    put_line(
                        out,
                        &[
                            "  br i1 ",
                            matched.repr.as_str(),
                            ", label %",
                            arm_labels[index].as_str(),
                            ", label %",
                            next_labels[index].as_str(),
                        ],
                    );
                },
            }
            put_line(out, &[arm_labels[index].as_str(), ":"]);
            if arm.guard.is_none() {
                self.emit_match_bindings(&scrutinee_value, arm, out, depth - 1)?;
            }
            let arm_value = self.emit_expr_with_expected(&arm.value, Some(&result_ax_ty), out, depth - 1)?;
            ensure_same_type(result_ty.as_str(), arm_value.ty.as_str())?;
            put_line(out, &["  store ", arm_value.ty.as_str(), " ", arm_value.repr.as_str(), ", ptr ", result_slot.as_str()]);
            put_line(out, &["  br label %", done_label.as_str()]);
            if index + 1 < arms.len() {
                put_line(out, &[next_labels[index].as_str(), ":"]);
            }
            index += 1;
        }
        put_line(out, &[no_match_label.as_str(), ":"]);
        put_line(out, &["  call void @exit(i32 1)"]);
        put_line(out, &["  unreachable"]);
        put_line(out, &[done_label.as_str(), ":"]);
        let ghost k = self.temp_index;
        let loaded = self.next_temp()?;
        put_line(out, &["  ", loaded.as_str(), " = load ", result_ty.as_str(), ", ptr ", result_slot.as_str()]);
        assert(loaded@ == temp_name(k as nat));
        Ok(LlvmValue { ty: result_ty, repr: loaded, ax_ty: Some(result_ax_ty) })
    }

    /// The LLVM and AX types that an expression would have, without emitting it.
    pub fn infer_expr_value_type(&self, expr: &Expr, depth: u32) -> (r: Result<ValueType, String>)
        ensures
            depth > 0 && *expr is Int ==> (r matches Ok((t, a)) && t@ == "i32"@ && a == Type::I32),
            depth > 0 && *expr is Bool ==> (r matches Ok((t, a)) && t@ == "i1"@ && a == Type::Bool),
            depth > 0 && *expr is String ==> (r matches Ok((t, a)) && t@ == "ptr"@ && a == Type::String),
            depth > 0 && *expr is Float ==> (r matches Ok((t, a)) && t@ == "float"@ && a == Type::F32),
            depth > 0 && *expr is MatchTest ==> (r matches Ok((t, a)) && t@ == "i1"@ && a == Type::Bool),
            depth == 0 ==> r is Err,
            depth > 0 ==> (*expr matches Expr::Local { local, .. } ==> (r is Ok
                <==> self.locals.view_map().contains_key(local))),
            *expr matches Expr::Local { local, .. } ==> (r matches Ok((t, a)) ==> t@
                == self.locals.view_map()[local].ty@ && same_type(a, self.locals.view_map()[local].ax_ty)),
            *expr matches Expr::Unary { op, .. } ==> (r matches Ok((t, a)) ==> (op is Negate ==> t@ == "i32"@
                && a == Type::I32) && (op is Not ==> t@ == "i1"@ && a == Type::Bool)),
            *expr matches Expr::Binary { op, .. } ==> (r matches Ok((t, a)) ==> (is_boolean_op(op) ==> t@
                == "i1"@ && a == Type::Bool)),
            depth > 1 ==> (*expr matches Expr::Call { function, .. } ==> (builtin_value_type(function@) matches Some(
                (ty, ax_ty),
            ) ==> (r matches Ok((t, a)) && t@ == ty && a == ax_ty))),
            *expr matches Expr::StructLiteral { name, .. } ==> (r matches Ok((_, a)) ==> (a matches Type::Struct {
                name: n,
            } && n@ == name@)),
            *expr matches Expr::EnumVariant { enum_name, .. } ==> (r matches Ok((_, a)) ==> (a matches Type::Enum {
                name: n,
            } && n@ == enum_name@)),
            *expr matches Expr::ArrayLiteral { elements } ==> (r matches Ok((_, a)) ==> (a matches Type::Array {
                length,
                ..
            } && length == elements@.len())),
            r matches Ok((t, a)) ==> (value_type_of(*self, *expr) matches Some((t2, a2)) ==> t@ == t2
                && same_type(a, a2)),
            simply_typed(*self, *expr, depth) ==> r is Ok,
            depth > 2 ==> (*expr matches Expr::Call { function, arguments } ==> (user_call(function@) ==> (
            self.signatures.spec_get(function@) matches Some(sig) ==> (sig.params@.len() == arguments@.len() ==> (
            r matches Ok((t, a)) && t@ == sig.return_type@ && same_type(a, sig.return_ax_type)))))),
        decreases depth,
    {
        if depth == 0 {
            return Err(too_deep());
        }
        match expr {
            Expr::Int { .. } => Ok((owned("i32"), Type::I32)),
            Expr::Bool { .. } => Ok((owned("i1"), Type::Bool)),
            Expr::String { .. } => Ok((owned("ptr"), Type::String)),
            Expr::Float { .. } => Ok((owned("float"), Type::F32)),
            Expr::MatchTest { .. } => Ok((owned("i1"), Type::Bool)),
            Expr::Local { local, .. } => {
                let slot = self.local_slot(*local)?;
                Ok((slot.ty, slot.ax_ty))
            },
            Expr::Unary { op, expr: inner } => {
                let (ty, _) = self.infer_expr_value_type(inner, depth - 1)?;
                match op {
                    UnaryOp::Negate => {
                        ensure_same_type("i32", ty.as_str())?;
                        Ok((owned("i32"), Type::I32))
                    },
                    UnaryOp::Not => {
                        ensure_same_type("i1", ty.as_str())?;
                        Ok((owned("i1"), Type::Bool))
                    },
                }
            },
            Expr::Binary { op, left, right } => {
                let (left_ty, left_ax_ty) = self.infer_expr_value_type(left, depth - 1)?;
                let (right_ty, _) = self.infer_expr_value_type(right, depth - 1)?;
                ensure_same_type(left_ty.as_str(), right_ty.as_str())?;
                match op {
                    BinaryOp::LogicalOr | BinaryOp::LogicalAnd | BinaryOp::Equal | BinaryOp::NotEqual
                    | BinaryOp::Less | BinaryOp::LessEqual | BinaryOp::Greater
                    | BinaryOp::GreaterEqual => Ok((owned("i1"), Type::Bool)),
                    BinaryOp::Add => {
                        match left_ax_ty {
                            Type::String => Ok((owned("ptr"), Type::String)),
                            _ => Ok((left_ty, left_ax_ty)),
                        }
                    },
                    _ => Ok((left_ty, left_ax_ty)),
                }
            },
            Expr::Call { function, arguments } => self.infer_call_value_type(function.as_str(), arguments, depth - 1),
            Expr::StructLiteral { name, .. } => {
                let ax_ty = Type::Struct { name: name.clone() };
                match llvm_type(&ax_ty, self.layouts, self.enum_layouts) {
                    Some(ty) => Ok((ty, ax_ty)),
                    None => Err(
                        concat(&["struct `", name.as_str(), "` is outside the LLVM AOT v0 layout subset"]),
                    ),
                }
            },
            Expr::ArrayLiteral { elements } => {
                if elements.len() == 0 {
                    return Err(
                        owned(
                            "empty array literals need explicit native array type propagation before LLVM AOT can lower them",
                        ),
                    );
                }
                let (element_ty, element_ax_ty) = self.infer_expr_value_type(&elements[0], depth - 1)?;
                let mut k: usize = 1;
                while k < elements.len()
                    invariant
                        1 <= k <= elements@.len(),
                        depth > 0,
                        *expr is ArrayLiteral,
                    decreases elements@.len() - k,
                {
                    let (next_ty, _) = self.infer_expr_value_type(&elements[k], depth - 1)?;
                    ensure_same_type(element_ty.as_str(), next_ty.as_str())?;
                    k += 1;
                }
                let ax_ty = Type::Array { element: Box::new(element_ax_ty), length: elements.len() };
                match llvm_type(&ax_ty, self.layouts, self.enum_layouts) {
                    Some(ty) => Ok((ty, ax_ty)),
                    None => {
                        let shown = ax_type_name(&ax_ty);
                        Err(concat(&["array type ", shown.as_str(), " is outside LLVM AOT v0"]))
                    },
                }
            },
            Expr::Block { value: result, .. } => self.infer_expr_value_type(result, depth - 1),
            Expr::Match { arms, .. } => {
                if arms.len() == 0 {
                    return Err(owned("match expression has no arms in LLVM AOT v0"));
                }
                let (ty, ax_ty) = self.infer_expr_value_type(&arms[0].value, depth - 1)?;
                let mut k: usize = 1;
                while k < arms.len()
                    invariant
                        1 <= k <= arms@.len(),
                        depth > 0,
                        *expr is Match,
                    decreases arms@.len() - k,
                {
                    let (arm_ty, _) = self.infer_expr_value_type(&arms[k].value, depth - 1)?;
                    ensure_same_type(ty.as_str(), arm_ty.as_str())?;
                    k += 1;
                }
                Ok((ty, ax_ty))
            },
            Expr::EnumVariant { enum_name, .. } => {
                let ax_ty = Type::Enum { name: enum_name.clone() };
                match llvm_type(&ax_ty, self.layouts, self.enum_layouts) {
                    Some(ty) => Ok((ty, ax_ty)),
                    None => Err(
                        concat(&["enum `", enum_name.as_str(), "` is outside the LLVM AOT v0 layout subset"]),
                    ),
                }
            },
            Expr::EnumPayload { value: inner } => self.infer_enum_payload_type(inner, depth - 1),
            Expr::Field { base, field } => {
                let (_, base_ax_ty) = self.infer_expr_value_type(base, depth - 1)?;
                let layout = self.struct_layout_for_type(&base_ax_ty)?;
                match find_field(layout, field.as_str()) {
                    Some(f) => Ok((f.ty.clone(), clone_type(&f.ax_ty))),
                    None => Err(
                        concat(
                            &[
                                "internal LLVM AOT error: struct `",
                                layout.name.as_str(),
                                "` has no field `",
                                field.as_str(),
                                "`",
                            ],
                        ),
                    ),
                }
            },
            Expr::Index { base, .. } => {
                let (_, base_ax_ty) = self.infer_expr_value_type(base, depth - 1)?;
                match &base_ax_ty {
                    Type::Slice { element } => match llvm_type(element, self.layouts, self.enum_layouts) {
                        Some(element_ty) => Ok((element_ty, clone_type(element))),
                        None => {
                            let shown = ax_type_name(element);
                            Err(concat(&["slice element type ", shown.as_str(), " is outside LLVM AOT v0"]))
                        },
                    },
                    _ => {
                        let (_, element_ty, _, element_ax_ty) = array_type_parts(
                            &base_ax_ty,
                            self.layouts,
                            self.enum_layouts,
                        )?;
                        Ok((element_ty, element_ax_ty))
                    },
                }
            },
            Expr::Const { name } => {
                let binding = match self.consts.get(name.as_str()) {
                    Some(binding) => *binding,
                    None => return Err(
                        concat(&["const `", name.as_str(), "` was not found for LLVM AOT lowering"]),
                    ),
                };
                match llvm_type(binding.ty, self.layouts, self.enum_layouts) {
                    Some(ty) => Ok((ty, clone_type(binding.ty))),
                    None => {
                        let shown = ax_type_name(binding.ty);
                        Err(
                            concat(
                                &["const `", name.as_str(), "` type ", shown.as_str(), " is outside LLVM AOT v0"],
                            ),
                        )
                    },
                }
            },
            Expr::Try { expr: inner } => {
                let (_, result_ax_ty) = self.infer_expr_value_type(inner, depth - 1)?;
                let (success_ax_ty, _) = self.result_success_error_types(&result_ax_ty)?;
                match llvm_type(&success_ax_ty, self.layouts, self.enum_layouts) {
                    Some(success_ty) => Ok((success_ty, success_ax_ty)),
                    None => {
                        let shown = ax_type_name(&success_ax_ty);
                        Err(concat(&["`?` success type ", shown.as_str(), " is outside LLVM AOT v0"]))
                    },
                }
            },
            Expr::Slice { base, .. } => {
                let (_, base_ax_ty) = self.infer_expr_value_type(base, depth - 1)?;
                let element = match &base_ax_ty {
                    Type::Array { element, .. } => clone_type(element),
                    Type::Slice { element } => clone_type(element),
                    other => {
                        let shown = ax_type_name(other);
                        return Err(
                            concat(&["slice expression base type ", shown.as_str(), " is outside LLVM AOT v0"]),
                        );
                    },
                };
                let ax_ty = Type::Slice { element: Box::new(element) };
                match llvm_type(&ax_ty, self.layouts, self.enum_layouts) {
                    Some(ty) => Ok((ty, ax_ty)),
                    None => {
                        let shown = ax_type_name(&ax_ty);
                        Err(concat(&["slice type ", shown.as_str(), " is outside LLVM AOT v0"]))
                    },
                }
            },
        }
    }

    fn infer_call_value_type(&self, function: &str, arguments: &Vec<Expr>, depth: u32) -> (r: Result<
        ValueType,
        String,
    >)
        ensures
            depth == 0 ==> r is Err,
            depth > 0 && function@ == "println"@ ==> r is Err,
            depth > 0 ==> (builtin_value_type(function@) matches Some((ty, ax_ty)) ==> (r matches Ok(
                (t, a),
            ) && t@ == ty && a == ax_ty)),
            depth > 1 && user_call(function@) ==> (self.signatures.spec_get(function@) matches Some(sig) ==> (
            sig.params@.len() == arguments@.len() ==> (r matches Ok((t, a)) && t@ == sig.return_type@ && same_type(
                a,
                sig.return_ax_type,
            )))),
        decreases depth,
    {
        proof {
            reveal_strlit("println");
            reveal_strlit("string_len");
            reveal_strlit("len");
            reveal_strlit("fs_file_size");
            reveal_strlit("fs_copy_file");
            reveal_strlit("env_has");
            reveal_strlit("fs_exists");
            reveal_strlit("fs_is_file");
            reveal_strlit("fs_is_dir");
            reveal_strlit("string_contains");
            reveal_strlit("string_starts_with");
            reveal_strlit("string_ends_with");
            reveal_strlit("env_get");
            reveal_strlit("fs_read_to_string");
            reveal_strlit("string_replace");
            reveal_strlit("string_trim");
            reveal_strlit("string_list_get");
            reveal_strlit("string_list_join");
            reveal_strlit("to_string");
            reveal_strlit("string_list_new");
            reveal_strlit("string_list_push");
            assert("println"@.len() == 7);
            assert("string_len"@.len() == 10);
            assert("len"@.len() == 3);
            assert("fs_file_size"@.len() == 12);
            assert("fs_copy_file"@.len() == 12);
            assert("env_has"@.len() == 7);
            assert("fs_exists"@.len() == 9);
            assert("fs_is_file"@.len() == 10);
            assert("fs_is_dir"@.len() == 9);
            assert("string_contains"@.len() == 15);
            assert("string_starts_with"@.len() == 18);
            assert("string_ends_with"@.len() == 16);
            assert("env_get"@.len() == 7);
            assert("fs_read_to_string"@.len() == 17);
            assert("string_replace"@.len() == 14);
            assert("string_trim"@.len() == 11);
            assert("string_list_get"@.len() == 15);
            assert("string_list_join"@.len() == 16);
            assert("to_string"@.len() == 9);
            assert("string_list_new"@.len() == 15);
            assert("string_list_push"@.len() == 16);
            reveal_strlit("fs_read_dir");
            reveal_strlit("string_split_lines");
            assert("fs_read_dir"@.len() == 11);
            assert("string_split_lines"@.len() == 18);
            assert("println"@[0] != "env_has"@[0]);
            assert("println"@[0] != "env_get"@[0]);
            assert("fs_read_dir"@[0] != "string_trim"@[0]);
            assert("string_split_lines"@[8] != "string_starts_with"@[8]);
            assert("string_list_new"@[7] != "string_contains"@[7]);
            assert("string_list_new"@[12] != "string_list_get"@[12]);
            assert("string_list_push"@[12] != "string_list_join"@[12]);
            assert("string_list_push"@[7] != "string_ends_with"@[7]);
        }
        if depth == 0 {
            return Err(too_deep());
        }
        if str_eq(function, "println") {
            return Err(owned("println returns <void>, which cannot be a match value"));
        }
        if str_eq(function, "string_len") || str_eq(function, "len") {
            return Ok((owned("i32"), Type::I32));
        }
        if str_eq(function, "env_has") {
            assert("env_has"@ != "string_len"@);
            assert("env_has"@ != "len"@);

            assert("env_has"@ != "fs_copy_file"@);
            assert(builtin_value_type("env_has"@) == Some(("i1"@, Type::Bool)));
            return Ok((owned("i1"), Type::Bool));
        }
        if str_eq(function, "env_get") {
            return Ok((owned("ptr"), Type::String));
        }
        if str_eq(function, "fs_exists") || str_eq(function, "fs_is_file") || str_eq(function, "fs_is_dir") {
            return Ok((owned("i1"), Type::Bool));
        }
        if str_eq(function, "fs_file_size") {
            return Ok((owned("i32"), Type::I32));
        }
        if str_eq(function, "fs_read_to_string") {
            return Ok((owned("ptr"), Type::String));
        }
        if str_eq(function, "fs_read_dir") {
            let ax_ty = Type::Slice { element: Box::new(Type::String) };
            return match llvm_type(&ax_ty, self.layouts, self.enum_layouts) {
                Some(ty) => Ok((ty, ax_ty)),
                None => Err(owned("fs_read_dir return slice is outside LLVM AOT v0")),
            };
        }
        if str_eq(function, "fs_copy_file") {
            return Ok((owned("i32"), Type::I32));
        }
        if str_eq(function, "string_contains") || str_eq(function, "string_starts_with") || str_eq(
            function,
            "string_ends_with",
        ) {
            return Ok((owned("i1"), Type::Bool));
        }
        if str_eq(function, "string_replace") {
            return Ok((owned("ptr"), Type::String));
        }
        if str_eq(function, "string_split_lines") {
            let ax_ty = Type::Slice { element: Box::new(Type::String) };
            return match llvm_type(&ax_ty, self.layouts, self.enum_layouts) {
                Some(ty) => Ok((ty, ax_ty)),
                None => Err(owned("string_split_lines return slice is outside LLVM AOT v0")),
            };
        }
        if str_eq(function, "string_trim") {
            return Ok((owned("ptr"), Type::String));
        }
        if str_eq(function, "string_list_new") || str_eq(function, "string_list_push") {
            return Ok((owned("ptr"), Type::StringList));
        }
        if str_eq(function, "string_list_get") || str_eq(function, "string_list_join") {
            return Ok((owned("ptr"), Type::String));
        }
        if str_eq(function, "to_string") {
            return Ok((owned("ptr"), Type::String));
        }
        let (name, signature) = self.resolve_call_signature(function, arguments, None, depth - 1)?;
        if signature.params.len() != arguments.len() {
            let got = usize_to_decimal(arguments.len());
            let expected = usize_to_decimal(signature.params.len());
            return Err(
                concat(
                    &[
                        "call to `",
                        name.as_str(),
                        "` has ",
                        got.as_str(),
                        " argument(s), but LLVM AOT expected ",
                        expected.as_str(),
                    ],
                ),
            );
        }
        Ok((signature.return_type.clone(), clone_type(&signature.return_ax_type)))
    }

    fn infer_enum_payload_type(&self, inner: &Expr, depth: u32) -> (r: Result<ValueType, String>)
        ensures
            depth == 0 ==> r is Err,
            depth > 1 && (*inner is Int || *inner is Bool || *inner is String || *inner is Float
                || *inner is MatchTest) ==> r is Err,
            r matches Ok((t, a)) ==> llvm_type_of(a, *self.layouts, *self.enum_layouts) == Some(t@),
        decreases depth,
    {
        if depth == 0 {
            return Err(too_deep());
        }
        let (_, value_ax_ty) = self.infer_expr_value_type(inner, depth - 1)?;
        match &value_ax_ty {
            Type::Enum { .. } | Type::EnumInstance { .. } => {},
            _ => return Err(owned("enum payload extraction requires an enum value in LLVM AOT v0")),
        }
        let enum_name = enum_base_name(&value_ax_ty);
        let layout = self.enum_layout_for_type(&value_ax_ty)?;
        let payload_ax_ty = single_payload_type(layout, enum_name)?;
        match llvm_type(&payload_ax_ty, self.layouts, self.enum_layouts) {
            Some(payload_ty) => Ok((payload_ty, payload_ax_ty)),
            None => {
                let shown = ax_type_name(&payload_ax_ty);
                Err(
                    concat(
                        &["enum `", enum_name, "` payload type ", shown.as_str(), " is outside LLVM AOT v0"],
                    ),
                )
            },
        }
    }

    /// The success and error payload types of a concrete `Result<T, E>` instance.
    pub fn result_success_error_types(&self, ty: &Type) -> (r: Result<(Type, Type), String>)
        ensures
            r is Ok <==> ty is EnumInstance && (self.enum_layouts.spec_get(ax_name_of(*ty)) matches Some(
                layout,
            ) && (exists|i: int|
                is_first_variant(layout.variants@, "Ok"@, i) && layout.variants@[i].payload_ax_ty is Some)
                && (exists|i: int|
                is_first_variant(layout.variants@, "Err"@, i) && layout.variants@[i].payload_ax_ty is Some)),
            r matches Ok((ok, err)) ==> (self.enum_layouts.spec_get(ax_name_of(*ty)) matches Some(layout)
                && (exists|i: int|
                is_first_variant(layout.variants@, "Ok"@, i) && (
                layout.variants@[i].payload_ax_ty matches Some(p) && same_type(ok, p))) && (exists|i: int|
                is_first_variant(layout.variants@, "Err"@, i) && (
                layout.variants@[i].payload_ax_ty matches Some(p) && same_type(err, p)))),
    {
        match ty {
            Type::EnumInstance { .. } => {},
            _ => {
                let shown = ax_type_name(ty);
                return Err(
                    concat(
                        &[
                            "`?` result propagation requires a concrete Result<T, E> enum instance, found ",
                            shown.as_str(),
                        ],
                    ),
                );
            },
        }
        let layout = self.enum_layout_for_type(ty)?;
        let ok = enum_variant_payload_type(layout, "Ok")?;
        let err = enum_variant_payload_type(layout, "Err")?;
        Ok((ok, err))
    }

    /// The slot a place denotes, computing field and element pointers.
    pub fn emit_place_ptr(&mut self, place: &Place, out: &mut String, depth: u32) -> (r: Result<LocalSlot, String>)
        ensures
            appends(old(out)@, final(out)@),
            steps_forward(*old(self), *final(self)),
            depth == 0 ==> r is Err,
            depth > 0 ==> (*place matches Place::Local { local, .. } ==> (r is Ok <==> old(
                self,
            ).locals.view_map().contains_key(local)) && (r matches Ok(slot) ==> slot.ptr@ == old(
                self,
            ).locals.view_map()[local].ptr@ && slot.ty@ == old(self).locals.view_map()[local].ty@ && same_type(
                slot.ax_ty,
                old(self).locals.view_map()[local].ax_ty,
            )) && final(out)@ == old(out)@ && *final(self) == *old(self)),
            !(*place is Local) ==> (r matches Ok(slot) ==> final(self).temp_index > old(self).temp_index
                && slot.ptr@ == temp_name((final(self).temp_index - 1) as nat)),
        decreases depth,
    {
        if depth == 0 {
            return Err(too_deep());
        }
        match place {
            Place::Local { local, .. } => self.local_slot(*local),
            Place::Field { base, field } => {
                let base_slot = self.emit_place_ptr(base, out, depth - 1)?;
                let layout = self.struct_layout_for_type(&base_slot.ax_ty)?.clone();
                ensure_same_type(layout.ty.as_str(), base_slot.ty.as_str())?;
                let field_layout = match find_field(&layout, field.as_str()) {
                    Some(f) => f.clone(),
                    None => return Err(
                        concat(
                            &[
                                "internal LLVM AOT error: struct `",
                                layout.name.as_str(),
                                "` has no field `",
                                field.as_str(),
                                "`",
                            ],
                        ),
                    ),
                };
                let ghost k = self.temp_index;
                let field_ptr = self.next_temp()?;
                assert(field_ptr@ == temp_name(k as nat));
                let index = usize_to_decimal(field_layout.index);
                put_line(
                    out,
                    &[
                        "  ",
                        field_ptr.as_str(),
                        " = getelementptr ",
                        layout.ty.as_str(),
                        ", ptr ",
                        base_slot.ptr.as_str(),
                        ", i32 0, i32 ",
                        index.as_str(),
                    ],
                );
                Ok(LocalSlot { ptr: field_ptr, ty: field_layout.ty, ax_ty: field_layout.ax_ty })
            },
            Place::Index { base, index } => {
                let base_slot = self.emit_place_ptr(base, out, depth - 1)?;
                match &base_slot.ax_ty {
                    Type::Slice { element } => {
                        let slice_ty = slice_llvm_type();
                        ensure_same_type(slice_ty.as_str(), base_slot.ty.as_str())?;
                        let idx = self.emit_expr(index, out, depth - 1)?;
                        ensure_same_type("i32", idx.ty.as_str())?;
                        let slice_value = self.next_temp()?;
                        put_line(
                            out,
                            &["  ", slice_value.as_str(), " = load ", base_slot.ty.as_str(), ", ptr ", base_slot.ptr.as_str()],
                        );
                        let data_ptr = self.next_temp()?;
                        put_line(
                            out,
                            &["  ", data_ptr.as_str(), " = extractvalue ", base_slot.ty.as_str(), " ", slice_value.as_str(), ", 0"],
                        );
                        let len = self.next_temp()?;
                        put_line(
                            out,
                            &["  ", len.as_str(), " = extractvalue ", base_slot.ty.as_str(), " ", slice_value.as_str(), ", 1"],
                        );
                        self.emit_dynamic_bounds_check(idx.repr.as_str(), len.as_str(), out)?;
                        let element_ty = match llvm_type(element, self.layouts, self.enum_layouts) {
                            Some(t) => t,
                            None => {
                                let shown = ax_type_name(element);
                                return Err(
                                    concat(&["slice element type ", shown.as_str(), " is outside LLVM AOT v0"]),
                                );
                            },
                        };
                        let ghost k = self.temp_index;
                        let element_ptr = self.next_temp()?;
                        assert(element_ptr@ == temp_name(k as nat));
                        put_line(
                            out,
                            &[
                                "  ",
                                element_ptr.as_str(),
                                " = getelementptr ",
                                element_ty.as_str(),
                                ", ptr ",
                                data_ptr.as_str(),
                                ", i32 ",
                                idx.repr.as_str(),
                            ],
                        );
                        return Ok(LocalSlot { ptr: element_ptr, ty: element_ty, ax_ty: clone_type(element) });
                    },
                    _ => {},
                }
                let (array_ty, element_ty, length, element_ax_ty) = array_type_parts(
                    &base_slot.ax_ty,
                    self.layouts,
                    self.enum_layouts,
                )?;
                ensure_same_type(array_ty.as_str(), base_slot.ty.as_str())?;
                let idx = self.emit_expr(index, out, depth - 1)?;
                ensure_same_type("i32", idx.ty.as_str())?;
                self.emit_fixed_bounds_check(idx.repr.as_str(), length, out)?;
                let ghost k = self.temp_index;
                let element_ptr = self.next_temp()?;
                assert(element_ptr@ == temp_name(k as nat));
                put_line(
                    out,
                    &[
                        "  ",
                        element_ptr.as_str(),
                        " = getelementptr ",
                        array_ty.as_str(),
                        ", ptr ",
                        base_slot.ptr.as_str(),
                        ", i32 0, i32 ",
                        idx.repr.as_str(),
                    ],
                );
                Ok(LocalSlot { ptr: element_ptr, ty: element_ty, ax_ty: element_ax_ty })
            },
        }
    }

    /// The layout of the non-generic struct `name`.
    pub fn struct_layout_by_name(&self, name: &str) -> (r: Result<&'a StructLayout, String>)
        ensures
            r is Ok <==> self.layouts.spec_get(name@) is Some,
            r matches Ok(l) ==> self.layouts.spec_get(name@) == Some(*l),
    {
        match self.layouts.get(name) {
            Some(layout) => Ok(layout),
            None => Err(concat(&["struct `", name, "` is outside the LLVM AOT v0 layout subset"])),
        }
    }

    /// The layout of a struct type or struct instance type.
    pub fn struct_layout_for_type(&self, ty: &Type) -> (r: Result<&'a StructLayout, String>)
        ensures
            ty matches Type::Struct { name } ==> (r is Ok <==> self.layouts.spec_get(name@) is Some)
                && (r matches Ok(l) ==> self.layouts.spec_get(name@) == Some(*l)),
            ty is StructInstance ==> (r is Ok <==> self.layouts.spec_get(ax_name_of(*ty)) is Some)
                && (r matches Ok(l) ==> self.layouts.spec_get(ax_name_of(*ty)) == Some(*l)),
            !(ty is Struct || ty is StructInstance) ==> r is Err,
    {
        match ty {
            Type::Struct { name } => self.struct_layout_by_name(name.as_str()),
            Type::StructInstance { .. } => {
                let key = struct_layout_key(ty);
                match self.layouts.get(key.as_str()) {
                    Some(layout) => Ok(layout),
                    None => {
                        let shown = ax_type_name(ty);
                        Err(
                            concat(
                                &[
                                    "generic struct instance `",
                                    shown.as_str(),
                                    "` needs monomorphized native layout before LLVM AOT can lower it",
                                ],
                            ),
                        )
                    },
                }
            },
            _ => {
                let shown = ax_type_name(ty);
                Err(concat(&["field access base type ", shown.as_str(), " is not a struct in LLVM AOT v0"]))
            },
        }
    }

    /// The layout a struct literal named `name` builds, using the expected
    /// type when it names the same struct.
    pub fn struct_literal_layout(&self, name: &str, expected_ax_ty: Option<&Type>) -> (r: Result<
        &'a StructLayout,
        String,
    >)
        ensures
            (match expected_ax_ty {
                Some(Type::Struct { name: n }) => n@ == name@,
                Some(Type::StructInstance { name: n, .. }) => n@ == name@,
                _ => false,
            }) ==> (r is Ok <==> self.layouts.spec_get(ax_name_of(*expected_ax_ty->Some_0)) is Some)
                && (r matches Ok(l) ==> self.layouts.spec_get(ax_name_of(*expected_ax_ty->Some_0))
                == Some(*l)),
            !(match expected_ax_ty {
                Some(Type::Struct { name: n }) => n@ == name@,
                Some(Type::StructInstance { name: n, .. }) => n@ == name@,
                _ => false,
            }) ==> (r is Ok <==> self.layouts.spec_get(name@) is Some) && (r matches Ok(l)
                ==> self.layouts.spec_get(name@) == Some(*l)),
    {
        match expected_ax_ty {
            Some(expected) => match expected {
                Type::Struct { name: expected_name } | Type::StructInstance { name: expected_name, .. } => {
                    if str_eq(expected_name.as_str(), name) {
                        return self.struct_layout_for_type(expected);
                    }
                },
                _ => {},
            },
            None => {},
        }
        self.struct_layout_by_name(name)
    }

    /// The layout of an enum type or enum instance type.
    pub fn enum_layout_for_type(&self, ty: &Type) -> (r: Result<&'a EnumLayout, String>)
        ensures
            r is Ok <==> self.enum_layouts.spec_get(ax_name_of(*ty)) is Some,
            r matches Ok(l) ==> self.enum_layouts.spec_get(ax_name_of(*ty)) == Some(*l),
    {
        let key = enum_layout_key(ty);
        match self.enum_layouts.get(key.as_str()) {
            Some(layout) => Ok(layout),
            None => {
                let shown = ax_type_name(ty);
                Err(concat(&["enum `", shown.as_str(), "` is outside the LLVM AOT v0 layout subset"]))
            },
        }
    }

    /// The layout of the enum type of a value.
    pub fn enum_layout_for_value(&self, v: &LlvmValue) -> (r: Result<&'a EnumLayout, String>)
        ensures
            r is Ok <==> (v.ax_ty matches Some(t) && (t is Enum || t is EnumInstance)
                && self.enum_layouts.spec_get(ax_name_of(t)) is Some),
            r matches Ok(l) ==> (v.ax_ty matches Some(t) && self.enum_layouts.spec_get(ax_name_of(t))
                == Some(*l)),
    {
        match &v.ax_ty {
            Some(t) => match t {
                Type::Enum { .. } | Type::EnumInstance { .. } => self.enum_layout_for_type(t),
                _ => Err(owned("enum operation requires an enum value in LLVM AOT v0")),
            },
            None => Err(owned("enum operation requires an enum value in LLVM AOT v0")),
        }
    }

    /// The layout an enum constructor builds: that of the expected type when
    /// one is given, else the only layout of that enum.
    pub fn enum_layout_for_constructor(&self, enum_name: &str, expected_ax_ty: Option<&Type>) -> (r:
        Result<&'a EnumLayout, String>)
        ensures
            (expected_ax_ty matches Some(e) && (*e is Enum || *e is EnumInstance)) ==> (r is Ok <==> (
            enum_name_of(*expected_ax_ty->Some_0) == enum_name@ && self.enum_layouts.spec_get(
                ax_name_of(*expected_ax_ty->Some_0),
            ) is Some)) && (r matches Ok(l) ==> self.enum_layouts.spec_get(
                ax_name_of(*expected_ax_ty->Some_0),
            ) == Some(*l)),
            !(expected_ax_ty matches Some(e) && (*e is Enum || *e is EnumInstance)) ==> (r matches Ok(l)
                ==> l.name@ == enum_name@ && exists|i: int|
                0 <= i < self.enum_layouts.entries().len() && self.enum_layouts.entries()[i].1 == *l
                    && forall|j: int|
                    0 <= j < self.enum_layouts.entries().len() && j != i ==> (
                    #[trigger] self.enum_layouts.entries()[j]).1.name@ != enum_name@),
    {
        match expected_ax_ty {
            Some(expected) => match expected {
                Type::Enum { .. } | Type::EnumInstance { .. } => {
                    if !str_eq(enum_base_name(expected), enum_name) {
                        let shown = ax_type_name(expected);
                        return Err(
                            concat(
                                &[
                                    "enum constructor `",
                                    enum_name,
                                    "` does not match expected type ",
                                    shown.as_str(),
                                    " in LLVM AOT v0",
                                ],
                            ),
                        );
                    }
                    return self.enum_layout_for_type(expected);
                },
                _ => {},
            },
            None => {},
        }
        let ghost entries = self.enum_layouts.entries();
        let ghost mut at: int = -1;
        let mut found: Option<&'a EnumLayout> = None;
        let mut i: usize = 0;
        while i < self.enum_layouts.len()
            invariant
                i <= entries.len(),
                entries == self.enum_layouts.entries(),
                !(expected_ax_ty matches Some(e) && (*e is Enum || *e is EnumInstance)),
                found is None <==> at == -1,
                at == -1 ==> forall|j: int| 0 <= j < i ==> (#[trigger] entries[j]).1.name@ != enum_name@,
                at != -1 ==> 0 <= at < i && (found matches Some(f) && entries[at].1 == *f) && entries[at].1.name@
                    == enum_name@ && forall|j: int|
                    0 <= j < i && j != at ==> (#[trigger] entries[j]).1.name@ != enum_name@,
            decreases entries.len() - i,
        {
            let (_, layout) = self.enum_layouts.entry_at(i);
            if str_eq(layout.name.as_str(), enum_name) {
                if found.is_some() {
                    return Err(
                        concat(
                            &[
                                "generic enum constructor `",
                                enum_name,
                                "` needs an expected concrete enum type before LLVM AOT can lower it",
                            ],
                        ),
                    );
                }
                found = Some(layout);
                proof {
                    at = i as int;
                }
            }
            i += 1;
        }
        match found {
            Some(layout) => Ok(layout),
            None => Err(concat(&["enum `", enum_name, "` is outside the LLVM AOT v0 layout subset"])),
        }
    }

    /// The AX type of the values of an enum layout: the expected type when it
    /// is an enum, else the type of the layout.
    pub fn enum_value_type_for_layout(&self, layout: &EnumLayout, expected_ax_ty: Option<&Type>) -> (r:
        Result<Type, String>)
        ensures
            (expected_ax_ty matches Some(e) && (*e is Enum || *e is EnumInstance)) ==> (r matches Ok(t)
                && same_type(t, *expected_ax_ty->Some_0)),
            !(expected_ax_ty matches Some(e) && (*e is Enum || *e is EnumInstance)) ==> (r matches Ok(t)
                ==> exists|i: int|
                0 <= i < self.enum_layouts.entries().len() && self.enum_layouts.entries()[i].1.ty@
                    == layout.ty@ && self.enum_layouts.entries()[i].1.name@ == layout.name@ && same_type(
                    t,
                    self.enum_layouts.entries()[i].1.ax_ty,
                )),
    {
        match expected_ax_ty {
            Some(expected) => match expected {
                Type::Enum { .. } | Type::EnumInstance { .. } => return Ok(clone_type(expected)),
                _ => {},
            },
            None => {},
        }
        let mut i: usize = 0;
        while i < self.enum_layouts.len()
            invariant
                i <= self.enum_layouts.entries().len(),
                !(expected_ax_ty matches Some(e) && (*e is Enum || *e is EnumInstance)),
            decreases self.enum_layouts.entries().len() - i,
        {
            let (_, candidate) = self.enum_layouts.entry_at(i);
            if str_eq(candidate.ty.as_str(), layout.ty.as_str()) && str_eq(
                candidate.name.as_str(),
                layout.name.as_str(),
            ) {
                return Ok(clone_type(&candidate.ax_ty));
            }
            i += 1;
        }
        Err(
            concat(
                &[
                    "internal LLVM AOT error: missing enum value type for layout `",
                    layout.ty.as_str(),
                    "`",
                ],
            ),
        )
    }

    /// The symbol of the string literal global holding `text`.
    pub fn string_literal_symbol(&self, text: &str) -> (r: Result<String, String>)
        ensures
            r is Ok <==> self.strings.spec_get(text@) is Some,
            r matches Ok(symbol) ==> (self.strings.spec_get(text@) matches Some(literal) && symbol@
                == literal.symbol@),
    {
        match self.strings.get(text) {
            Some(literal) => Ok(literal.symbol.clone()),
            None => Err(
                concat(&["internal LLVM AOT error: missing generated string literal `", text, "`"]),
            ),
        }
    }
}

/// The field named `name` of a struct layout.
pub fn find_field<'b>(layout: &'b StructLayout, name: &str) -> (r: Option<&'b super::model::StructFieldLayout>)
    ensures
        r matches Some(f) ==> f.name@ == name@ && exists|i: int|
            is_first_field(layout.fields@, name@, i) && layout.fields@[i] == *f,
        r is None <==> !has_field(layout.fields@, name@),
{
    let mut i: usize = 0;
    while i < layout.fields.len()
        invariant
            i <= layout.fields@.len(),
            forall|j: int| 0 <= j < i ==> layout.fields@[j].name@ != name@,
        decreases layout.fields@.len() - i,
    {
        if str_eq(layout.fields[i].name.as_str(), name) {
            assert(is_first_field(layout.fields@, name@, i as int));
            return Some(&layout.fields[i]);
        }
        i += 1;
    }
    None
}

/// The variant named `name` of an enum layout.
pub fn find_variant<'b>(layout: &'b EnumLayout, name: &str) -> (r: Option<&'b super::model::EnumVariantLayout>)
    ensures
        r matches Some(v) ==> v.name@ == name@ && exists|i: int|
            is_first_variant(layout.variants@, name@, i) && layout.variants@[i] == *v,
        r is None <==> !has_variant(layout.variants@, name@),
{
    let mut i: usize = 0;
    while i < layout.variants.len()
        invariant
            i <= layout.variants@.len(),
            forall|j: int| 0 <= j < i ==> layout.variants@[j].name@ != name@,
        decreases layout.variants@.len() - i,
    {
        if str_eq(layout.variants[i].name.as_str(), name) {
            assert(is_first_variant(layout.variants@, name@, i as int));
            return Some(&layout.variants[i]);
        }
        i += 1;
    }
    None
}

/// The payload type of the variant `variant` that `?` lowering needs.
pub fn enum_variant_payload_type(layout: &EnumLayout, variant: &str) -> (r: Result<Type, String>)
    ensures
        r is Ok <==> exists|i: int|
            is_first_variant(layout.variants@, variant@, i) && layout.variants@[i].payload_ax_ty is Some,
        r matches Ok(t) ==> exists|i: int|
            is_first_variant(layout.variants@, variant@, i) && (
            layout.variants@[i].payload_ax_ty matches Some(p) && same_type(t, p)),
{
    match find_variant(layout, variant) {
        Some(v) => match &v.payload_ax_ty {
            Some(t) => return Ok(clone_type(t)),
            None => {},
        },
        None => {},
    }
    Err(
        concat(
            &[
                "enum `",
                layout.name.as_str(),
                "` must have payload variant `",
                variant,
                "` for `?` lowering in LLVM AOT v0",
            ],
        ),
    )
}

/// The tag of the variant `variant` that `?` lowering needs.
pub fn enum_variant_tag(layout: &EnumLayout, variant: &str) -> (r: Result<i32, String>)
    ensures
        r is Ok <==> has_variant(layout.variants@, variant@),
        r matches Ok(t) ==> exists|i: int|
            is_first_variant(layout.variants@, variant@, i) && layout.variants@[i].tag == t,
{
    match find_variant(layout, variant) {
        Some(v) => Ok(v.tag),
        None => Err(
            concat(
                &[
                    "enum `",
                    layout.name.as_str(),
                    "` must have variant `",
                    variant,
                    "` for `?` lowering in LLVM AOT v0",
                ],
            ),
        ),
    }
}

/// Variant `k` is the first variant of `variants` that carries a payload.
pub open spec fn is_first_payload(variants: Seq<EnumVariantLayout>, k: int) -> bool {
    &&& 0 <= k < variants.len()
    &&& variants[k].payload_ax_ty is Some
    &&& forall|j: int| 0 <= j < k ==> (#[trigger] variants[j]).payload_ax_ty is None
}

/// Every payload after variant `k` has the type of variant `k`'s payload.
pub open spec fn payloads_agree_from(variants: Seq<EnumVariantLayout>, k: int) -> bool {
    forall|j: int|
        k < j < variants.len() && (#[trigger] variants[j]).payload_ax_ty is Some ==> same_type(
            variants[k].payload_ax_ty->Some_0,
            variants[j].payload_ax_ty->Some_0,
        )
}

/// The payload type shared by every payload variant of an enum; an error
/// when there is none or when they differ.
pub fn single_payload_type(layout: &EnumLayout, enum_name: &str) -> (r: Result<Type, String>)
    ensures
        r is Ok <==> exists|k: int|
            is_first_payload(layout.variants@, k) && payloads_agree_from(layout.variants@, k),
        r matches Ok(t) ==> exists|k: int|
            is_first_payload(layout.variants@, k) && same_type(
                t,
                layout.variants@[k].payload_ax_ty->Some_0,
            ),
{
    let ghost vs = layout.variants@;
    let ghost mut k: int = -1;
    let mut first: Option<&Type> = None;
    let mut i: usize = 0;
    while i < layout.variants.len()
        invariant
            i <= vs.len(),
            vs == layout.variants@,
            first is None <==> k == -1,
            k == -1 ==> forall|j: int| 0 <= j < i ==> (#[trigger] vs[j]).payload_ax_ty is None,
            k != -1 ==> is_first_payload(vs, k) && k < i && (first matches Some(f) && vs[k].payload_ax_ty
                == Some(*f)),
            k != -1 ==> forall|j: int|
                k < j < i && (#[trigger] vs[j]).payload_ax_ty is Some ==> same_type(
                    vs[k].payload_ax_ty->Some_0,
                    vs[j].payload_ax_ty->Some_0,
                ),
        decreases vs.len() - i,
    {
        match &layout.variants[i].payload_ax_ty {
            Some(payload) => match first {
                Some(f) => {
                    if !type_eq(f, payload) {
                        proof {
                            assert forall|m: int| is_first_payload(vs, m) implies !payloads_agree_from(vs, m) by {
                                assert(m == k);
                                assert(vs[i as int].payload_ax_ty is Some);
                            }
                        }
                        return Err(
                            concat(
                                &[
                                    "enum `",
                                    enum_name,
                                    "` payload extraction needs an expected type in LLVM AOT v0",
                                ],
                            ),
                        );
                    }
                },
                None => {
                    first = Some(payload);
                    proof {
                        k = i as int;
                    }
                },
            },
            None => {},
        }
        i += 1;
    }
    match first {
        Some(f) => {
            let t = clone_type(f);
            assert(is_first_payload(vs, k) && payloads_agree_from(vs, k));
            Ok(t)
        },
        None => {
            proof {
                assert forall|m: int| is_first_payload(vs, m) implies false by {
                    assert(vs[m].payload_ax_ty is None);
                }
            }
            Err(concat(&["enum `", enum_name, "` has no payload variant in LLVM AOT v0"]))
        },
    }
}

} // verus!
