//! Array literals, indexing, slices and the runtime bounds checks.
use vstd::prelude::*;
use crate::mir::{clone_type, Expr, Type};
use crate::text::{appends, concat, concat_all, decimal, owned, put_line, usize_to_decimal};
use super::super::model::LlvmValue;
use super::super::support::{
    alloc_layout, lemma_same_type_same_llvm_type, llvm_type_of, typed_as,
    array_type_parts, ax_type_name, ensure_same_type, llvm_alloc_size, llvm_type, slice_llvm_type,
};
use super::composite::label_name;
use super::{
    binary_line, guard_block, put_binary_line, put_guard_block, steps_forward, temp_name, too_deep, value, FunctionEmitter,
    EMIT_DEPTH,
};

verus! {

/// The copy that `base[start..end]` makes once its bounds are checked: the
/// address of the first element, the length `end - start`, its size in bytes,
/// a `malloc` of that size, a `memcpy` into it, and the new slice value.
#[verifier::opaque]
pub open spec fn slice_copy_text(
    element_ty: Seq<char>,
    base_ptr: Seq<char>,
    start: Seq<char>,
    end: Seq<char>,
    element_size: Seq<char>,
    x: Seq<Seq<char>>,
) -> Seq<char> {
    slice_copy_size(element_ty, base_ptr, start, end, element_size, x) + slice_copy_buffer(x)
}

/// First part of the copy: the start address, the length and its size in bytes.
#[verifier::opaque]
pub open spec fn slice_copy_size(
    element_ty: Seq<char>,
    base_ptr: Seq<char>,
    start: Seq<char>,
    end: Seq<char>,
    element_size: Seq<char>,
    x: Seq<Seq<char>>,
) -> Seq<char> {
    ("  "@ + x[0] + " = getelementptr "@ + element_ty + ", ptr "@ + base_ptr + ", i32 "@ + start + seq!['\n'])
        + ("  "@ + x[1] + " = sub i32 "@ + end + ", "@ + start + seq!['\n'])
        + ("  "@ + x[2] + " = sext i32 "@ + x[1] + " to i64"@ + seq!['\n'])
        + ("  "@ + x[3] + " = mul i64 "@ + x[2] + ", "@ + element_size + seq!['\n'])
}

/// Second part of the copy: the new buffer, the copy into it and the new slice value.
#[verifier::opaque]
pub open spec fn slice_copy_buffer(x: Seq<Seq<char>>) -> Seq<char> {
    ("  "@ + x[4] + " = call ptr @malloc(i64 "@ + x[3] + ")"@ + seq!['\n'])
        + ("  "@ + x[5] + " = call ptr @memcpy(ptr "@ + x[4] + ", ptr "@ + x[0] + ", i64 "@ + x[3] + ")"@
            + seq!['\n'])
        + ("  "@ + x[6] + " = insertvalue { ptr, i32 } undef, ptr "@ + x[4] + ", 0"@ + seq!['\n'])
        + ("  "@ + x[7] + " = insertvalue { ptr, i32 } "@ + x[6] + ", i32 "@ + x[1] + ", 1"@ + seq!['\n'])
}

#[verifier::rlimit(60)]
#[verifier::spinoff_prover]
fn put_slice_copy_size(
    out: &mut String,
    element_ty: &str,
    base_ptr: &str,
    start: &str,
    end: &str,
    element_size: &str,
    x: &[&str],
)
    requires
        x@.len() == 8,
    ensures
        final(out)@ == old(out)@ + slice_copy_size(
            element_ty@,
            base_ptr@,
            start@,
            end@,
            element_size@,
            Seq::new(8, |i: int| x@[i]@),
        ),
{
    let ghost xs = Seq::new(8, |i: int| x@[i]@);
    let ghost start_text = out@;
    let ghost b0 = out@;
    put_line(out, &["  ", x[0], " = getelementptr ", element_ty, ", ptr ", base_ptr, ", i32 ", start]);
    let ghost p0 = "  "@ + xs[0] + " = getelementptr "@ + element_ty@ + ", ptr "@ + base_ptr@ + ", i32 "@ + start@ + seq!['\n'];
    assert(out@ =~= b0 + p0) by {
        reveal_with_fuel(concat_all, 9);
    }
    assert(out@ =~= start_text + (p0));
    let ghost b1 = out@;
    put_line(out, &["  ", x[1], " = sub i32 ", end, ", ", start]);
    let ghost p1 = "  "@ + xs[1] + " = sub i32 "@ + end@ + ", "@ + start@ + seq!['\n'];
    assert(out@ =~= b1 + p1) by {
        reveal_with_fuel(concat_all, 7);
    }
    assert(out@ =~= start_text + (p0 + p1));
    let ghost b2 = out@;
    put_line(out, &["  ", x[2], " = sext i32 ", x[1], " to i64"]);
    let ghost p2 = "  "@ + xs[2] + " = sext i32 "@ + xs[1] + " to i64"@ + seq!['\n'];
    assert(out@ =~= b2 + p2) by {
        reveal_with_fuel(concat_all, 6);
    }
    assert(out@ =~= start_text + (p0 + p1 + p2));
    let ghost b3 = out@;
    put_line(out, &["  ", x[3], " = mul i64 ", x[2], ", ", element_size]);
    let ghost p3 = "  "@ + xs[3] + " = mul i64 "@ + xs[2] + ", "@ + element_size@ + seq!['\n'];
    assert(out@ =~= b3 + p3) by {
        reveal_with_fuel(concat_all, 7);
    }
    reveal(slice_copy_size);
    assert(out@ =~= start_text + (p0 + p1 + p2 + p3));
}

#[verifier::rlimit(60)]
#[verifier::spinoff_prover]
fn put_slice_copy_buffer(out: &mut String, x: &[&str])
    requires
        x@.len() == 8,
    ensures
        final(out)@ == old(out)@ + slice_copy_buffer(Seq::new(8, |i: int| x@[i]@)),
{
    let ghost xs = Seq::new(8, |i: int| x@[i]@);
    let ghost start_text = out@;
    let ghost b4 = out@;
    put_line(out, &["  ", x[4], " = call ptr @malloc(i64 ", x[3], ")"]);
    let ghost p4 = "  "@ + xs[4] + " = call ptr @malloc(i64 "@ + xs[3] + ")"@ + seq!['\n'];
    assert(out@ =~= b4 + p4) by {
        reveal_with_fuel(concat_all, 6);
    }
    assert(out@ =~= start_text + (p4));
    let ghost b5 = out@;
    put_line(out, &["  ", x[5], " = call ptr @memcpy(ptr ", x[4], ", ptr ", x[0], ", i64 ", x[3], ")"]);
    let ghost p5 = "  "@ + xs[5] + " = call ptr @memcpy(ptr "@ + xs[4] + ", ptr "@ + xs[0] + ", i64 "@ + xs[3] + ")"@
        + seq!['\n'];
    assert(out@ =~= b5 + p5) by {
        reveal_with_fuel(concat_all, 10);
    }
    assert(out@ =~= start_text + (p4 + p5));
    let ghost b6 = out@;
    put_line(out, &["  ", x[6], " = insertvalue { ptr, i32 } undef, ptr ", x[4], ", 0"]);
    let ghost p6 = "  "@ + xs[6] + " = insertvalue { ptr, i32 } undef, ptr "@ + xs[4] + ", 0"@ + seq!['\n'];
    assert(out@ =~= b6 + p6) by {
        reveal_with_fuel(concat_all, 6);
    }
    assert(out@ =~= start_text + (p4 + p5 + p6));
    let ghost b7 = out@;
    put_line(out, &["  ", x[7], " = insertvalue { ptr, i32 } ", x[6], ", i32 ", x[1], ", 1"]);
    let ghost p7 = "  "@ + xs[7] + " = insertvalue { ptr, i32 } "@ + xs[6] + ", i32 "@ + xs[1] + ", 1"@ + seq!['\n'];
    assert(out@ =~= b7 + p7) by {
        reveal_with_fuel(concat_all, 8);
    }
    reveal(slice_copy_buffer);
    assert(out@ =~= start_text + (p4 + p5 + p6 + p7));
}

fn put_slice_copy(
    out: &mut String,
    element_ty: &str,
    base_ptr: &str,
    start: &str,
    end: &str,
    element_size: &str,
    x: &[&str],
)
    requires
        x@.len() == 8,
    ensures
        final(out)@ == old(out)@ + slice_copy_text(
            element_ty@,
            base_ptr@,
            start@,
            end@,
            element_size@,
            Seq::new(8, |i: int| x@[i]@),
        ),
{
    put_slice_copy_size(out, element_ty, base_ptr, start, end, element_size, x);
    put_slice_copy_buffer(out, x);
    reveal(slice_copy_text);
    assert(out@ =~= old(out)@ + slice_copy_text(
        element_ty@,
        base_ptr@,
        start@,
        end@,
        element_size@,
        Seq::new(8, |i: int| x@[i]@),
    ));
}

/// The text `base[start..end]` leaves: whatever came before, the bound checks
/// and the copy, its temporaries numbered from `first`.
pub open spec fn slice_range_text(
    before: Seq<char>,
    start: Seq<char>,
    end: Seq<char>,
    length: Seq<char>,
    names: Seq<Seq<char>>,
    base_ptr: Seq<char>,
    element_ty: Seq<char>,
    element_size: usize,
    first: nat,
) -> Seq<char> {
    before + slice_range_checks_text(start, end, length, names) + slice_copy_text(
        element_ty,
        base_ptr,
        start,
        end,
        decimal(element_size as nat),
        Seq::new(8, |i: int| temp_name((first + i) as nat)),
    )
}

/// The check of a slice bound against `length`: `bound < 0`,
/// `bound > length`, either of them, and the guard that stops with the slice
/// bound error.
pub open spec fn slice_bound_check_text(
    bound: Seq<char>,
    length: Seq<char>,
    negative: Seq<char>,
    too_high: Seq<char>,
    outside: Seq<char>,
    fail_label: Seq<char>,
    ok_label: Seq<char>,
) -> Seq<char> {
    binary_line(negative, "icmp slt"@, "i32"@, bound, "0"@) + binary_line(too_high, "icmp sgt"@, "i32"@, bound, length)
        + binary_line(outside, "or"@, "i1"@, negative, too_high) + guard_block(
        outside,
        fail_label,
        ok_label,
        "@.ax_rt_slice_bound_oob"@,
    )
}

/// The check that a slice's start does not pass its end, and the guard that
/// stops with the slice order error.
pub open spec fn slice_order_check_text(
    start: Seq<char>,
    end: Seq<char>,
    invalid: Seq<char>,
    fail_label: Seq<char>,
    ok_label: Seq<char>,
) -> Seq<char> {
    binary_line(invalid, "icmp sgt"@, "i32"@, start, end) + guard_block(
        invalid,
        fail_label,
        ok_label,
        "@.ax_rt_slice_order_invalid"@,
    )
}

/// The checks of `base[start..end]`: both bounds against `length`, then
/// their order.
pub open spec fn slice_range_checks_text(
    start: Seq<char>,
    end: Seq<char>,
    length: Seq<char>,
    names: Seq<Seq<char>>,
) -> Seq<char> {
    slice_bound_check_text(start, length, names[0], names[1], names[2], names[3], names[4])
        + slice_bound_check_text(end, length, names[5], names[6], names[7], names[8], names[9])
        + slice_order_check_text(start, end, names[10], names[11], names[12])
}

/// The bounds check of `index` against `length` with the names it gets when
/// the temporary counter stands at `n`: `%tn`, `%t(n+1)`, `%t(n+2)`, then the
/// labels `array_oob_(n+3)` and `array_ok_(n+4)`.
#[verifier::opaque]
pub open spec fn numbered_index_check_text(index: Seq<char>, length: Seq<char>, n: nat) -> Seq<char> {
    index_check_text(
        index,
        length,
        temp_name(n),
        temp_name(n + 1),
        temp_name(n + 2),
        label_name("array_oob"@, n + 3),
        label_name("array_ok"@, n + 4),
    )
}

/// The bounds check of `index` against `length`: `index < 0`, `index >= length`,
/// either of them, and the guard that stops with the index error.
pub open spec fn index_check_text(
    index: Seq<char>,
    length: Seq<char>,
    negative: Seq<char>,
    too_high: Seq<char>,
    outside: Seq<char>,
    fail_label: Seq<char>,
    ok_label: Seq<char>,
) -> Seq<char> {
    binary_line(negative, "icmp slt"@, "i32"@, index, "0"@) + binary_line(too_high, "icmp sge"@, "i32"@, index, length)
        + binary_line(outside, "or"@, "i1"@, negative, too_high) + guard_block(
        outside,
        fail_label,
        ok_label,
        "@.ax_rt_index_oob"@,
    )
}

impl<'a> FunctionEmitter<'a> {
    /// Lowers an array literal; an empty literal needs an expected array type
    /// of length zero.
    pub fn emit_array_literal(
        &mut self,
        elements: &Vec<Expr>,
        expected_ax_ty: Option<&Type>,
        out: &mut String,
        depth: u32,
    ) -> (r: Result<LlvmValue, String>)
        ensures
            appends(old(out)@, final(out)@),
            steps_forward(*old(self), *final(self)),
            depth == 0 ==> r is Err,
            r matches Ok(v) ==> (v.ax_ty matches Some(t) && t is Array && t->Array_length == elements@.len()),
            elements@.len() == 0 && !(expected_ax_ty matches Some(t) && t is Array && t->Array_length == 0)
                ==> r is Err,
            expected_ax_ty matches Some(t) ==> ((depth > 0 && elements@.len() == 0 && t is Array
                && t->Array_length == 0 && llvm_type_of(*t, *old(self).layouts, *old(self).enum_layouts) is Some)
                ==> (r matches Ok(v) && v.repr@ == "zeroinitializer"@ && final(out)@ == old(out)@
                && *final(self) == *old(self))),
        decreases depth,
    {
        if depth == 0 {
            return Err(too_deep());
        }
        if elements.len() == 0 {
            let empty_error = owned(
                "empty array literals need explicit native array type propagation before LLVM AOT can lower them",
            );
            let expected = match expected_ax_ty {
                Some(expected) => expected,
                None => return Err(empty_error),
            };
            match expected {
                Type::Array { element, length } => {
                    if *length != 0 {
                        return Err(empty_error);
                    }
                    let array_ty = match llvm_type(expected, self.layouts, self.enum_layouts) {
                        Some(t) => t,
                        None => {
                            let shown = ax_type_name(expected);
                            return Err(concat(&["array type ", shown.as_str(), " is outside LLVM AOT v0"]));
                        },
                    };
                    if llvm_type(element, self.layouts, self.enum_layouts).is_none() {
                        let shown = ax_type_name(element);
                        return Err(
                            concat(&["array element type ", shown.as_str(), " is outside LLVM AOT v0"]),
                        );
                    }
                    return Ok(LlvmValue {
                        ty: array_ty,
                        repr: owned("zeroinitializer"),
                        ax_ty: Some(clone_type(expected)),
                    });
                },
                _ => return Err(empty_error),
            }
        }
        let mut rendered: Vec<(String, String)> = Vec::new();
        let mut element_ty: Option<String> = None;
        let mut element_ax_ty: Option<Type> = None;
        let mut i: usize = 0;
        while i < elements.len()
            invariant
                appends(old(out)@, out@),
                steps_forward(*old(self), *self),
                i <= elements@.len(),
                depth > 0,
            decreases elements@.len() - i,
        {
            let v = self.emit_expr(&elements[i], out, depth - 1)?;
            match &element_ty {
                Some(expected_ty) => ensure_same_type(expected_ty.as_str(), v.ty.as_str())?,
                None => element_ty = Some(v.ty.clone()),
            }
            let matches_previous = match &element_ax_ty {
                Some(expected) => match &v.ax_ty {
                    Some(actual) => Some(crate::mir::type_eq(actual, expected)),
                    None => Some(false),
                },
                None => None,
            };
            match matches_previous {
                Some(true) => {},
                Some(false) => return Err(owned("array literal elements must have one LLVM AOT type")),
                None => {
                    element_ax_ty = match &v.ax_ty {
                        Some(t) => Some(clone_type(t)),
                        None => None,
                    };
                },
            }
            rendered.push((v.ty, v.repr));
            i += 1;
        }
        let element_ty = match element_ty {
            Some(t) => t,
            None => return Err(owned("array literal element type is not representable in LLVM AOT v0")),
        };
        let element_ax_ty = match element_ax_ty {
            Some(t) => t,
            None => return Err(owned("array literal element type is not representable in LLVM AOT v0")),
        };
        let length = elements.len();
        let n = usize_to_decimal(length);
        let array_ty = concat(&["[", n.as_str(), " x ", element_ty.as_str(), "]"]);
        let repr = self.emit_aggregate_value(array_ty.as_str(), &rendered, out)?;
        Ok(LlvmValue {
            ty: array_ty,
            repr,
            ax_ty: Some(Type::Array { element: Box::new(element_ax_ty), length }),
        })
    }

    /// Lowers `base[index]` for arrays and slices, with a bounds check.
    pub fn emit_index(&mut self, base: &Expr, index: &Expr, out: &mut String, depth: u32) -> (r: Result<
        LlvmValue,
        String,
    >)
        ensures
            appends(old(out)@, final(out)@),
            steps_forward(*old(self), *final(self)),
            r matches Ok(v) ==> typed_as(v, *old(self).layouts, *old(self).enum_layouts),
            depth == 0 ==> r is Err,
            *base matches Expr::Local { local, .. } ==> (old(self).locals.view_map().contains_key(local) ==> ((
            depth > 2 && *index is Int && old(self).locals.view_map()[local].ax_ty is Array && llvm_type_of(
                old(self).locals.view_map()[local].ax_ty,
                *old(self).layouts,
                *old(self).enum_layouts,
            ) == Some(old(self).locals.view_map()[local].ty@) && old(self).temp_index + 7 <= u32::MAX) ==> (
            r matches Ok(v) && v.repr@ == temp_name((old(self).temp_index + 6) as nat) && final(self).temp_index
                == old(self).temp_index + 7))),
        decreases depth,
    {
        if depth == 0 {
            return Err(too_deep());
        }
        let ghost start = self.temp_index;
        let (_, base_ax_ty) = self.infer_expr_value_type(base, depth - 1)?;
        match base_ax_ty {
            Type::Slice { .. } => return self.emit_slice_index(base, index, out, depth - 1),
            _ => {},
        }
        let (array_ptr, array_ty, element_ty, length, element_ax_ty) = self.emit_array_base_ptr(
            base,
            out,
            depth - 1,
        )?;
        let idx = self.emit_expr(index, out, depth - 1)?;
        ensure_same_type("i32", idx.ty.as_str())?;
        self.emit_fixed_bounds_check(idx.repr.as_str(), length, out)?;
        let element_ptr = self.next_temp()?;
        put_line(
            out,
            &[
                "  ",
                element_ptr.as_str(),
                " = getelementptr ",
                array_ty.as_str(),
                ", ptr ",
                array_ptr.as_str(),
                ", i32 0, i32 ",
                idx.repr.as_str(),
            ],
        );
        let ghost k = self.temp_index;
        let loaded = self.next_temp()?;
        put_line(out, &["  ", loaded.as_str(), " = load ", element_ty.as_str(), ", ptr ", element_ptr.as_str()]);
        assert(loaded@ == temp_name(k as nat));
        Ok(LlvmValue { ty: element_ty, repr: loaded, ax_ty: Some(element_ax_ty) })
    }

    /// Lowers an expression used as a read-only slice: slices stay as they
    /// are, arrays are viewed as slices.
    pub fn emit_slice_from_expr(&mut self, expr: &Expr, out: &mut String, depth: u32) -> (r: Result<
        LlvmValue,
        String,
    >)
        ensures
            appends(old(out)@, final(out)@),
            steps_forward(*old(self), *final(self)),
            depth == 0 ==> r is Err,
            *expr matches Expr::Local { local, .. } ==> (old(self).locals.view_map().contains_key(local) ==> ((
            depth > 0 && old(self).locals.view_map()[local].ax_ty is Array && llvm_type_of(
                old(self).locals.view_map()[local].ax_ty,
                *old(self).layouts,
                *old(self).enum_layouts,
            ) is Some && old(self).temp_index + 3 <= u32::MAX) ==> (r matches Ok(v) && v.repr@ == temp_name(
                (old(self).temp_index + 2) as nat,
            ) && v.ty@ == "{ ptr, i32 }"@ && final(self).temp_index == old(self).temp_index + 3))),
            *expr matches Expr::Local { local, .. } ==> (old(self).locals.view_map().contains_key(local) ==> ((
            depth > 1 && old(self).locals.view_map()[local].ax_ty is Slice && old(self).temp_index < u32::MAX)
                ==> (r matches Ok(v) && v.repr@ == temp_name(old(self).temp_index as nat) && v.ty@
                == old(self).locals.view_map()[local].ty@ && final(self).temp_index == old(self).temp_index + 1))),
        decreases depth,
    {
        if depth == 0 {
            return Err(too_deep());
        }
        match expr {
            Expr::Local { local, .. } => {
                let slot = self.local_slot(*local)?;
                proof {
                    lemma_same_type_same_llvm_type(
                        slot.ax_ty,
                        self.locals.view_map()[*local].ax_ty,
                        *self.layouts,
                        *self.enum_layouts,
                    );
                }
                match &slot.ax_ty {
                    Type::Array { .. } => return self.emit_slice_from_array_ptr(slot.ptr.as_str(), &slot.ax_ty, out),
                    Type::Slice { .. } => return self.emit_expr(expr, out, depth - 1),
                    _ => {},
                }
            },
            _ => {},
        }
        let v = self.emit_expr(expr, out, depth - 1)?;
        match &v.ax_ty {
            Some(Type::Array { .. }) => self.emit_slice_from_array_value(v, out),
            Some(Type::Slice { .. }) => Ok(v),
            Some(other) => {
                let shown = ax_type_name(other);
                Err(concat(&["cannot coerce ", shown.as_str(), " to a read-only slice in LLVM AOT v0"]))
            },
            None => Err(owned("slice source value is not representable in LLVM AOT v0")),
        }
    }

    /// Stores an array value in a temporary and views it as a slice.
    pub fn emit_slice_from_array_value(&mut self, v: LlvmValue, out: &mut String) -> (r: Result<
        LlvmValue,
        String,
    >)
        ensures
            appends(old(out)@, final(out)@),
            steps_forward(*old(self), *final(self)),
            r matches Ok(v) ==> typed_as(v, *old(self).layouts, *old(self).enum_layouts),
            !(v.ax_ty matches Some(t) && t is Array && llvm_type_of(t, *old(self).layouts, *old(self).enum_layouts)
                == Some(v.ty@)) ==> r is Err,
            (v.ax_ty matches Some(t) && t is Array && llvm_type_of(t, *old(self).layouts, *old(self).enum_layouts)
                == Some(v.ty@) && old(self).temp_index + 4 <= u32::MAX) ==> (r is Ok && final(self).temp_index
                == old(self).temp_index + 4),
            r matches Ok(s) ==> (s.ax_ty matches Some(t) && t is Slice && s.ty@ == "{ ptr, i32 }"@ && s.repr@
                == temp_name((old(self).temp_index + 3) as nat)),
    {
        let ax_ty = match &v.ax_ty {
            Some(t) => clone_type(t),
            None => return Err(owned("array-to-slice coercion needs an AX array type in LLVM AOT v0")),
        };
        proof {
            lemma_same_type_same_llvm_type(ax_ty, v.ax_ty->0, *self.layouts, *self.enum_layouts);
        }
        let (array_ty, _, _, _) = array_type_parts(&ax_ty, self.layouts, self.enum_layouts)?;
        ensure_same_type(array_ty.as_str(), v.ty.as_str())?;
        let temp_array = self.next_temp()?;
        put_line(out, &["  ", temp_array.as_str(), " = alloca ", array_ty.as_str()]);
        put_line(out, &["  store ", array_ty.as_str(), " ", v.repr.as_str(), ", ptr ", temp_array.as_str()]);
        self.emit_slice_from_array_ptr(temp_array.as_str(), &ax_ty, out)
    }

    /// The slice `{ data, length }` over the array at `array_ptr`.
    pub fn emit_slice_from_array_ptr(&mut self, array_ptr: &str, ax_ty: &Type, out: &mut String) -> (r:
        Result<LlvmValue, String>)
        ensures
            appends(old(out)@, final(out)@),
            steps_forward(*old(self), *final(self)),
            r matches Ok(v) ==> typed_as(v, *old(self).layouts, *old(self).enum_layouts),
            !(*ax_ty is Array) || llvm_type_of(*ax_ty, *old(self).layouts, *old(self).enum_layouts) is None
                ==> r is Err,
            (*ax_ty is Array && llvm_type_of(*ax_ty, *old(self).layouts, *old(self).enum_layouts) is Some
                && old(self).temp_index + 3 <= u32::MAX) ==> (r is Ok && final(self).temp_index
                == old(self).temp_index + 3),
            r matches Ok(v) ==> (v.ax_ty matches Some(t) && t is Slice && v.ty@ == "{ ptr, i32 }"@ && v.repr@
                == temp_name((old(self).temp_index + 2) as nat)),
    {
        let (array_ty, element_ty, length, element_ax_ty) = array_type_parts(
            ax_ty,
            self.layouts,
            self.enum_layouts,
        )?;
        let slice_ty = slice_llvm_type();
        let ghost start = self.temp_index;
        let data_ptr = self.next_temp()?;
        put_line(
            out,
            &["  ", data_ptr.as_str(), " = getelementptr ", array_ty.as_str(), ", ptr ", array_ptr, ", i32 0, i32 0"],
        );
        let with_ptr = self.next_temp()?;
        put_line(
            out,
            &["  ", with_ptr.as_str(), " = insertvalue ", slice_ty.as_str(), " undef, ptr ", data_ptr.as_str(), ", 0"],
        );
        let repr = self.next_temp()?;
        let n = usize_to_decimal(length);
        put_line(
            out,
            &[
                "  ",
                repr.as_str(),
                " = insertvalue ",
                slice_ty.as_str(),
                " ",
                with_ptr.as_str(),
                ", i32 ",
                n.as_str(),
                ", 1",
            ],
        );
        let slice_ax_ty = Type::Slice { element: Box::new(element_ax_ty) };
        proof {
            lemma_same_type_same_llvm_type(element_ax_ty, *ax_ty->Array_element, *self.layouts, *self.enum_layouts);
            assert(repr@ == temp_name((start + 2) as nat));
        }
        let expected_slice_ty = match llvm_type(&slice_ax_ty, self.layouts, self.enum_layouts) {
            Some(t) => t,
            None => return Err(
                concat(&["slice element type ", element_ty.as_str(), " is outside LLVM AOT v0"]),
            ),
        };
        Ok(LlvmValue { ty: expected_slice_ty, repr, ax_ty: Some(slice_ax_ty) })
    }

    /// Lowers `slice[index]` with a bounds check against the slice length.
    #[verifier::rlimit(40)]
    #[verifier::spinoff_prover]
    pub fn emit_slice_index(&mut self, base: &Expr, index: &Expr, out: &mut String, depth: u32) -> (r:
        Result<LlvmValue, String>)
        ensures
            appends(old(out)@, final(out)@),
            steps_forward(*old(self), *final(self)),
            r matches Ok(v) ==> typed_as(v, *old(self).layouts, *old(self).enum_layouts),
            depth == 0 ==> r is Err,
            *base matches Expr::Local { local, .. } ==> (old(self).locals.view_map().contains_key(local) ==> (
            old(self).locals.view_map()[local].ax_ty matches Type::Slice { element } ==> ((depth > 1
                && *index is Int && old(self).locals.view_map()[local].ty@ == "{ ptr, i32 }"@ && llvm_type_of(
                *element,
                *old(self).layouts,
                *old(self).enum_layouts,
            ) is Some && old(self).temp_index + 10 <= u32::MAX) ==> (r matches Ok(v) && v.repr@ == temp_name(
                (old(self).temp_index + 9) as nat,
            ) && final(self).temp_index == old(self).temp_index + 10)))),
        decreases depth,
    {
        if depth == 0 {
            return Err(too_deep());
        }
        let ghost start = self.temp_index;
        let slice = self.emit_expr(base, out, depth - 1)?;
        let element = match &slice.ax_ty {
            Some(Type::Slice { element }) => clone_type(element),
            _ => return Err(owned("slice index base is not a slice in LLVM AOT v0")),
        };
        proof {
            if let Expr::Local { local, .. } = *base {
                if let Type::Slice { element: declared } = old(self).locals.view_map()[local].ax_ty {
                    if old(self).locals.view_map().contains_key(local) && depth > 1 && start < u32::MAX {
                        lemma_same_type_same_llvm_type(*slice.ax_ty->0->Slice_element, *declared, *self.layouts, *self.enum_layouts);
                        lemma_same_type_same_llvm_type(element, *slice.ax_ty->0->Slice_element, *self.layouts, *self.enum_layouts);
                    }
                }
            }
        }
        let slice_ty = slice_llvm_type();
        ensure_same_type(slice_ty.as_str(), slice.ty.as_str())?;
        let element_ty = match llvm_type(&element, self.layouts, self.enum_layouts) {
            Some(t) => t,
            None => {
                let shown = ax_type_name(&element);
                return Err(concat(&["slice element type ", shown.as_str(), " is outside LLVM AOT v0"]));
            },
        };
        let idx = self.emit_expr(index, out, depth - 1)?;
        ensure_same_type("i32", idx.ty.as_str())?;
        let data_ptr = self.next_temp()?;
        put_line(out, &["  ", data_ptr.as_str(), " = extractvalue ", slice.ty.as_str(), " ", slice.repr.as_str(), ", 0"]);
        let len = self.next_temp()?;
        put_line(out, &["  ", len.as_str(), " = extractvalue ", slice.ty.as_str(), " ", slice.repr.as_str(), ", 1"]);
        self.emit_dynamic_bounds_check(idx.repr.as_str(), len.as_str(), out)?;
        let element_ptr = self.next_temp()?;
        put_line(
            out,
            &[
                "  ",
                element_ptr.as_str(),
                " = getelementptr ",
                element_ty.as_str(),
                ", ptr ",
                data_ptr.as_str(),
                ", i32 ",
                idx.repr.as_str(),
            ],
        );
        let ghost k = self.temp_index;
        let loaded = self.next_temp()?;
        put_line(out, &["  ", loaded.as_str(), " = load ", element_ty.as_str(), ", ptr ", element_ptr.as_str()]);
        assert(loaded@ == temp_name(k as nat));
        Ok(LlvmValue { ty: element_ty, repr: loaded, ax_ty: Some(element) })
    }

    /// Lowers `base[start..end]`: checks both bounds and their order, then
    /// copies the elements into a fresh buffer.
    #[verifier::rlimit(80)]
    #[verifier::spinoff_prover]
    pub fn emit_slice_range(
        &mut self,
        base: &Expr,
        start: &Expr,
        end: &Expr,
        out: &mut String,
        depth: u32,
    ) -> (r: Result<LlvmValue, String>)
        ensures
            appends(old(out)@, final(out)@),
            steps_forward(*old(self), *final(self)),
            r matches Ok(v) ==> typed_as(v, *old(self).layouts, *old(self).enum_layouts),
            r matches Ok(v) ==> v.ty@ == crate::abi::SLICE_LLVM_TYPE@ && v.ax_ty matches Some(Type::Slice { .. }),
            r matches Ok(v) ==> exists|
                before: Seq<char>,
                start_value: Seq<char>,
                end_value: Seq<char>,
                length: Seq<char>,
                names: Seq<Seq<char>>,
                base_ptr: Seq<char>,
                element_ty: Seq<char>,
                element_size: usize,
                first: nat,
            |
                {
                    &&& final(out)@ == #[trigger] slice_range_text(before, start_value, end_value, length, names,
                        base_ptr, element_ty, element_size, first)
                    &&& v.repr@ == temp_name(first + 7)
                    &&& v.ax_ty matches Some(Type::Slice { element })
                        && (llvm_type_of(*element, *old(self).layouts, *old(self).enum_layouts) == Some(element_ty)
                        && alloc_layout(*element, *old(self).layouts, *old(self).enum_layouts, EMIT_DEPTH as nat)
                        is Some && alloc_layout(*element, *old(self).layouts, *old(self).enum_layouts,
                        EMIT_DEPTH as nat).unwrap().0 == element_size)
                },
        decreases depth,
    {
        if depth == 0 {
            return Err(too_deep());
        }
        let slice = self.emit_slice_from_expr(base, out, depth - 1)?;
        assert(appends(old(out)@, out@));
        let element_ax_ty = match &slice.ax_ty {
            Some(Type::Slice { element }) => clone_type(element),
            _ => return Err(owned("slice expression base is not slice-compatible in LLVM AOT v0")),
        };
        assert(appends(old(out)@, out@));
        let slice_ty = slice_llvm_type();
        ensure_same_type(slice_ty.as_str(), slice.ty.as_str())?;
        assert(appends(old(out)@, out@));
        let element_ty = match llvm_type(&element_ax_ty, self.layouts, self.enum_layouts) {
            Some(t) => t,
            None => {
                let shown = ax_type_name(&element_ax_ty);
                return Err(concat(&["slice element type ", shown.as_str(), " is outside LLVM AOT v0"]));
            },
        };
        assert(appends(old(out)@, out@));
        let s = self.emit_expr(start, out, depth - 1)?;
        ensure_same_type("i32", s.ty.as_str())?;
        assert(appends(old(out)@, out@));
        let e = self.emit_expr(end, out, depth - 1)?;
        ensure_same_type("i32", e.ty.as_str())?;
        assert(appends(old(out)@, out@));
        let base_ptr = self.next_temp()?;
        assert(appends(old(out)@, out@));
        put_line(out, &["  ", base_ptr.as_str(), " = extractvalue ", slice.ty.as_str(), " ", slice.repr.as_str(), ", 0"]);
        assert(appends(old(out)@, out@));
        let base_len = self.next_temp()?;
        assert(appends(old(out)@, out@));
        put_line(out, &["  ", base_len.as_str(), " = extractvalue ", slice.ty.as_str(), " ", slice.repr.as_str(), ", 1"]);
        assert(appends(old(out)@, out@));
        let ghost checks_start = out@;
        self.emit_slice_range_checks(s.repr.as_str(), e.repr.as_str(), base_len.as_str(), out)?;
        let ghost names = choose|names: Seq<Seq<char>>|
            out@ == checks_start + #[trigger] slice_range_checks_text(s.repr@, e.repr@, base_len@, names);
        let ghost checks_done = out@;
        assert(appends(old(out)@, out@));
        let ghost first = self.temp_index;
        let data_ptr = self.next_temp()?;
        let len = self.next_temp()?;
        let element_size = match llvm_alloc_size(&element_ax_ty, self.layouts, self.enum_layouts, EMIT_DEPTH) {
            Some(size) => size,
            None => {
                let shown = ax_type_name(&element_ax_ty);
                return Err(
                    concat(
                        &[
                            "slice element type ",
                            shown.as_str(),
                            " needs a native size contract before LLVM AOT can copy it",
                        ],
                    ),
                );
            },
        };
        let len_i64 = self.next_temp()?;
        let byte_len = self.next_temp()?;
        let copy_ptr = self.next_temp()?;
        let copy = self.next_temp()?;
        let with_ptr = self.next_temp()?;
        let repr = self.next_temp()?;
        let size_text = usize_to_decimal(element_size);
        let ghost copy_start = out@;
        assert(copy_start == checks_start + slice_range_checks_text(s.repr@, e.repr@, base_len@, names));
        let parts: [&str; 8] = [
            data_ptr.as_str(),
            len.as_str(),
            len_i64.as_str(),
            byte_len.as_str(),
            copy_ptr.as_str(),
            copy.as_str(),
            with_ptr.as_str(),
            repr.as_str(),
        ];
        put_slice_copy(
            out,
            element_ty.as_str(),
            base_ptr.as_str(),
            s.repr.as_str(),
            e.repr.as_str(),
            size_text.as_str(),
            &parts,
        );
        proof {
            let named = Seq::new(8, |i: int| parts@[i]@);
            assert(named[0] == temp_name(first as nat));
            assert(named[1] == temp_name((first + 1) as nat));
            assert(named[2] == temp_name((first + 2) as nat));
            assert(named[3] == temp_name((first + 3) as nat));
            assert(named[4] == temp_name((first + 4) as nat));
            assert(named[5] == temp_name((first + 5) as nat));
            assert(named[6] == temp_name((first + 6) as nat));
            assert(named[7] == temp_name((first + 7) as nat));
            assert(named =~= Seq::new(8, |i: int| temp_name((first + i) as nat)));
            assert(out@ =~= slice_range_text(checks_start, s.repr@, e.repr@, base_len@, names, base_ptr@,
                element_ty@, element_size, first as nat));
        }
        Ok(LlvmValue {
            ty: slice_llvm_type(),
            repr,
            ax_ty: Some(Type::Slice { element: Box::new(element_ax_ty) }),
        })
    }

    /// A pointer to an array: the local's own slot, or a temporary holding
    /// the value of a non-local array expression.
    pub fn emit_array_base_ptr(&mut self, base: &Expr, out: &mut String, depth: u32) -> (r: Result<
        (String, String, String, usize, Type),
        String,
    >)
        ensures
            appends(old(out)@, final(out)@),
            steps_forward(*old(self), *final(self)),
            r matches Ok((_, _, element_ty, _, element_ax_ty)) ==> llvm_type_of(
                element_ax_ty,
                *old(self).layouts,
                *old(self).enum_layouts,
            ) == Some(element_ty@),
            depth == 0 ==> r is Err,
            base matches Expr::Local { local, .. } ==> (old(self).locals.view_map().contains_key(*local) ==> ((
            depth > 0 && old(self).locals.view_map()[*local].ax_ty is Array && llvm_type_of(
                old(self).locals.view_map()[*local].ax_ty,
                *old(self).layouts,
                *old(self).enum_layouts,
            ) == Some(old(self).locals.view_map()[*local].ty@)) ==> (r matches Ok((ptr, array_ty, _, length, _))
                && ptr@ == old(self).locals.view_map()[*local].ptr@ && array_ty@ == old(self).locals.view_map()[*local].ty@
                && old(self).locals.view_map()[*local].ax_ty->Array_length == length
                && final(out)@ == old(out)@ && *final(self) == *old(self)))),
            base matches Expr::Local { local, .. } ==> (!old(self).locals.view_map().contains_key(*local) ==> r is Err),
        decreases depth,
    {
        if depth == 0 {
            return Err(too_deep());
        }
        match base {
            Expr::Local { local, .. } => {
                let slot = self.local_slot(*local)?;
                proof {
                    lemma_same_type_same_llvm_type(
                        slot.ax_ty,
                        self.locals.view_map()[*local].ax_ty,
                        *self.layouts,
                        *self.enum_layouts,
                    );
                }
                let (array_ty, element_ty, length, element_ax_ty) = array_type_parts(
                    &slot.ax_ty,
                    self.layouts,
                    self.enum_layouts,
                )?;
                proof {
                    if let Type::Array { element, .. } = slot.ax_ty {
                        lemma_same_type_same_llvm_type(element_ax_ty, *element, *self.layouts, *self.enum_layouts);
                    }
                }
                ensure_same_type(array_ty.as_str(), slot.ty.as_str())?;
                return Ok((slot.ptr, array_ty, element_ty, length, element_ax_ty));
            },
            _ => {},
        }
        let v = self.emit_expr(base, out, depth - 1)?;
        let ax_ty = match &v.ax_ty {
            Some(t) => clone_type(t),
            None => return Err(owned("array index base is not a fixed-size array in LLVM AOT v0")),
        };
        let (array_ty, element_ty, length, element_ax_ty) = array_type_parts(
            &ax_ty,
            self.layouts,
            self.enum_layouts,
        )?;
        proof {
            if let Type::Array { element, .. } = ax_ty {
                lemma_same_type_same_llvm_type(element_ax_ty, *element, *self.layouts, *self.enum_layouts);
            }
        }
        ensure_same_type(array_ty.as_str(), v.ty.as_str())?;
        let temp_array = self.next_temp()?;
        put_line(out, &["  ", temp_array.as_str(), " = alloca ", array_ty.as_str()]);
        put_line(out, &["  store ", array_ty.as_str(), " ", v.repr.as_str(), ", ptr ", temp_array.as_str()]);
        Ok((temp_array, array_ty, element_ty, length, element_ax_ty))
    }

    /// The bounds check of an index into an array of known length.
    pub fn emit_fixed_bounds_check(&mut self, index: &str, length: usize, out: &mut String) -> (r: Result<
        (),
        String,
    >)
        ensures
            appends(old(out)@, final(out)@),
            steps_forward(*old(self), *final(self)),
            r is Ok <==> old(self).temp_index + 5 <= u32::MAX,
            r is Ok ==> final(self).temp_index == old(self).temp_index + 5,
            r is Ok ==> exists|negative: Seq<char>, too_high: Seq<char>, outside: Seq<char>, fail_label: Seq<char>, ok_label: Seq<char>|
                final(out)@ == old(out)@ + index_check_text(
                    index@,
                    decimal(length as nat),
                    negative,
                    too_high,
                    outside,
                    fail_label,
                    ok_label,
                ),
    {
        let n = usize_to_decimal(length);
        self.emit_dynamic_bounds_check(index, n.as_str(), out)
    }

    /// Fails with the index error unless `0 <= index < length`.
    pub fn emit_dynamic_bounds_check(&mut self, index: &str, length: &str, out: &mut String) -> (r:
        Result<(), String>)
        ensures
            appends(old(out)@, final(out)@),
            steps_forward(*old(self), *final(self)),
            r is Ok <==> old(self).temp_index + 5 <= u32::MAX,
            r is Ok ==> final(self).temp_index == old(self).temp_index + 5,
            r is Ok ==> exists|negative: Seq<char>, too_high: Seq<char>, outside: Seq<char>, fail_label: Seq<char>, ok_label: Seq<char>|
                final(out)@ == old(out)@ + index_check_text(
                    index@,
                    length@,
                    negative,
                    too_high,
                    outside,
                    fail_label,
                    ok_label,
                ),
            r is Ok ==> final(out)@ == old(out)@ + numbered_index_check_text(index@, length@, old(self).temp_index as nat),
    {
        proof {
            reveal(numbered_index_check_text);
        }
        let negative = self.next_temp()?;
        let too_high = self.next_temp()?;
        let out_of_bounds = self.next_temp()?;
        let fail_label = self.next_label("array_oob")?;
        let ok_label = self.next_label("array_ok")?;
        put_binary_line(out, negative.as_str(), "icmp slt", "", "i32", index, "0");
        put_binary_line(out, too_high.as_str(), "icmp sge", "", "i32", index, length);
        put_binary_line(out, out_of_bounds.as_str(), "or", "", "i1", negative.as_str(), too_high.as_str());
        put_guard_block(out, out_of_bounds.as_str(), fail_label.as_str(), ok_label.as_str(), "@.ax_rt_index_oob");
        proof {
            reveal_strlit("");
            assert("icmp slt"@ + ""@ =~= "icmp slt"@);
            assert("icmp sge"@ + ""@ =~= "icmp sge"@);
            assert("or"@ + ""@ =~= "or"@);
            assert(out@ =~= old(out)@ + index_check_text(
                index@,
                length@,
                negative@,
                too_high@,
                out_of_bounds@,
                fail_label@,
                ok_label@,
            ));
        }
        Ok(())
    }

    /// Checks both bounds of a slice range against `length`, then their
    /// order.
    #[verifier::rlimit(40)]
    pub fn emit_slice_range_checks(&mut self, start: &str, end: &str, length: &str, out: &mut String) -> (r: Result<
        (),
        String,
    >)
        ensures
            appends(old(out)@, final(out)@),
            steps_forward(*old(self), *final(self)),
            r is Ok ==> exists|names: Seq<Seq<char>>|
                final(out)@ == old(out)@ + #[trigger] slice_range_checks_text(start@, end@, length@, names),
    {
        let ghost checks_start = out@;
        self.emit_slice_bound_check(start, length, out)?;
        let ghost (n0, n1, n2, n3, n4) = choose|
            negative: Seq<char>,
            too_high: Seq<char>,
            outside: Seq<char>,
            fail_label: Seq<char>,
            ok_label: Seq<char>,
        |
            out@ == checks_start + #[trigger] slice_bound_check_text(
                start@,
                length@,
                negative,
                too_high,
                outside,
                fail_label,
                ok_label,
            );
        let ghost first_done = out@;
        self.emit_slice_bound_check(end, length, out)?;
        let ghost (n5, n6, n7, n8, n9) = choose|
            negative: Seq<char>,
            too_high: Seq<char>,
            outside: Seq<char>,
            fail_label: Seq<char>,
            ok_label: Seq<char>,
        |
            out@ == first_done + #[trigger] slice_bound_check_text(
                end@,
                length@,
                negative,
                too_high,
                outside,
                fail_label,
                ok_label,
            );
        let ghost second_done = out@;
        self.emit_slice_order_check(start, end, out)?;
        let ghost (n10, n11, n12) = choose|invalid: Seq<char>, fail_label: Seq<char>, ok_label: Seq<char>|
            out@ == second_done + #[trigger] slice_order_check_text(start@, end@, invalid, fail_label, ok_label);
        proof {
            let names: Seq<Seq<char>> = seq![n0, n1, n2, n3, n4, n5, n6, n7, n8, n9, n10, n11, n12];
            assert(names[0] == n0 && names[1] == n1 && names[2] == n2 && names[3] == n3 && names[4] == n4);
            assert(names[5] == n5 && names[6] == n6 && names[7] == n7 && names[8] == n8 && names[9] == n9);
            assert(names[10] == n10 && names[11] == n11 && names[12] == n12);
            assert(out@ =~= checks_start + slice_range_checks_text(start@, end@, length@, names));
        }
        Ok(())
    }

    /// Fails with the slice bound error unless `0 <= bound <= length`.
    pub fn emit_slice_bound_check(&mut self, bound: &str, length: &str, out: &mut String) -> (r: Result<
        (),
        String,
    >)
        ensures
            appends(old(out)@, final(out)@),
            steps_forward(*old(self), *final(self)),
            r is Ok <==> old(self).temp_index + 5 <= u32::MAX,
            r is Ok ==> final(self).temp_index == old(self).temp_index + 5,
            r is Ok ==> exists|negative: Seq<char>, too_high: Seq<char>, outside: Seq<char>, fail_label: Seq<char>, ok_label: Seq<char>|
                final(out)@ == old(out)@ + #[trigger] slice_bound_check_text(
                    bound@,
                    length@,
                    negative,
                    too_high,
                    outside,
                    fail_label,
                    ok_label,
                ),
    {
        let negative = self.next_temp()?;
        let too_high = self.next_temp()?;
        let out_of_bounds = self.next_temp()?;
        let fail_label = self.next_label("slice_bound_oob")?;
        let ok_label = self.next_label("slice_bound_ok")?;
        put_binary_line(out, negative.as_str(), "icmp slt", "", "i32", bound, "0");
        put_binary_line(out, too_high.as_str(), "icmp sgt", "", "i32", bound, length);
        put_binary_line(out, out_of_bounds.as_str(), "or", "", "i1", negative.as_str(), too_high.as_str());
        put_guard_block(out, out_of_bounds.as_str(), fail_label.as_str(), ok_label.as_str(), "@.ax_rt_slice_bound_oob");
        proof {
            reveal_strlit("");
            assert("icmp slt"@ + ""@ =~= "icmp slt"@);
            assert("icmp sgt"@ + ""@ =~= "icmp sgt"@);
            assert("or"@ + ""@ =~= "or"@);
            assert(out@ =~= old(out)@ + binary_line(negative@, "icmp slt"@, "i32"@, bound@, "0"@) + binary_line(
                too_high@,
                "icmp sgt"@,
                "i32"@,
                bound@,
                length@,
            ) + binary_line(out_of_bounds@, "or"@, "i1"@, negative@, too_high@) + guard_block(
                out_of_bounds@,
                fail_label@,
                ok_label@,
                "@.ax_rt_slice_bound_oob"@,
            ));
            assert(out@ == old(out)@ + slice_bound_check_text(
                bound@,
                length@,
                negative@,
                too_high@,
                out_of_bounds@,
                fail_label@,
                ok_label@,
            ));
        }
        Ok(())
    }

    /// Fails with the slice order error when `start > end`.
    pub fn emit_slice_order_check(&mut self, start: &str, end: &str, out: &mut String) -> (r: Result<
        (),
        String,
    >)
        ensures
            appends(old(out)@, final(out)@),
            steps_forward(*old(self), *final(self)),
            r is Ok <==> old(self).temp_index + 3 <= u32::MAX,
            r is Ok ==> final(self).temp_index == old(self).temp_index + 3,
            r is Ok ==> exists|invalid: Seq<char>, fail_label: Seq<char>, ok_label: Seq<char>|
                final(out)@ == old(out)@ + #[trigger] slice_order_check_text(start@, end@, invalid, fail_label, ok_label),
    {
        let invalid = self.next_temp()?;
        let fail_label = self.next_label("slice_order_invalid")?;
        let ok_label = self.next_label("slice_order_ok")?;
        put_binary_line(out, invalid.as_str(), "icmp sgt", "", "i32", start, end);
        put_guard_block(out, invalid.as_str(), fail_label.as_str(), ok_label.as_str(), "@.ax_rt_slice_order_invalid");
        proof {
            reveal_strlit("");
            assert("icmp sgt"@ + ""@ =~= "icmp sgt"@);
            assert(out@ == old(out)@ + slice_order_check_text(start@, end@, invalid@, fail_label@, ok_label@));
        }
        Ok(())
    }
}

} // verus!
