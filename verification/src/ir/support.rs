//! Type names, native types and sizes, layout keys, labels and the small
//! checks shared by the lowering passes.
use vstd::prelude::*;
use crate::abi;
use crate::mir::{
    same_type, same_types, BasicBlock, BinaryOp, EnumVariantPayloadPattern, Expr, Item, MatchExprArm,
    MatchPattern, Place, Program, Statement, StructLiteralField, Terminator, Type,
};
use crate::name_map::NameMap;
use crate::text::{
    concat, decimal, encode_llvm_c_string, hex_digit, joined, owned, push_char, push_decimal_usize,
    push_sanitized, sanitize_chars, str_eq,
};
use super::model::{EnumLayout, LlvmValue, StringLiteral, StructFieldLayout, StructLayout};
use super::literals::{
    arm_strings, arms_strings, block_strings, blocks_strings, composite_formatter_strings,
    enum_formatter_strings, enums_formatter_strings, expr_strings, exprs_strings, field_labels,
    fields_strings, fits_one, guard_strings, intern, intern_fits, intern_one, item_strings, items_strings,
    lemma_intern_concat, lemma_intern_single, literal_global, literal_table, module_strings,
    pattern_strings, patterns_strings, place_strings, statement_strings, statements_strings,
    struct_formatter_strings, structs_formatter_strings, terminator_strings, variant_labels,
};
use vstd::arithmetic::div_mod::{lemma_mod_multiples_basic, lemma_mul_mod_noop_left};

verus! {

/// The source name of an AX type, as diagnostics and layout keys write it.
pub open spec fn ax_name_of(ty: Type) -> Seq<char>
    decreases ty,
{
    match ty {
        Type::Bool => "bool"@,
        Type::I32 => "i32"@,
        Type::F32 => "f32"@,
        Type::String => "string"@,
        Type::Bytes => "bytes"@,
        Type::StringList => "string_list"@,
        Type::Slice { element } => "[]"@ + ax_name_of(*element),
        Type::Array { element, length } => "["@ + ax_name_of(*element) + "; "@ + decimal(length as nat)
            + "]"@,
        Type::Struct { name } => name@,
        Type::StructInstance { name, args } => name@ + "<"@ + joined(ax_names_of(args@), ", "@)
            + ">"@,
        Type::Enum { name } => name@,
        Type::EnumInstance { name, args } => name@ + "<"@ + joined(ax_names_of(args@), ", "@) + ">"@,
        Type::TypeParam { name } => name@,
    }
}

/// The source names of a list of types.
pub open spec fn ax_names_of(tys: Seq<Type>) -> Seq<Seq<char>>
    decreases tys,
{
    Seq::new(
        tys.len(),
        |i: int|
            if 0 <= i < tys.len() {
                ax_name_of(tys[i])
            } else {
                Seq::empty()
            },
    )
}

fn type_args_name(name: &String, args: &Vec<Type>) -> (r: String)
    ensures
        r@ == name@ + "<"@ + joined(ax_names_of(args@), ", "@) + ">"@,
    decreases args@, 0nat,
{
    let mut out = owned(name.as_str());
    out.append("<");
    let ghost start = out@;
    let mut i: usize = 0;
    while i < args.len()
        invariant
            i <= args@.len(),
            out@ == start + joined(ax_names_of(args@).take(i as int), ", "@),
        decreases args@.len() - i,
    {
        if i > 0 {
            out.append(", ");
        }
        assert(decreases_to!(args@ => args@[i as int]));
        let part = ax_type_name(&args[i]);
        out.append(part.as_str());
        assert(ax_names_of(args@).take(i + 1).drop_last() =~= ax_names_of(args@).take(i as int));
        if i == 0 {
            assert(joined(ax_names_of(args@).take(1), ", "@) =~= ax_names_of(args@)[0]);
        }
        assert(out@ =~= start + joined(ax_names_of(args@).take(i + 1), ", "@));
        i += 1;
    }
    assert(ax_names_of(args@).take(args@.len() as int) =~= ax_names_of(args@));
    out.append(">");
    out
}

/// The source name of an AX type.
pub fn ax_type_name(ty: &Type) -> (r: String)
    ensures
        r@ == ax_name_of(*ty),
    decreases *ty, 1nat,
{
    match ty {
        Type::Bool => owned("bool"),
        Type::I32 => owned("i32"),
        Type::F32 => owned("f32"),
        Type::String => owned("string"),
        Type::Bytes => owned("bytes"),
        Type::StringList => owned("string_list"),
        Type::Slice { element } => {
            let inner = ax_type_name(element);
            let mut out = owned("[]");
            out.append(inner.as_str());
            out
        },
        Type::Array { element, length } => {
            let inner = ax_type_name(element);
            let mut out = owned("[");
            out.append(inner.as_str());
            out.append("; ");
            push_decimal_usize(&mut out, *length);
            out.append("]");
            out
        },
        Type::Struct { name } => owned(name.as_str()),
        Type::StructInstance { name, args } => type_args_name(name, args),
        Type::Enum { name } => owned(name.as_str()),
        Type::EnumInstance { name, args } => type_args_name(name, args),
        Type::TypeParam { name } => owned(name.as_str()),
    }
}

/// The native LLVM type of an AX type under the struct and enum layouts, if
/// it has one.
pub open spec fn llvm_type_of(
    ty: Type,
    layouts: NameMap<StructLayout>,
    enum_layouts: NameMap<EnumLayout>,
) -> Option<Seq<char>>
    decreases ty,
{
    match ty {
        Type::Bool => Some("i1"@),
        Type::I32 => Some("i32"@),
        Type::F32 => Some("float"@),
        Type::String => Some("ptr"@),
        Type::Bytes => Some("ptr"@),
        Type::StringList => Some("ptr"@),
        Type::Array { element, length } => match llvm_type_of(*element, layouts, enum_layouts) {
            Some(e) => Some("["@ + decimal(length as nat) + " x "@ + e + "]"@),
            None => None,
        },
        Type::Slice { element } => match llvm_type_of(*element, layouts, enum_layouts) {
            Some(_) => Some("{ ptr, i32 }"@),
            None => None,
        },
        Type::Struct { .. } | Type::StructInstance { .. } => match layouts.spec_get(ax_name_of(ty)) {
            Some(layout) => Some(layout.ty@),
            None => None,
        },
        Type::Enum { .. } | Type::EnumInstance { .. } => match enum_layouts.spec_get(ax_name_of(ty)) {
            Some(layout) => Some(layout.ty@),
            None => None,
        },
        Type::TypeParam { .. } => None,
    }
}

/// Types that are equal have equal source names.
pub proof fn lemma_same_type_same_name(a: Type, b: Type)
    requires
        same_type(a, b),
    ensures
        ax_name_of(a) == ax_name_of(b),
    decreases a,
{
    match (a, b) {
        (Type::Slice { element: x }, Type::Slice { element: y }) => lemma_same_type_same_name(*x, *y),
        (Type::Array { element: x, .. }, Type::Array { element: y, .. }) => lemma_same_type_same_name(*x, *y),
        (Type::StructInstance { args: xs, .. }, Type::StructInstance { args: ys, .. }) => {
            assert(same_types(xs@, ys@));
            assert forall|i: int| 0 <= i < xs@.len() implies ax_names_of(xs@)[i] == ax_names_of(ys@)[i] by {
                assert(decreases_to!(a => xs));
                assert(decreases_to!(xs => xs@[i]));
                lemma_same_type_same_name(xs@[i], ys@[i]);
            }
            assert(ax_names_of(xs@) =~= ax_names_of(ys@));
        },
        (Type::EnumInstance { args: xs, .. }, Type::EnumInstance { args: ys, .. }) => {
            assert(same_types(xs@, ys@));
            assert forall|i: int| 0 <= i < xs@.len() implies ax_names_of(xs@)[i] == ax_names_of(ys@)[i] by {
                assert(decreases_to!(a => xs));
                assert(decreases_to!(xs => xs@[i]));
                lemma_same_type_same_name(xs@[i], ys@[i]);
            }
            assert(ax_names_of(xs@) =~= ax_names_of(ys@));
        },
        _ => {},
    }
}

/// Types that are equal have the same native type.
pub proof fn lemma_same_type_same_llvm_type(
    a: Type,
    b: Type,
    layouts: NameMap<StructLayout>,
    enum_layouts: NameMap<EnumLayout>,
)
    requires
        same_type(a, b),
    ensures
        llvm_type_of(a, layouts, enum_layouts) == llvm_type_of(b, layouts, enum_layouts),
    decreases a,
{
    lemma_same_type_same_name(a, b);
    match (a, b) {
        (Type::Slice { element: x }, Type::Slice { element: y }) => lemma_same_type_same_llvm_type(
            *x,
            *y,
            layouts,
            enum_layouts,
        ),
        (Type::Array { element: x, .. }, Type::Array { element: y, .. }) => lemma_same_type_same_llvm_type(
            *x,
            *y,
            layouts,
            enum_layouts,
        ),
        _ => {},
    }
}

/// The value's LLVM type is the native type of its AX type.
pub open spec fn typed_as(v: LlvmValue, layouts: NameMap<StructLayout>, enum_layouts: NameMap<EnumLayout>) -> bool {
    v.ax_ty matches Some(t) && llvm_type_of(t, layouts, enum_layouts) == Some(v.ty@)
}

/// The native LLVM type of an AX type, if it has one.
pub fn llvm_type(
    ty: &Type,
    layouts: &NameMap<StructLayout>,
    enum_layouts: &NameMap<EnumLayout>,
) -> (r: Option<String>)
    ensures
        r matches Some(s) ==> llvm_type_of(*ty, *layouts, *enum_layouts) == Some(s@),
        r is None ==> llvm_type_of(*ty, *layouts, *enum_layouts) is None,
    decreases *ty,
{
    proof {
        reveal_strlit("i1");
        reveal_strlit("i32");
        reveal_strlit("float");
        reveal_strlit("ptr");
    }
    match ty {
        Type::Bool => Some(owned(abi::BOOL_LLVM_TYPE)),
        Type::I32 => Some(owned(abi::I32_LLVM_TYPE)),
        Type::F32 => Some(owned(abi::F32_LLVM_TYPE)),
        Type::String => Some(owned(abi::STRING_LLVM_TYPE)),
        Type::Bytes => Some(owned(abi::BYTES_LLVM_TYPE)),
        Type::StringList => Some(owned(abi::STRING_LIST_LLVM_TYPE)),
        Type::Array { element, length } => match llvm_type(element, layouts, enum_layouts) {
            Some(element_ty) => {
                let mut out = owned("[");
                push_decimal_usize(&mut out, *length);
                out.append(" x ");
                out.append(element_ty.as_str());
                out.append("]");
                assert(out@ =~= "["@ + decimal(*length as nat) + " x "@ + element_ty@ + "]"@);
                Some(out)
            },
            None => None,
        },
        Type::Slice { element } => match llvm_type(element, layouts, enum_layouts) {
            Some(_) => Some(owned(abi::SLICE_LLVM_TYPE)),
            None => None,
        },
        Type::Struct { .. } | Type::StructInstance { .. } => {
            let key = ax_type_name(ty);
            match layouts.get(key.as_str()) {
                Some(layout) => Some(layout.ty.clone()),
                None => None,
            }
        },
        Type::Enum { .. } | Type::EnumInstance { .. } => {
            let key = ax_type_name(ty);
            match enum_layouts.get(key.as_str()) {
                Some(layout) => Some(layout.ty.clone()),
                None => None,
            }
        },
        Type::TypeParam { .. } => None,
    }
}

/// The LLVM type of a read-only slice, `{ ptr, i32 }`.
pub fn slice_llvm_type() -> (r: String)
    ensures
        r@ == abi::SLICE_LLVM_TYPE@,
{
    owned(abi::slice_llvm_type())
}

/// The layout of an enum type, if `ty` is an enum with a layout.
pub fn enum_layout_for_static_type<'a>(
    ty: &Type,
    enum_layouts: &'a NameMap<EnumLayout>,
) -> (r: Option<&'a EnumLayout>)
    ensures
        r matches Some(l) ==> (ty is Enum || ty is EnumInstance) && enum_layouts.spec_get(
            ax_name_of(*ty),
        ) == Some(*l),
        r is None ==> !(ty is Enum || ty is EnumInstance) || enum_layouts.spec_get(
            ax_name_of(*ty),
        ) is None,
{
    match ty {
        Type::Enum { .. } | Type::EnumInstance { .. } => {
            let key = ax_type_name(ty);
            enum_layouts.get(key.as_str())
        },
        _ => None,
    }
}

/// The LLVM array type, element type, length and element AX type of a
/// fixed-size array type.
pub fn array_type_parts(
    ty: &Type,
    layouts: &NameMap<StructLayout>,
    enum_layouts: &NameMap<EnumLayout>,
) -> (r: Result<(String, String, usize, Type), String>)
    ensures
        r matches Ok((array_ty, element_ty, length, element_ax_ty)) ==> ty matches Type::Array {
            element,
            length: n,
        } && n == length && same_type(element_ax_ty, **element) && llvm_type_of(
            *ty,
            *layouts,
            *enum_layouts,
        ) == Some(array_ty@) && llvm_type_of(**element, *layouts, *enum_layouts) == Some(
            element_ty@,
        ),
        r is Err ==> !(ty is Array) || llvm_type_of(*ty, *layouts, *enum_layouts) is None,
{
    match ty {
        Type::Array { element, length } => {
            let array_ty = match llvm_type(ty, layouts, enum_layouts) {
                Some(t) => t,
                None => {
                    let name = ax_type_name(ty);
                    return Err(concat(&["array type ", name.as_str(), " is outside LLVM AOT v0"]));
                },
            };
            let element_ty = match llvm_type(element, layouts, enum_layouts) {
                Some(t) => t,
                None => {
                    let name = ax_type_name(element);
                    return Err(
                        concat(&["array element type ", name.as_str(), " is outside LLVM AOT v0"]),
                    );
                },
            };
            Ok((array_ty, element_ty, *length, crate::mir::clone_type(element)))
        },
        _ => Err(owned("array index base is not a fixed-size array in LLVM AOT v0")),
    }
}

/// Rounds `size` up to a multiple of `align` (`size` itself when `align` is
/// zero); `None` when that overflows.
pub fn align_to(size: usize, align: usize) -> (r: Option<usize>)
    ensures
        align == 0 ==> r == Some(size),
        align > 0 ==> (r matches Some(v) ==> v as int == ((size + align - 1) / align as int)
            * align),
        align > 0 ==> (r is None <==> ((size + align - 1) / align as int) * align > usize::MAX),
        align > 0 ==> (r matches Some(v) ==> v % align == 0),
{
    if align == 0 {
        return Some(size);
    }
    let quotient = size / align;
    assert(align > 1 && size % align != 0 ==> quotient < usize::MAX) by (nonlinear_arith)
        requires
            align > 0,
            quotient == size / align,
    ;
    let rounded = if size % align == 0 {
        quotient
    } else {
        quotient + 1
    };
    proof {
        assert(size as int == quotient as int * align as int + (size % align) as int) by (nonlinear_arith)
            requires
                align > 0,
                quotient == size / align,
        ;
        assert(rounded as int == (size + align - 1) / align as int) by (nonlinear_arith)
            requires
                align > 0,
                quotient == size / align,
                rounded == (if size % align == 0 {
                    quotient as int
                } else {
                    quotient + 1
                }),
        ;
        lemma_mod_multiples_basic(rounded as int, align as int);
    }
    rounded.checked_mul(align)
}

/// The allocation size of a value of type `ty`, if it has a native layout.
pub fn llvm_alloc_size(
    ty: &Type,
    layouts: &NameMap<StructLayout>,
    enum_layouts: &NameMap<EnumLayout>,
    depth: u32,
) -> (r: Option<usize>)
    ensures
        *ty is Bool ==> r == Some(1usize),
        *ty is I32 || *ty is F32 ==> r == Some(4usize),
        *ty is String || *ty is StringList ==> r == Some(8usize),
        *ty is TypeParam ==> r is None,
        r == match alloc_layout(*ty, *layouts, *enum_layouts, depth as nat) {
            Some((size, _)) => Some(size),
            None => None,
        },
{
    match llvm_alloc_layout(ty, layouts, enum_layouts, depth) {
        Some((size, _align)) => Some(size),
        None => None,
    }
}

/// `size` rounded up to a multiple of `align` (for `align > 0`).
pub open spec fn round_up(size: int, align: int) -> int {
    ((size + align - 1) / align) * align
}

/// The size and alignment of a value of type `ty`, as the C layout rules give
/// them: scalars have fixed layouts, a slice is a pointer and a length, an
/// enum is its tag alone or its tag and a payload pointer, an array is its
/// length times the element size rounded up to the element alignment, and a
/// struct places each field at the next multiple of the field's alignment and
/// rounds its size up to its largest field alignment. `None` where a layout is
/// missing, a size does not fit in `usize`, or nesting goes deeper than `depth`.
pub open spec fn alloc_layout(
    ty: Type,
    layouts: NameMap<StructLayout>,
    enum_layouts: NameMap<EnumLayout>,
    depth: nat,
) -> Option<(usize, usize)>
    decreases depth, 0nat, 0nat,
{
    match ty {
        Type::Bool => Some((1usize, 1usize)),
        Type::I32 | Type::F32 => Some((4usize, 4usize)),
        Type::String | Type::StringList | Type::Bytes => Some((8usize, 8usize)),
        Type::TypeParam { .. } => None,
        _ => if depth == 0 {
            None
        } else {
            match ty {
                Type::Slice { element } => match alloc_layout(*element, layouts, enum_layouts, (depth - 1) as nat) {
                    Some(_) => Some((16usize, 8usize)),
                    None => None,
                },
                Type::Enum { .. } | Type::EnumInstance { .. } => match enum_layouts.spec_get(ax_name_of(ty)) {
                    Some(layout) => Some(if layout.ty@ == "i32"@ { (4usize, 4usize) } else { (16usize, 8usize) }),
                    None => None,
                },
                Type::Array { element, length } => match alloc_layout(*element, layouts, enum_layouts, (depth - 1) as nat) {
                    Some((size, align)) => {
                        let stride = round_up(size as int, align as int);
                        if stride > usize::MAX || stride * length > usize::MAX {
                            None
                        } else {
                            Some(((stride * length) as usize, align))
                        }
                    },
                    None => None,
                },
                Type::Struct { .. } | Type::StructInstance { .. } => match layouts.spec_get(ax_name_of(ty)) {
                    Some(layout) => struct_layout_of(layout.fields@, layouts, enum_layouts, (depth - 1) as nat),
                    None => None,
                },
                _ => None,
            }
        },
    }
}

/// The end offset and largest alignment after placing the first `n` fields.
pub open spec fn fields_placed(
    fields: Seq<StructFieldLayout>,
    layouts: NameMap<StructLayout>,
    enum_layouts: NameMap<EnumLayout>,
    depth: nat,
    n: nat,
) -> Option<(usize, usize)>
    decreases depth, 1nat, n,
{
    if n == 0 {
        Some((0usize, 1usize))
    } else {
        match fields_placed(fields, layouts, enum_layouts, depth, (n - 1) as nat) {
            Some((end, max_align)) => match alloc_layout(fields[n - 1].ax_ty, layouts, enum_layouts, depth) {
                Some((size, align)) => {
                    let offset = round_up(end as int, align as int);
                    if offset > usize::MAX || offset + size > usize::MAX {
                        None
                    } else {
                        Some(((offset + size) as usize, if align > max_align { align } else { max_align }))
                    }
                },
                None => None,
            },
            None => None,
        }
    }
}

/// The size and alignment of a struct with these fields.
pub open spec fn struct_layout_of(
    fields: Seq<StructFieldLayout>,
    layouts: NameMap<StructLayout>,
    enum_layouts: NameMap<EnumLayout>,
    depth: nat,
) -> Option<(usize, usize)>
    decreases depth, 1nat, fields.len() + 1,
{
    match fields_placed(fields, layouts, enum_layouts, depth, fields.len()) {
        Some((end, max_align)) => {
            let total = round_up(end as int, max_align as int);
            if total > usize::MAX { None } else { Some((total as usize, max_align)) }
        },
        None => None,
    }
}

proof fn lemma_fields_placed_none(
    fields: Seq<StructFieldLayout>,
    layouts: NameMap<StructLayout>,
    enum_layouts: NameMap<EnumLayout>,
    depth: nat,
    k: nat,
    m: nat,
)
    requires
        k <= m,
        fields_placed(fields, layouts, enum_layouts, depth, k) is None,
    ensures
        fields_placed(fields, layouts, enum_layouts, depth, m) is None,
    decreases m - k,
{
    if k < m {
        lemma_fields_placed_none(fields, layouts, enum_layouts, depth, k, (m - 1) as nat);
    }
}

fn struct_alloc_layout(
    layout: &StructLayout,
    layouts: &NameMap<StructLayout>,
    enum_layouts: &NameMap<EnumLayout>,
    depth: u32,
) -> (r: Option<(usize, usize)>)
    ensures
        r matches Some((size, align)) ==> align >= 1 && size % align == 0,
        r matches Some((_, align)) ==> align == 1 || align == 4 || align == 8,
        layout.fields@.len() == 0 ==> r == Some((0usize, 1usize)),
        r == struct_layout_of(layout.fields@, *layouts, *enum_layouts, depth as nat),
    decreases depth, 2nat,
{
    let ghost fields = layout.fields@;
    let mut size: usize = 0;
    let mut max_align: usize = 1;
    let mut i: usize = 0;
    while i < layout.fields.len()
        invariant
            i <= layout.fields@.len(),
            fields == layout.fields@,
            max_align >= 1,
            max_align == 1 || max_align == 4 || max_align == 8,
            layout.fields@.len() == 0 ==> size == 0 && max_align == 1,
            fields_placed(fields, *layouts, *enum_layouts, depth as nat, i as nat) == Some((size, max_align)),
        decreases layout.fields@.len() - i,
    {
        let (field_size, field_align) = match llvm_alloc_layout(
            &layout.fields[i].ax_ty,
            layouts,
            enum_layouts,
            depth,
        ) {
            Some(parts) => parts,
            None => {
                proof {
                    lemma_fields_placed_none(fields, *layouts, *enum_layouts, depth as nat, (i + 1) as nat, fields.len());
                }
                return None;
            },
        };
        size = match align_to(size, field_align) {
            Some(v) => v,
            None => {
                proof {
                    lemma_fields_placed_none(fields, *layouts, *enum_layouts, depth as nat, (i + 1) as nat, fields.len());
                }
                return None;
            },
        };
        size = match size.checked_add(field_size) {
            Some(v) => v,
            None => {
                proof {
                    lemma_fields_placed_none(fields, *layouts, *enum_layouts, depth as nat, (i + 1) as nat, fields.len());
                }
                return None;
            },
        };
        if field_align > max_align {
            max_align = field_align;
        }
        i += 1;
    }
    proof {
        if fields.len() == 0 {
            assert(round_up(0, 1) == 0) by {
                assert(((0int + 1 - 1) / 1int) * 1int == 0int) by (nonlinear_arith);
            }
        }
    }
    match align_to(size, max_align) {
        Some(total) => Some((total, max_align)),
        None => None,
    }
}

/// The allocation size and alignment of a value of type `ty`, if it has a
/// native layout and its size fits in `usize` (nesting deeper than `depth`
/// gives `None`).
pub fn llvm_alloc_layout(
    ty: &Type,
    layouts: &NameMap<StructLayout>,
    enum_layouts: &NameMap<EnumLayout>,
    depth: u32,
) -> (r: Option<(usize, usize)>)
    ensures
        *ty is Bool ==> r == Some((1usize, 1usize)),
        *ty is I32 || *ty is F32 ==> r == Some((4usize, 4usize)),
        *ty is String || *ty is StringList ==> r == Some((8usize, 8usize)),
        *ty is TypeParam ==> r is None,
        r matches Some((size, align)) ==> align >= 1 && size % align == 0,
        r matches Some((_, align)) ==> align == 1 || align == 4 || align == 8,
        *ty is Bytes ==> r == Some((8usize, 8usize)),
        depth == 0 && !(*ty is Bool || *ty is I32 || *ty is F32 || *ty is String || *ty is StringList
            || *ty is Bytes) ==> r is None,
        *ty is Slice ==> (r is Some ==> r == Some((16usize, 8usize))),
        depth > 0 && (*ty is Enum || *ty is EnumInstance) ==> r == match enum_layouts.spec_get(ax_name_of(*ty)) {
            Some(layout) => Some(if layout.ty@ == "i32"@ { (4usize, 4usize) } else { (16usize, 8usize) }),
            None => None,
        },
        depth > 0 && (*ty is Struct || *ty is StructInstance) ==> (layouts.spec_get(ax_name_of(*ty)) is None
            ==> r is None),
        r == alloc_layout(*ty, *layouts, *enum_layouts, depth as nat),
    decreases depth, 1nat,
{
    match ty {
        Type::Bool => return Some((1, 1)),
        Type::I32 => return Some((4, 4)),
        Type::F32 => return Some((4, 4)),
        Type::String | Type::StringList => return Some((8, 8)),
        Type::Bytes => return Some((8, 8)),
        Type::TypeParam { .. } => return None,
        _ => {},
    }
    if depth == 0 {
        return None;
    }
    match ty {
        Type::Bool | Type::I32 | Type::F32 | Type::String | Type::StringList | Type::Bytes => None,
        Type::Slice { element } => match llvm_alloc_layout(element, layouts, enum_layouts, depth - 1) {
            Some(_) => Some((16, 8)),
            None => None,
        },
        Type::Enum { .. } | Type::EnumInstance { .. } => {
            let key = ax_type_name(ty);
            match enum_layouts.get(key.as_str()) {
                Some(layout) => {
                    if str_eq(layout.ty.as_str(), "i32") {
                        Some((4, 4))
                    } else {
                        Some((16, 8))
                    }
                },
                None => None,
            }
        },
        Type::Array { element, length } => {
            let (element_size, element_align) = match llvm_alloc_layout(
                element,
                layouts,
                enum_layouts,
                depth - 1,
            ) {
                Some(parts) => parts,
                None => return None,
            };
            let stride = match align_to(element_size, element_align) {
                Some(v) => v,
                None => return None,
            };
            proof {
                lemma_mul_mod_noop_left(stride as int, *length as int, element_align as int);
                assert(stride as int % element_align as int == 0);
                assert((stride as int % element_align as int) * (*length as int) == 0) by (nonlinear_arith)
                    requires
                        stride as int % element_align as int == 0;
                assert((stride as int * *length as int) % element_align as int == 0);
            }
            match stride.checked_mul(*length) {
                Some(total) => Some((total, element_align)),
                None => None,
            }
        },
        Type::Struct { .. } | Type::StructInstance { .. } => {
            let key = ax_type_name(ty);
            match layouts.get(key.as_str()) {
                Some(layout) => struct_alloc_layout(layout, layouts, enum_layouts, depth - 1),
                None => None,
            }
        },
        Type::TypeParam { .. } => None,
    }
}

/// `prefix` followed by `name` with every non-identifier character replaced by `_`.
pub open spec fn prefixed_type_symbol(prefix: Seq<char>, name: Seq<char>) -> Seq<char> {
    prefix + sanitize_chars(name)
}

/// The LLVM type name of a struct: `%ax_struct_` and the sanitised name.
pub fn llvm_struct_type_name(name: &str) -> (r: String)
    ensures
        r@ == prefixed_type_symbol("%ax_struct_"@, name@),
{
    let mut symbol = owned("%ax_struct_");
    push_sanitized(&mut symbol, name);
    symbol
}

/// The LLVM type name of the struct type `ty`.
pub fn llvm_struct_type_name_for_type(ty: &Type) -> (r: String)
    ensures
        r@ == prefixed_type_symbol("%ax_struct_"@, ax_name_of(*ty)),
{
    let name = ax_type_name(ty);
    llvm_struct_type_name(name.as_str())
}

/// The LLVM type name of an enum: `%ax_enum_` and the sanitised name.
pub fn llvm_enum_type_name(name: &str) -> (r: String)
    ensures
        r@ == prefixed_type_symbol("%ax_enum_"@, name@),
{
    let mut symbol = owned("%ax_enum_");
    push_sanitized(&mut symbol, name);
    symbol
}

/// The LLVM type name of the enum type `ty`.
pub fn llvm_enum_type_name_for_type(ty: &Type) -> (r: String)
    ensures
        r@ == prefixed_type_symbol("%ax_enum_"@, ax_name_of(*ty)),
{
    let name = ax_type_name(ty);
    llvm_enum_type_name(name.as_str())
}

/// The key of an enum type among the enum layouts: its source name.
pub fn enum_layout_key(ty: &Type) -> (r: String)
    ensures
        r@ == ax_name_of(*ty),
{
    ax_type_name(ty)
}

/// The key of a struct type among the struct layouts: its source name.
pub fn struct_layout_key(ty: &Type) -> (r: String)
    ensures
        r@ == ax_name_of(*ty),
{
    ax_type_name(ty)
}

/// The base name of an enum type, `<non-enum>` for any other type.
pub fn enum_base_name(ty: &Type) -> (r: &str)
    ensures
        ty matches Type::Enum { name } ==> r@ == name@,
        ty matches Type::EnumInstance { name, .. } ==> r@ == name@,
        !(ty is Enum || ty is EnumInstance) ==> r@ == "<non-enum>"@,
{
    match ty {
        Type::Enum { name } => name.as_str(),
        Type::EnumInstance { name, .. } => name.as_str(),
        _ => "<non-enum>",
    }
}

/// The text that formats an enum variant: `Enum.Variant`.
pub fn enum_formatter_label(enum_name: &str, variant: &str) -> (r: String)
    ensures
        r@ == enum_name@ + "."@ + variant@,
{
    let mut out = owned(enum_name);
    out.append(".");
    out.append(variant);
    out
}

/// The text that opens a formatted struct: `Name { `.
pub fn struct_formatter_prefix(struct_name: &str) -> (r: String)
    ensures
        r@ == struct_name@ + " { "@,
{
    let mut out = owned(struct_name);
    out.append(" { ");
    out
}

/// The text before a formatted field: `field: `.
pub fn struct_field_formatter_label(field_name: &str) -> (r: String)
    ensures
        r@ == field_name@ + ": "@,
{
    let mut out = owned(field_name);
    out.append(": ");
    out
}

/// The native symbol of a user function.
pub fn llvm_symbol(name: &str) -> (r: String)
    ensures
        r@ == crate::symbols::legacy_symbol(name@),
{
    crate::symbols::user_function(name)
}

/// The IEEE-754 double-precision bits of the single-precision value with bits
/// `bits`; widening is exact, and a NaN stays a (quiet) NaN.
pub open spec fn widened_f32_bits(bits: u32) -> u64 {
    let sign = (bits >> 31u32) as u64;
    let exponent = ((bits >> 23u32) & 0xffu32) as u64;
    let fraction = (bits & 0x7fffffu32) as u64;
    if exponent == 0xff {
        (sign << 63u64) | (0x7ffu64 << 52u64) | (fraction << 29u64) | (if fraction != 0 {
            1u64 << 51u64
        } else {
            0u64
        })
    } else if exponent == 0 {
        if fraction == 0 {
            sign << 63u64
        } else {
            let k = subnormal_shift(fraction);
            (sign << 63u64) | (((897 - k) as u64) << 52u64) | ((((fraction << (k as u64))
                & 0x7fffffu64)) << 29u64)
        }
    } else {
        (sign << 63u64) | (((exponent + 896) as u64) << 52u64) | (fraction << 29u64)
    }
}

/// The left shift that brings the leading one of a non-zero 23-bit fraction to
/// bit 23.
pub open spec fn subnormal_shift(fraction: u64) -> nat {
    if fraction == 0 || bit_length(fraction) >= 24 {
        0
    } else {
        (24 - bit_length(fraction)) as nat
    }
}

/// The number of significant bits of `v`.
pub open spec fn bit_length(v: u64) -> nat
    decreases v,
{
    if v == 0 {
        0
    } else {
        1 + bit_length(v / 2)
    }
}

fn subnormal_shift_exec(fraction: u64) -> (k: u64)
    requires
        0 < fraction < 0x800000,
    ensures
        k == subnormal_shift(fraction),
        1 <= k <= 23,
{
    proof {
        lemma_bit_length_bound(fraction);
    }
    let mut length: u64 = 0;
    let mut rest = fraction;
    while rest > 0
        invariant
            length + bit_length(rest) == bit_length(fraction),
            length <= 24,
            bit_length(fraction) <= 23,
        decreases rest,
    {
        rest = rest / 2;
        length += 1;
    }
    proof {
        lemma_bit_length_bound(fraction);
        lemma_bit_length_positive(fraction);
    }
    24 - length
}

proof fn lemma_bit_length_bound(v: u64)
    requires
        v < 0x800000,
    ensures
        bit_length(v) <= 23,
    decreases v,
{
    if v > 0 {
        reveal_with_fuel(pow2_spec, 24);
        lemma_bit_length_bound_general(v, 23);
    }
}

proof fn lemma_bit_length_bound_general(v: u64, n: nat)
    requires
        v < pow2_spec(n),
    ensures
        bit_length(v) <= n,
    decreases n,
{
    if v > 0 && n > 0 {
        lemma_bit_length_bound_general(v / 2, (n - 1) as nat);
    }
    if v > 0 && n == 0 {
        assert(pow2_spec(0) == 1);
    }
}

/// `2^n`.
pub open spec fn pow2_spec(n: nat) -> nat
    decreases n,
{
    if n == 0 {
        1
    } else {
        2 * pow2_spec((n - 1) as nat)
    }
}

proof fn lemma_bit_length_positive(v: u64)
    requires
        v > 0,
    ensures
        bit_length(v) >= 1,
{
}

/// The LLVM `float` literal of an `f32` with bits `bits`: the hexadecimal
/// double-precision bits, as LLVM writes float constants.
pub open spec fn float_literal(bits: u32) -> Seq<char> {
    "0x"@ + hex16(widened_f32_bits(bits))
}

/// The 16 upper-case hexadecimal digits of `v`.
pub open spec fn hex16(v: u64) -> Seq<char> {
    Seq::new(16, |i: int| hex_digit(((v >> ((60 - 4 * i) as u64)) & 0xfu64) as nat))
}

fn hex_char(d: u64) -> (c: char)
    requires
        d < 16,
    ensures
        c == hex_digit(d as nat),
{
    if d == 0 { '0' }
    else if d == 1 { '1' }
    else if d == 2 { '2' }
    else if d == 3 { '3' }
    else if d == 4 { '4' }
    else if d == 5 { '5' }
    else if d == 6 { '6' }
    else if d == 7 { '7' }
    else if d == 8 { '8' }
    else if d == 9 { '9' }
    else if d == 10 { 'A' }
    else if d == 11 { 'B' }
    else if d == 12 { 'C' }
    else if d == 13 { 'D' }
    else if d == 14 { 'E' }
    else { 'F' }
}

/// The LLVM literal of the `f32` value with bits `bits`.
pub fn llvm_float_literal(bits: u32) -> (r: String)
    ensures
        r@ == float_literal(bits),
{
    let sign: u64 = (bits >> 31u32) as u64;
    let exponent: u64 = ((bits >> 23u32) & 0xffu32) as u64;
    let fraction: u64 = (bits & 0x7fffffu32) as u64;
    assert(exponent <= 0xff) by (bit_vector)
        requires
            exponent == ((bits >> 23u32) & 0xffu32) as u64,
    ;
    assert(fraction < 0x800000) by (bit_vector)
        requires
            fraction == (bits & 0x7fffffu32) as u64,
    ;
    assert(sign <= 1) by (bit_vector)
        requires
            sign == (bits >> 31u32) as u64,
    ;
    let wide: u64 = if exponent == 0xff {
        (sign << 63u64) | (0x7ffu64 << 52u64) | (fraction << 29u64) | (if fraction != 0 {
            1u64 << 51u64
        } else {
            0u64
        })
    } else if exponent == 0 {
        if fraction == 0 {
            sign << 63u64
        } else {
            let k = subnormal_shift_exec(fraction);
            (sign << 63u64) | ((897 - k) << 52u64) | (((fraction << k) & 0x7fffffu64) << 29u64)
        }
    } else {
        (sign << 63u64) | ((exponent + 896) << 52u64) | (fraction << 29u64)
    };
    assert(wide == widened_f32_bits(bits));
    let mut out = owned("0x");
    proof {
        reveal_strlit("0x");
    }
    let mut i: u64 = 0;
    while i < 16
        invariant
            i <= 16,
            out@ == "0x"@ + hex16(wide).take(i as int),
        decreases 16 - i,
    {
        let shift: u64 = 60 - 4 * i;
        let digit: u64 = (wide >> shift) & 0xf;
        assert(digit < 16) by (bit_vector)
            requires
                digit == (wide >> shift) & 0xf,
        ;
        push_char(&mut out, hex_char(digit));
        assert(hex16(wide).take(i + 1) =~= hex16(wide).take(i as int).push(hex_digit(digit as nat)));
        i += 1;
    }
    assert(hex16(wide).take(16) =~= hex16(wide));
    out
}

/// Fails with a type mismatch unless `actual` is `expected`.
pub fn ensure_same_type(expected: &str, actual: &str) -> (r: Result<(), String>)
    ensures
        r is Ok <==> expected@ == actual@,
{
    if str_eq(expected, actual) {
        Ok(())
    } else {
        Err(concat(&["internal LLVM AOT type mismatch: expected ", expected, ", got ", actual]))
    }
}

/// Fails unless `value` is an AX `string` in a native string pointer.
pub fn ensure_string_argument(function: &str, name: &str, value: &LlvmValue) -> (r: Result<
    (),
    String,
>)
    ensures
        r is Ok <==> value.ty@ == abi::STRING_LLVM_TYPE@ && value.ax_ty matches Some(Type::String),
{
    let is_string = match &value.ax_ty {
        Some(Type::String) => true,
        _ => false,
    };
    if str_eq(value.ty.as_str(), abi::STRING_LLVM_TYPE) && is_string {
        Ok(())
    } else {
        Err(concat(&["`", function, "` argument `", name, "` must be `string` in LLVM AOT v0"]))
    }
}

/// Whether a value has an enum type.
pub fn is_enum_value(value: &LlvmValue) -> (r: bool)
    ensures
        r == (value.ax_ty matches Some(t) && (t is Enum || t is EnumInstance)),
{
    match &value.ax_ty {
        Some(Type::Enum { .. }) | Some(Type::EnumInstance { .. }) => true,
        _ => false,
    }
}

/// Whether the native equality comparator handles values of type `ty`.
pub fn payload_equality_supported(
    ty: &Type,
    layouts: &NameMap<StructLayout>,
    enum_layouts: &NameMap<EnumLayout>,
    depth: u32,
) -> (r: bool)
    ensures
        *ty is Bool || *ty is I32 || *ty is F32 || *ty is String ==> r,
        *ty is StringList || *ty is TypeParam || *ty is Bytes ==> !r,
    decreases depth,
{
    match ty {
        Type::Bool | Type::I32 | Type::F32 | Type::String => true,
        Type::StringList | Type::TypeParam { .. } | Type::Bytes => false,
        _ => {
            if depth == 0 {
                return false;
            }
            match ty {
                Type::Array { element, .. } | Type::Slice { element } => payload_equality_supported(
                    element,
                    layouts,
                    enum_layouts,
                    depth - 1,
                ),
                Type::Struct { .. } | Type::StructInstance { .. } => {
                    let key = ax_type_name(ty);
                    match layouts.get(key.as_str()) {
                        Some(layout) => {
                            let mut i: usize = 0;
                            while i < layout.fields.len()
                                invariant
                                    i <= layout.fields@.len(),
                                    depth > 0,
                                    !(*ty is Bool || *ty is I32 || *ty is F32 || *ty is String),
                                decreases layout.fields@.len() - i,
                            {
                                if !payload_equality_supported(
                                    &layout.fields[i].ax_ty,
                                    layouts,
                                    enum_layouts,
                                    depth - 1,
                                ) {
                                    return false;
                                }
                                i += 1;
                            }
                            true
                        },
                        None => false,
                    }
                },
                _ => {
                    let key = ax_type_name(ty);
                    match enum_layouts.get(key.as_str()) {
                        Some(layout) => {
                            let mut i: usize = 0;
                            while i < layout.variants.len()
                                invariant
                                    i <= layout.variants@.len(),
                                    depth > 0,
                                    !(*ty is Bool || *ty is I32 || *ty is F32 || *ty is String),
                                decreases layout.variants@.len() - i,
                            {
                                match &layout.variants[i].payload_ax_ty {
                                    Some(payload) => {
                                        if !payload_equality_supported(
                                            payload,
                                            layouts,
                                            enum_layouts,
                                            depth - 1,
                                        ) {
                                            return false;
                                        }
                                    },
                                    None => {},
                                }
                                i += 1;
                            }
                            true
                        },
                        None => false,
                    }
                },
            }
        },
    }
}

/// Whether a pattern binds a name.
pub open spec fn pattern_binds(pattern: MatchPattern) -> bool
    decreases pattern,
{
    match pattern {
        MatchPattern::Binding { .. } => true,
        MatchPattern::EnumVariant { payload, .. } => payload matches Some(
            EnumVariantPayloadPattern::Binding { .. },
        ),
        MatchPattern::Struct { fields, .. } => fields@.len() > 0,
        MatchPattern::Or { alternatives } => exists|i: int|
            0 <= i < alternatives@.len() && pattern_binds(#[trigger] alternatives@[i]),
        _ => false,
    }
}

/// Whether a pattern binds a name.
pub fn match_pattern_contains_binding(pattern: &MatchPattern) -> (r: bool)
    ensures
        r == pattern_binds(*pattern),
    decreases pattern, 1nat,
{
    match pattern {
        MatchPattern::Binding { .. } => true,
        MatchPattern::EnumVariant { payload, .. } => match payload {
            Some(EnumVariantPayloadPattern::Binding { .. }) => true,
            _ => false,
        },
        MatchPattern::Struct { fields, .. } => fields.len() > 0,
        MatchPattern::Or { alternatives } => any_pattern_binds(alternatives),
        _ => false,
    }
}

/// Whether one of the patterns binds a name.
fn any_pattern_binds(alternatives: &Vec<MatchPattern>) -> (r: bool)
    ensures
        r == exists|i: int| 0 <= i < alternatives@.len() && pattern_binds(#[trigger] alternatives@[i]),
    decreases alternatives, 0nat,
{
    let mut i: usize = 0;
    while i < alternatives.len()
        invariant
            i <= alternatives@.len(),
            forall|j: int| 0 <= j < i ==> !pattern_binds(#[trigger] alternatives@[j]),
        decreases alternatives@.len() - i,
    {
        assert(decreases_to!(alternatives => alternatives@[i as int]));
        if match_pattern_contains_binding(&alternatives[i]) {
            return true;
        }
        i += 1;
    }
    false
}

/// The source spelling of a binary operator.
pub open spec fn binary_op_spelling(op: BinaryOp) -> Seq<char> {
    match op {
        BinaryOp::LogicalOr => "||"@,
        BinaryOp::LogicalAnd => "&&"@,
        BinaryOp::Add => "+"@,
        BinaryOp::Subtract => "-"@,
        BinaryOp::Multiply => "*"@,
        BinaryOp::Divide => "/"@,
        BinaryOp::Remainder => "%"@,
        BinaryOp::Equal => "=="@,
        BinaryOp::NotEqual => "!="@,
        BinaryOp::Less => "<"@,
        BinaryOp::LessEqual => "<="@,
        BinaryOp::Greater => ">"@,
        BinaryOp::GreaterEqual => ">="@,
    }
}

/// The source spelling of a binary operator.
pub fn llvm_binary_op_name(op: BinaryOp) -> (r: &'static str)
    ensures
        r@ == binary_op_spelling(op),
{
    match op {
        BinaryOp::LogicalOr => "||",
        BinaryOp::LogicalAnd => "&&",
        BinaryOp::Add => "+",
        BinaryOp::Subtract => "-",
        BinaryOp::Multiply => "*",
        BinaryOp::Divide => "/",
        BinaryOp::Remainder => "%",
        BinaryOp::Equal => "==",
        BinaryOp::NotEqual => "!=",
        BinaryOp::Less => "<",
        BinaryOp::LessEqual => "<=",
        BinaryOp::Greater => ">",
        BinaryOp::GreaterEqual => ">=",
    }
}

/// The string literals of a module: those of the program, then the texts the
/// struct and enum formatters need, each under a fresh `@.ax_str_N` symbol in
/// the order they are first met.
pub fn collect_string_literals(
    program: &Program,
    layouts: &NameMap<StructLayout>,
    enum_layouts: &NameMap<EnumLayout>,
) -> (r: Result<NameMap<StringLiteral>, String>)
    ensures
        r is Ok == intern_fits(Map::empty(), 0, module_strings(*program, *layouts, *enum_layouts)),
        r matches Ok(strings) ==> literal_table(strings) == intern(
            Map::empty(),
            0,
            module_strings(*program, *layouts, *enum_layouts),
        ).0,
{
    let mut strings: NameMap<StringLiteral> = NameMap::new();
    let mut next_id: usize = 0;
    let ghost program_part = items_strings(program.items@);
    let ghost composite_part = composite_formatter_strings(*layouts);
    let ghost enum_part = enum_formatter_strings(*enum_layouts);
    proof {
        assert(literal_table(strings) =~= Map::empty());
        lemma_intern_concat(Map::empty(), 0, program_part + composite_part, enum_part);
        lemma_intern_concat(Map::empty(), 0, program_part, composite_part);
    }
    collect_items_string_literals(&program.items, &mut strings, &mut next_id)?;
    collect_composite_formatter_string_literals(layouts, &mut strings, &mut next_id)?;
    collect_enum_formatter_string_literals(enum_layouts, &mut strings, &mut next_id)?;
    Ok(strings)
}

/// Interning `seq![value] + rest` is interning `value`, then `rest`.
pub proof fn lemma_intern_step(
    table: Map<Seq<char>, (Seq<char>, nat, Seq<char>)>,
    id: nat,
    value: Seq<char>,
    rest: Seq<Seq<char>>,
)
    ensures
        intern(table, id, seq![value] + rest) == intern(
            intern_one(table, id, value).0,
            intern_one(table, id, value).1,
            rest,
        ),
        intern_fits(table, id, seq![value] + rest) == (fits_one(table, id, value) && intern_fits(
            intern_one(table, id, value).0,
            intern_one(table, id, value).1,
            rest,
        )),
{
    assert((seq![value] + rest)[0] == value);
    assert((seq![value] + rest).drop_first() =~= rest);
}

/// Interning nothing changes nothing.
pub proof fn lemma_intern_empty(table: Map<Seq<char>, (Seq<char>, nat, Seq<char>)>, id: nat, values: Seq<Seq<char>>)
    requires
        values.len() == 0,
    ensures
        intern(table, id, values) == (table, id),
        intern_fits(table, id, values),
{
}

fn collect_items_string_literals(
    items: &Vec<Item>,
    strings: &mut NameMap<StringLiteral>,
    next_id: &mut usize,
) -> (r: Result<(), String>)
    ensures
        r is Ok == intern_fits(literal_table(*old(strings)), *old(next_id) as nat, items_strings(items@)),
        r is Ok ==> (literal_table(*final(strings)), *final(next_id) as nat) == intern(
            literal_table(*old(strings)),
            *old(next_id) as nat,
            items_strings(items@),
        ),
{
    let mut i: usize = 0;
    assert(items@.skip(0) =~= items@);
    while i < items.len()
        invariant
            i <= items@.len(),
            intern(literal_table(*old(strings)), *old(next_id) as nat, items_strings(items@)) == intern(
                literal_table(*strings),
                *next_id as nat,
                items_strings(items@.skip(i as int)),
            ),
            intern_fits(literal_table(*old(strings)), *old(next_id) as nat, items_strings(items@)) == intern_fits(
                literal_table(*strings),
                *next_id as nat,
                items_strings(items@.skip(i as int)),
            ),
        decreases items@.len() - i,
    {
        assert(items@.skip(i as int).drop_first() =~= items@.skip(i + 1));
        proof {
            lemma_intern_concat(
                literal_table(*strings),
                *next_id as nat,
                item_strings(items@[i as int]),
                items_strings(items@.skip(i + 1)),
            );
        }
        match &items[i] {
            Item::Function(function) => {
                collect_blocks_string_literals(&function.blocks, strings, next_id)?;
            },
            Item::Const { value, .. } => {
                collect_expr_string_literals(value, strings, next_id)?;
            },
            Item::Struct { .. } | Item::Enum { .. } => {},
        }
        i += 1;
    }
    proof {
        lemma_intern_empty(literal_table(*strings), *next_id as nat, items_strings(items@.skip(i as int)));
    }
    Ok(())
}

fn collect_blocks_string_literals(
    blocks: &Vec<BasicBlock>,
    strings: &mut NameMap<StringLiteral>,
    next_id: &mut usize,
) -> (r: Result<(), String>)
    ensures
        r is Ok == intern_fits(literal_table(*old(strings)), *old(next_id) as nat, blocks_strings(blocks@)),
        r is Ok ==> (literal_table(*final(strings)), *final(next_id) as nat) == intern(
            literal_table(*old(strings)),
            *old(next_id) as nat,
            blocks_strings(blocks@),
        ),
{
    let mut b: usize = 0;
    assert(blocks@.skip(0) =~= blocks@);
    while b < blocks.len()
        invariant
            b <= blocks@.len(),
            intern(literal_table(*old(strings)), *old(next_id) as nat, blocks_strings(blocks@)) == intern(
                literal_table(*strings),
                *next_id as nat,
                blocks_strings(blocks@.skip(b as int)),
            ),
            intern_fits(literal_table(*old(strings)), *old(next_id) as nat, blocks_strings(blocks@)) == intern_fits(
                literal_table(*strings),
                *next_id as nat,
                blocks_strings(blocks@.skip(b as int)),
            ),
        decreases blocks@.len() - b,
    {
        let block = &blocks[b];
        assert(blocks@.skip(b as int).drop_first() =~= blocks@.skip(b + 1));
        proof {
            lemma_intern_concat(
                literal_table(*strings),
                *next_id as nat,
                block_strings(*block),
                blocks_strings(blocks@.skip(b + 1)),
            );
            lemma_intern_concat(
                literal_table(*strings),
                *next_id as nat,
                statements_strings(block.statements@),
                terminator_strings(block.terminator),
            );
        }
        collect_statements_string_literals(&block.statements, strings, next_id)?;
        collect_terminator_string_literals(&block.terminator, strings, next_id)?;
        b += 1;
    }
    proof {
        lemma_intern_empty(literal_table(*strings), *next_id as nat, blocks_strings(blocks@.skip(b as int)));
    }
    Ok(())
}

/// Adds the texts of the array, slice and struct formatters.
pub fn collect_composite_formatter_string_literals(
    layouts: &NameMap<StructLayout>,
    strings: &mut NameMap<StringLiteral>,
    next_id: &mut usize,
) -> (r: Result<(), String>)
    ensures
        r is Ok == intern_fits(
            literal_table(*old(strings)),
            *old(next_id) as nat,
            composite_formatter_strings(*layouts),
        ),
        r is Ok ==> (literal_table(*final(strings)), *final(next_id) as nat) == intern(
            literal_table(*old(strings)),
            *old(next_id) as nat,
            composite_formatter_strings(*layouts),
        ),
{
    let ghost entries = layouts.entries();
    let ghost t0 = literal_table(*strings);
    let ghost n0 = *next_id as nat;
    let ghost structs = structs_formatter_strings(entries);
    proof {
        assert(composite_formatter_strings(*layouts) =~= seq!["["@] + (seq!["]"@] + (seq![", "@] + (seq![" }"@]
            + structs))));
        lemma_intern_step(t0, n0, "["@, seq!["]"@] + (seq![", "@] + (seq![" }"@] + structs)));
    }
    insert_string_literal("[", strings, next_id)?;
    proof {
        lemma_intern_step(literal_table(*strings), *next_id as nat, "]"@, seq![", "@] + (seq![" }"@] + structs));
    }
    insert_string_literal("]", strings, next_id)?;
    proof {
        lemma_intern_step(literal_table(*strings), *next_id as nat, ", "@, seq![" }"@] + structs);
    }
    insert_string_literal(", ", strings, next_id)?;
    proof {
        lemma_intern_step(literal_table(*strings), *next_id as nat, " }"@, structs);
    }
    insert_string_literal(" }", strings, next_id)?;
    let mut i: usize = 0;
    assert(entries.skip(0) =~= entries);
    while i < layouts.len()
        invariant
            i <= entries.len(),
            entries == layouts.entries(),
            intern(literal_table(*old(strings)), *old(next_id) as nat, composite_formatter_strings(*layouts)) == intern(
                literal_table(*strings),
                *next_id as nat,
                structs_formatter_strings(entries.skip(i as int)),
            ),
            intern_fits(literal_table(*old(strings)), *old(next_id) as nat, composite_formatter_strings(*layouts)) == intern_fits(
                literal_table(*strings),
                *next_id as nat,
                structs_formatter_strings(entries.skip(i as int)),
            ),
        decreases entries.len() - i,
    {
        let (_, layout) = layouts.entry_at(i);
        assert(entries.skip(i as int).drop_first() =~= entries.skip(i + 1));
        proof {
            lemma_intern_concat(
                literal_table(*strings),
                *next_id as nat,
                struct_formatter_strings(*layout),
                structs_formatter_strings(entries.skip(i + 1)),
            );
        }
        collect_struct_formatter_string_literals(layout, strings, next_id)?;
        i += 1;
    }
    proof {
        lemma_intern_empty(literal_table(*strings), *next_id as nat, structs_formatter_strings(entries.skip(i as int)));
    }
    Ok(())
}

fn collect_struct_formatter_string_literals(
    layout: &StructLayout,
    strings: &mut NameMap<StringLiteral>,
    next_id: &mut usize,
) -> (r: Result<(), String>)
    ensures
        r is Ok == intern_fits(literal_table(*old(strings)), *old(next_id) as nat, struct_formatter_strings(*layout)),
        r is Ok ==> (literal_table(*final(strings)), *final(next_id) as nat) == intern(
            literal_table(*old(strings)),
            *old(next_id) as nat,
            struct_formatter_strings(*layout),
        ),
{
    let ghost fields = layout.fields@;
    let prefix = struct_formatter_prefix(layout.name.as_str());
    proof {
        lemma_intern_step(literal_table(*strings), *next_id as nat, prefix@, field_labels(fields));
    }
    insert_string_literal(prefix.as_str(), strings, next_id)?;
    let mut f: usize = 0;
    assert(fields.skip(0) =~= fields);
    while f < layout.fields.len()
        invariant
            f <= fields.len(),
            fields == layout.fields@,
            intern(literal_table(*old(strings)), *old(next_id) as nat, struct_formatter_strings(*layout)) == intern(
                literal_table(*strings),
                *next_id as nat,
                field_labels(fields.skip(f as int)),
            ),
            intern_fits(literal_table(*old(strings)), *old(next_id) as nat, struct_formatter_strings(*layout)) == intern_fits(
                literal_table(*strings),
                *next_id as nat,
                field_labels(fields.skip(f as int)),
            ),
        decreases fields.len() - f,
    {
        let label = struct_field_formatter_label(layout.fields[f].name.as_str());
        assert(fields.skip(f as int).drop_first() =~= fields.skip(f + 1));
        proof {
            lemma_intern_step(literal_table(*strings), *next_id as nat, label@, field_labels(fields.skip(f + 1)));
        }
        insert_string_literal(label.as_str(), strings, next_id)?;
        f += 1;
    }
    proof {
        lemma_intern_empty(literal_table(*strings), *next_id as nat, field_labels(fields.skip(f as int)));
    }
    Ok(())
}

/// Adds the texts of the enum formatters, when there are enums.
pub fn collect_enum_formatter_string_literals(
    enum_layouts: &NameMap<EnumLayout>,
    strings: &mut NameMap<StringLiteral>,
    next_id: &mut usize,
) -> (r: Result<(), String>)
    ensures
        r is Ok == intern_fits(
            literal_table(*old(strings)),
            *old(next_id) as nat,
            enum_formatter_strings(*enum_layouts),
        ),
        r is Ok ==> (literal_table(*final(strings)), *final(next_id) as nat) == intern(
            literal_table(*old(strings)),
            *old(next_id) as nat,
            enum_formatter_strings(*enum_layouts),
        ),
{
    let ghost entries = enum_layouts.entries();
    if enum_layouts.is_empty() {
        proof {
            lemma_intern_empty(literal_table(*strings), *next_id as nat, enum_formatter_strings(*enum_layouts));
        }
        return Ok(());
    }
    let ghost enums = enums_formatter_strings(entries);
    proof {
        assert(enum_formatter_strings(*enum_layouts) =~= seq!["("@] + (seq![")"@] + enums));
        lemma_intern_step(literal_table(*strings), *next_id as nat, "("@, seq![")"@] + enums);
    }
    insert_string_literal("(", strings, next_id)?;
    proof {
        lemma_intern_step(literal_table(*strings), *next_id as nat, ")"@, enums);
    }
    insert_string_literal(")", strings, next_id)?;
    let mut i: usize = 0;
    assert(entries.skip(0) =~= entries);
    while i < enum_layouts.len()
        invariant
            i <= entries.len(),
            entries == enum_layouts.entries(),
            intern(literal_table(*old(strings)), *old(next_id) as nat, enum_formatter_strings(*enum_layouts)) == intern(
                literal_table(*strings),
                *next_id as nat,
                enums_formatter_strings(entries.skip(i as int)),
            ),
            intern_fits(literal_table(*old(strings)), *old(next_id) as nat, enum_formatter_strings(*enum_layouts)) == intern_fits(
                literal_table(*strings),
                *next_id as nat,
                enums_formatter_strings(entries.skip(i as int)),
            ),
        decreases entries.len() - i,
    {
        let (_, layout) = enum_layouts.entry_at(i);
        assert(entries.skip(i as int).drop_first() =~= entries.skip(i + 1));
        proof {
            lemma_intern_concat(
                literal_table(*strings),
                *next_id as nat,
                variant_labels(layout.name@, layout.variants@),
                enums_formatter_strings(entries.skip(i + 1)),
            );
        }
        collect_variant_label_string_literals(layout, strings, next_id)?;
        i += 1;
    }
    proof {
        lemma_intern_empty(literal_table(*strings), *next_id as nat, enums_formatter_strings(entries.skip(i as int)));
    }
    Ok(())
}

fn collect_variant_label_string_literals(
    layout: &EnumLayout,
    strings: &mut NameMap<StringLiteral>,
    next_id: &mut usize,
) -> (r: Result<(), String>)
    ensures
        r is Ok == intern_fits(
            literal_table(*old(strings)),
            *old(next_id) as nat,
            variant_labels(layout.name@, layout.variants@),
        ),
        r is Ok ==> (literal_table(*final(strings)), *final(next_id) as nat) == intern(
            literal_table(*old(strings)),
            *old(next_id) as nat,
            variant_labels(layout.name@, layout.variants@),
        ),
{
    let ghost variants = layout.variants@;
    let mut v: usize = 0;
    assert(variants.skip(0) =~= variants);
    while v < layout.variants.len()
        invariant
            v <= variants.len(),
            variants == layout.variants@,
            intern(literal_table(*old(strings)), *old(next_id) as nat, variant_labels(layout.name@, variants)) == intern(
                literal_table(*strings),
                *next_id as nat,
                variant_labels(layout.name@, variants.skip(v as int)),
            ),
            intern_fits(literal_table(*old(strings)), *old(next_id) as nat, variant_labels(layout.name@, variants)) == intern_fits(
                literal_table(*strings),
                *next_id as nat,
                variant_labels(layout.name@, variants.skip(v as int)),
            ),
        decreases variants.len() - v,
    {
        let label = enum_formatter_label(layout.name.as_str(), layout.variants[v].name.as_str());
        assert(variants.skip(v as int).drop_first() =~= variants.skip(v + 1));
        proof {
            lemma_intern_step(
                literal_table(*strings),
                *next_id as nat,
                label@,
                variant_labels(layout.name@, variants.skip(v + 1)),
            );
        }
        insert_string_literal(label.as_str(), strings, next_id)?;
        v += 1;
    }
    proof {
        lemma_intern_empty(literal_table(*strings), *next_id as nat, variant_labels(layout.name@, variants.skip(v as int)));
    }
    Ok(())
}

/// Adds `value` under the next `@.ax_str_N` symbol unless it is already there.
pub fn insert_string_literal(
    value: &str,
    strings: &mut NameMap<StringLiteral>,
    next_id: &mut usize,
) -> (r: Result<(), String>)
    ensures
        r is Ok == fits_one(literal_table(*old(strings)), *old(next_id) as nat, value@),
        r is Ok ==> (literal_table(*final(strings)), *final(next_id) as nat) == intern_one(
            literal_table(*old(strings)),
            *old(next_id) as nat,
            value@,
        ),
{
    if strings.contains_key(value) {
        return Ok(());
    }
    let id = *next_id;
    if id == usize::MAX {
        return Err(owned("internal LLVM AOT error: too many string literals"));
    }
    let bytes = value.as_bytes();
    if bytes.len() == usize::MAX {
        return Err(owned("internal LLVM AOT error: string literal is too long"));
    }
    let mut symbol = owned("@.ax_str_");
    push_decimal_usize(&mut symbol, id);
    *next_id = id + 1;
    let literal = StringLiteral { symbol, len: bytes.len() + 1, encoded: encode_llvm_c_string(value) };
    let ghost old_table = literal_table(*strings);
    strings.insert(owned(value), literal);
    assert(literal_table(*strings) =~= old_table.insert(value@, literal_global(value@, id as nat)));
    Ok(())
}

fn collect_statements_string_literals(
    statements: &Vec<Statement>,
    strings: &mut NameMap<StringLiteral>,
    next_id: &mut usize,
) -> (r: Result<(), String>)
    ensures
        r is Ok == intern_fits(literal_table(*old(strings)), *old(next_id) as nat, statements_strings(statements@)),
        r is Ok ==> (literal_table(*final(strings)), *final(next_id) as nat) == intern(
            literal_table(*old(strings)),
            *old(next_id) as nat,
            statements_strings(statements@),
        ),
    decreases statements, 0nat,
{
    let mut i: usize = 0;
    assert(statements@.skip(0) =~= statements@);
    while i < statements.len()
        invariant
            i <= statements@.len(),
            intern(literal_table(*old(strings)), *old(next_id) as nat, statements_strings(statements@)) == intern(
                literal_table(*strings),
                *next_id as nat,
                statements_strings(statements@.skip(i as int)),
            ),
            intern_fits(literal_table(*old(strings)), *old(next_id) as nat, statements_strings(statements@)) == intern_fits(
                literal_table(*strings),
                *next_id as nat,
                statements_strings(statements@.skip(i as int)),
            ),
        decreases statements@.len() - i,
    {
        assert(decreases_to!(statements => statements@[i as int]));
        assert(statements@.skip(i as int).drop_first() =~= statements@.skip(i + 1));
        proof {
            lemma_intern_concat(
                literal_table(*strings),
                *next_id as nat,
                statement_strings(statements@[i as int]),
                statements_strings(statements@.skip(i + 1)),
            );
        }
        collect_statement_string_literals(&statements[i], strings, next_id)?;
        i += 1;
    }
    proof {
        lemma_intern_empty(literal_table(*strings), *next_id as nat, statements_strings(statements@.skip(i as int)));
    }
    Ok(())
}

/// Adds the string literals of a statement.
pub fn collect_statement_string_literals(
    statement: &Statement,
    strings: &mut NameMap<StringLiteral>,
    next_id: &mut usize,
) -> (r: Result<(), String>)
    ensures
        r is Ok == intern_fits(literal_table(*old(strings)), *old(next_id) as nat, statement_strings(*statement)),
        r is Ok ==> (literal_table(*final(strings)), *final(next_id) as nat) == intern(
            literal_table(*old(strings)),
            *old(next_id) as nat,
            statement_strings(*statement),
        ),
    decreases statement, 1nat,
{
    match statement {
        Statement::Let { initializer, .. } => collect_expr_string_literals(initializer, strings, next_id),
        Statement::Eval { expr } => collect_expr_string_literals(expr, strings, next_id),
        Statement::Assign { target, value } => {
            proof {
                lemma_intern_concat(
                    literal_table(*strings),
                    *next_id as nat,
                    place_strings(*target),
                    expr_strings(*value),
                );
            }
            collect_place_string_literals(target, strings, next_id)?;
            collect_expr_string_literals(value, strings, next_id)
        },
    }
}

/// Adds the string literals of a terminator.
pub fn collect_terminator_string_literals(
    terminator: &Terminator,
    strings: &mut NameMap<StringLiteral>,
    next_id: &mut usize,
) -> (r: Result<(), String>)
    ensures
        r is Ok == intern_fits(literal_table(*old(strings)), *old(next_id) as nat, terminator_strings(*terminator)),
        r is Ok ==> (literal_table(*final(strings)), *final(next_id) as nat) == intern(
            literal_table(*old(strings)),
            *old(next_id) as nat,
            terminator_strings(*terminator),
        ),
{
    match terminator {
        Terminator::Branch { condition, .. } => collect_expr_string_literals(condition, strings, next_id),
        Terminator::Return { value } => collect_expr_string_literals(value, strings, next_id),
        Terminator::Goto { .. } | Terminator::Unreachable => {
            proof {
                lemma_intern_empty(literal_table(*strings), *next_id as nat, terminator_strings(*terminator));
            }
            Ok(())
        },
    }
}

/// Adds the string literals of an assignment target.
pub fn collect_place_string_literals(
    place: &Place,
    strings: &mut NameMap<StringLiteral>,
    next_id: &mut usize,
) -> (r: Result<(), String>)
    ensures
        r is Ok == intern_fits(literal_table(*old(strings)), *old(next_id) as nat, place_strings(*place)),
        r is Ok ==> (literal_table(*final(strings)), *final(next_id) as nat) == intern(
            literal_table(*old(strings)),
            *old(next_id) as nat,
            place_strings(*place),
        ),
    decreases place, 1nat,
{
    match place {
        Place::Local { .. } => {
            proof {
                lemma_intern_empty(literal_table(*strings), *next_id as nat, place_strings(*place));
            }
            Ok(())
        },
        Place::Field { base, .. } => collect_place_string_literals(base, strings, next_id),
        Place::Index { base, index } => {
            proof {
                lemma_intern_concat(
                    literal_table(*strings),
                    *next_id as nat,
                    place_strings(**base),
                    expr_strings(**index),
                );
            }
            collect_place_string_literals(base, strings, next_id)?;
            collect_expr_string_literals(index, strings, next_id)
        },
    }
}

fn collect_exprs_string_literals(
    exprs: &Vec<Expr>,
    strings: &mut NameMap<StringLiteral>,
    next_id: &mut usize,
) -> (r: Result<(), String>)
    ensures
        r is Ok == intern_fits(literal_table(*old(strings)), *old(next_id) as nat, exprs_strings(exprs@)),
        r is Ok ==> (literal_table(*final(strings)), *final(next_id) as nat) == intern(
            literal_table(*old(strings)),
            *old(next_id) as nat,
            exprs_strings(exprs@),
        ),
    decreases exprs, 0nat,
{
    let mut i: usize = 0;
    assert(exprs@.skip(0) =~= exprs@);
    while i < exprs.len()
        invariant
            i <= exprs@.len(),
            intern(literal_table(*old(strings)), *old(next_id) as nat, exprs_strings(exprs@)) == intern(
                literal_table(*strings),
                *next_id as nat,
                exprs_strings(exprs@.skip(i as int)),
            ),
            intern_fits(literal_table(*old(strings)), *old(next_id) as nat, exprs_strings(exprs@)) == intern_fits(
                literal_table(*strings),
                *next_id as nat,
                exprs_strings(exprs@.skip(i as int)),
            ),
        decreases exprs@.len() - i,
    {
        assert(decreases_to!(exprs => exprs@[i as int]));
        assert(exprs@.skip(i as int).drop_first() =~= exprs@.skip(i + 1));
        proof {
            lemma_intern_concat(
                literal_table(*strings),
                *next_id as nat,
                expr_strings(exprs@[i as int]),
                exprs_strings(exprs@.skip(i + 1)),
            );
        }
        collect_expr_string_literals(&exprs[i], strings, next_id)?;
        i += 1;
    }
    proof {
        lemma_intern_empty(literal_table(*strings), *next_id as nat, exprs_strings(exprs@.skip(i as int)));
    }
    Ok(())
}

fn collect_fields_string_literals(
    fields: &Vec<StructLiteralField>,
    strings: &mut NameMap<StringLiteral>,
    next_id: &mut usize,
) -> (r: Result<(), String>)
    ensures
        r is Ok == intern_fits(literal_table(*old(strings)), *old(next_id) as nat, fields_strings(fields@)),
        r is Ok ==> (literal_table(*final(strings)), *final(next_id) as nat) == intern(
            literal_table(*old(strings)),
            *old(next_id) as nat,
            fields_strings(fields@),
        ),
    decreases fields, 0nat,
{
    let mut i: usize = 0;
    assert(fields@.skip(0) =~= fields@);
    while i < fields.len()
        invariant
            i <= fields@.len(),
            intern(literal_table(*old(strings)), *old(next_id) as nat, fields_strings(fields@)) == intern(
                literal_table(*strings),
                *next_id as nat,
                fields_strings(fields@.skip(i as int)),
            ),
            intern_fits(literal_table(*old(strings)), *old(next_id) as nat, fields_strings(fields@)) == intern_fits(
                literal_table(*strings),
                *next_id as nat,
                fields_strings(fields@.skip(i as int)),
            ),
        decreases fields@.len() - i,
    {
        assert(decreases_to!(fields => fields@[i as int]));
        assert(decreases_to!(fields@[i as int] => fields@[i as int].value));
        assert(fields@.skip(i as int).drop_first() =~= fields@.skip(i + 1));
        proof {
            lemma_intern_concat(
                literal_table(*strings),
                *next_id as nat,
                expr_strings(fields@[i as int].value),
                fields_strings(fields@.skip(i + 1)),
            );
        }
        collect_expr_string_literals(&fields[i].value, strings, next_id)?;
        i += 1;
    }
    proof {
        lemma_intern_empty(literal_table(*strings), *next_id as nat, fields_strings(fields@.skip(i as int)));
    }
    Ok(())
}

fn collect_arm_string_literals(
    arm: &MatchExprArm,
    strings: &mut NameMap<StringLiteral>,
    next_id: &mut usize,
) -> (r: Result<(), String>)
    ensures
        r is Ok == intern_fits(literal_table(*old(strings)), *old(next_id) as nat, arm_strings(*arm)),
        r is Ok ==> (literal_table(*final(strings)), *final(next_id) as nat) == intern(
            literal_table(*old(strings)),
            *old(next_id) as nat,
            arm_strings(*arm),
        ),
    decreases arm, 0nat,
{
    let ghost guard_part = guard_strings(arm.guard);
    proof {
        lemma_intern_concat(
            literal_table(*strings),
            *next_id as nat,
            pattern_strings(arm.pattern) + guard_part,
            expr_strings(arm.value),
        );
        lemma_intern_concat(literal_table(*strings), *next_id as nat, pattern_strings(arm.pattern), guard_part);
    }
    collect_match_pattern_string_literals(&arm.pattern, strings, next_id)?;
    match &arm.guard {
        Some(guard) => collect_expr_string_literals(guard, strings, next_id)?,
        None => {
            proof {
                lemma_intern_empty(literal_table(*strings), *next_id as nat, guard_part);
            }
        },
    }
    collect_expr_string_literals(&arm.value, strings, next_id)
}

fn collect_arms_string_literals(
    arms: &Vec<MatchExprArm>,
    strings: &mut NameMap<StringLiteral>,
    next_id: &mut usize,
) -> (r: Result<(), String>)
    ensures
        r is Ok == intern_fits(literal_table(*old(strings)), *old(next_id) as nat, arms_strings(arms@)),
        r is Ok ==> (literal_table(*final(strings)), *final(next_id) as nat) == intern(
            literal_table(*old(strings)),
            *old(next_id) as nat,
            arms_strings(arms@),
        ),
    decreases arms, 1nat,
{
    let mut i: usize = 0;
    assert(arms@.skip(0) =~= arms@);
    while i < arms.len()
        invariant
            i <= arms@.len(),
            intern(literal_table(*old(strings)), *old(next_id) as nat, arms_strings(arms@)) == intern(
                literal_table(*strings),
                *next_id as nat,
                arms_strings(arms@.skip(i as int)),
            ),
            intern_fits(literal_table(*old(strings)), *old(next_id) as nat, arms_strings(arms@)) == intern_fits(
                literal_table(*strings),
                *next_id as nat,
                arms_strings(arms@.skip(i as int)),
            ),
        decreases arms@.len() - i,
    {
        assert(decreases_to!(arms => arms@[i as int]));
        assert(arms@.skip(i as int).drop_first() =~= arms@.skip(i + 1));
        proof {
            lemma_intern_concat(
                literal_table(*strings),
                *next_id as nat,
                arm_strings(arms@[i as int]),
                arms_strings(arms@.skip(i + 1)),
            );
        }
        collect_arm_string_literals(&arms[i], strings, next_id)?;
        i += 1;
    }
    proof {
        lemma_intern_empty(literal_table(*strings), *next_id as nat, arms_strings(arms@.skip(i as int)));
    }
    Ok(())
}

/// Adds the string literals of an expression, left to right.
pub fn collect_expr_string_literals(
    expr: &Expr,
    strings: &mut NameMap<StringLiteral>,
    next_id: &mut usize,
) -> (r: Result<(), String>)
    ensures
        r is Ok == intern_fits(literal_table(*old(strings)), *old(next_id) as nat, expr_strings(*expr)),
        r is Ok ==> (literal_table(*final(strings)), *final(next_id) as nat) == intern(
            literal_table(*old(strings)),
            *old(next_id) as nat,
            expr_strings(*expr),
        ),
    decreases expr, 2nat,
{
    let ghost t0 = literal_table(*strings);
    let ghost n0 = *next_id as nat;
    match expr {
        Expr::String { value } => {
            proof {
                lemma_intern_single(t0, n0, value@);
            }
            insert_string_literal(value.as_str(), strings, next_id)
        },
        Expr::Unary { expr: inner, .. } => collect_expr_string_literals(inner, strings, next_id),
        Expr::Try { expr: inner } => collect_expr_string_literals(inner, strings, next_id),
        Expr::EnumPayload { value } => collect_expr_string_literals(value, strings, next_id),
        Expr::Field { base, .. } => collect_expr_string_literals(base, strings, next_id),
        Expr::Binary { left, right, .. } => {
            proof {
                lemma_intern_concat(t0, n0, expr_strings(**left), expr_strings(**right));
            }
            collect_expr_string_literals(left, strings, next_id)?;
            collect_expr_string_literals(right, strings, next_id)
        },
        Expr::Call { arguments, .. } => collect_exprs_string_literals(arguments, strings, next_id),
        Expr::ArrayLiteral { elements } => collect_exprs_string_literals(elements, strings, next_id),
        Expr::StructLiteral { fields, .. } => collect_fields_string_literals(fields, strings, next_id),
        Expr::Block { statements, value } => {
            proof {
                lemma_intern_concat(t0, n0, statements_strings(statements@), expr_strings(**value));
            }
            collect_statements_string_literals(statements, strings, next_id)?;
            collect_expr_string_literals(value, strings, next_id)
        },
        Expr::Match { scrutinee, arms } => {
            proof {
                lemma_intern_concat(t0, n0, expr_strings(**scrutinee), arms_strings(arms@));
            }
            collect_expr_string_literals(scrutinee, strings, next_id)?;
            collect_arms_string_literals(arms, strings, next_id)
        },
        Expr::EnumVariant { payload, .. } => match payload {
            Some(payload) => collect_expr_string_literals(payload, strings, next_id),
            None => {
                proof {
                    lemma_intern_empty(t0, n0, expr_strings(*expr));
                }
                Ok(())
            },
        },
        Expr::MatchTest { scrutinee, pattern } => {
            proof {
                lemma_intern_concat(t0, n0, expr_strings(**scrutinee), pattern_strings(*pattern));
            }
            collect_expr_string_literals(scrutinee, strings, next_id)?;
            collect_match_pattern_string_literals(pattern, strings, next_id)
        },
        Expr::Index { base, index } => {
            proof {
                lemma_intern_concat(t0, n0, expr_strings(**base), expr_strings(**index));
            }
            collect_expr_string_literals(base, strings, next_id)?;
            collect_expr_string_literals(index, strings, next_id)
        },
        Expr::Slice { base, start, end } => {
            proof {
                lemma_intern_concat(t0, n0, expr_strings(**base) + expr_strings(**start), expr_strings(**end));
                lemma_intern_concat(t0, n0, expr_strings(**base), expr_strings(**start));
            }
            collect_expr_string_literals(base, strings, next_id)?;
            collect_expr_string_literals(start, strings, next_id)?;
            collect_expr_string_literals(end, strings, next_id)
        },
        Expr::Int { .. } | Expr::Float { .. } | Expr::Bool { .. } | Expr::Local { .. }
        | Expr::Const { .. } => {
            proof {
                lemma_intern_empty(t0, n0, expr_strings(*expr));
            }
            Ok(())
        },
    }
}

fn collect_patterns_string_literals(
    patterns: &Vec<MatchPattern>,
    strings: &mut NameMap<StringLiteral>,
    next_id: &mut usize,
) -> (r: Result<(), String>)
    ensures
        r is Ok == intern_fits(literal_table(*old(strings)), *old(next_id) as nat, patterns_strings(patterns@)),
        r is Ok ==> (literal_table(*final(strings)), *final(next_id) as nat) == intern(
            literal_table(*old(strings)),
            *old(next_id) as nat,
            patterns_strings(patterns@),
        ),
    decreases patterns, 0nat,
{
    let mut i: usize = 0;
    assert(patterns@.skip(0) =~= patterns@);
    while i < patterns.len()
        invariant
            i <= patterns@.len(),
            intern(literal_table(*old(strings)), *old(next_id) as nat, patterns_strings(patterns@)) == intern(
                literal_table(*strings),
                *next_id as nat,
                patterns_strings(patterns@.skip(i as int)),
            ),
            intern_fits(literal_table(*old(strings)), *old(next_id) as nat, patterns_strings(patterns@)) == intern_fits(
                literal_table(*strings),
                *next_id as nat,
                patterns_strings(patterns@.skip(i as int)),
            ),
        decreases patterns@.len() - i,
    {
        assert(decreases_to!(patterns => patterns@[i as int]));
        assert(patterns@.skip(i as int).drop_first() =~= patterns@.skip(i + 1));
        proof {
            lemma_intern_concat(
                literal_table(*strings),
                *next_id as nat,
                pattern_strings(patterns@[i as int]),
                patterns_strings(patterns@.skip(i + 1)),
            );
        }
        collect_match_pattern_string_literals(&patterns[i], strings, next_id)?;
        i += 1;
    }
    proof {
        lemma_intern_empty(literal_table(*strings), *next_id as nat, patterns_strings(patterns@.skip(i as int)));
    }
    Ok(())
}

/// Adds the string literals of a pattern.
pub fn collect_match_pattern_string_literals(
    pattern: &MatchPattern,
    strings: &mut NameMap<StringLiteral>,
    next_id: &mut usize,
) -> (r: Result<(), String>)
    ensures
        r is Ok == intern_fits(literal_table(*old(strings)), *old(next_id) as nat, pattern_strings(*pattern)),
        r is Ok ==> (literal_table(*final(strings)), *final(next_id) as nat) == intern(
            literal_table(*old(strings)),
            *old(next_id) as nat,
            pattern_strings(*pattern),
        ),
    decreases pattern, 1nat,
{
    match pattern {
        MatchPattern::String { value } => {
            proof {
                lemma_intern_single(literal_table(*strings), *next_id as nat, value@);
            }
            insert_string_literal(value.as_str(), strings, next_id)
        },
        MatchPattern::Or { alternatives } => collect_patterns_string_literals(alternatives, strings, next_id),
        _ => {
            proof {
                lemma_intern_empty(literal_table(*strings), *next_id as nat, pattern_strings(*pattern));
            }
            Ok(())
        },
    }
}

/// The locals an expression names, left to right, as pairs of id and name.
pub open spec fn expr_reads(expr: Expr) -> Seq<(u32, Seq<char>)>
    decreases expr, 1nat,
{
    match expr {
        Expr::Local { local, name } => seq![(local, name@)],
        Expr::Unary { expr: inner, .. } => expr_reads(*inner),
        Expr::Try { expr: inner } => expr_reads(*inner),
        Expr::EnumPayload { value } => expr_reads(*value),
        Expr::Field { base, .. } => expr_reads(*base),
        Expr::MatchTest { scrutinee, .. } => expr_reads(*scrutinee),
        Expr::Binary { left, right, .. } => expr_reads(*left) + expr_reads(*right),
        Expr::Call { arguments, .. } => exprs_reads(arguments@),
        Expr::ArrayLiteral { elements } => exprs_reads(elements@),
        Expr::StructLiteral { fields, .. } => fields_reads(fields@),
        Expr::Block { statements, value } => statements_reads(statements@) + expr_reads(*value),
        Expr::Match { scrutinee, arms } => expr_reads(*scrutinee) + arms_reads(arms@),
        Expr::EnumVariant { payload, .. } => match payload {
            Some(inner) => expr_reads(*inner),
            None => Seq::empty(),
        },
        Expr::Index { base, index } => expr_reads(*base) + expr_reads(*index),
        Expr::Slice { base, start, end } => expr_reads(*base) + expr_reads(*start) + expr_reads(*end),
        _ => Seq::empty(),
    }
}

/// The locals a list of expressions names, left to right.
pub open spec fn exprs_reads(items: Seq<Expr>) -> Seq<(u32, Seq<char>)>
    decreases items, 0nat,
{
    if items.len() == 0 {
        Seq::empty()
    } else {
        expr_reads(items[0]) + exprs_reads(items.drop_first())
    }
}

/// The locals the values of struct literal fields name, left to right.
pub open spec fn fields_reads(items: Seq<StructLiteralField>) -> Seq<(u32, Seq<char>)>
    decreases items, 0nat,
{
    if items.len() == 0 {
        Seq::empty()
    } else {
        expr_reads(items[0].value) + fields_reads(items.drop_first())
    }
}

/// The locals a match arm names: its guard's, then its value's.
pub open spec fn arm_reads(arm: MatchExprArm) -> Seq<(u32, Seq<char>)>
    decreases arm, 1nat,
{
    match arm.guard {
        Some(guard) => expr_reads(guard) + expr_reads(arm.value),
        None => expr_reads(arm.value),
    }
}

/// The locals a list of match arms names, left to right.
pub open spec fn arms_reads(items: Seq<MatchExprArm>) -> Seq<(u32, Seq<char>)>
    decreases items, 0nat,
{
    if items.len() == 0 {
        Seq::empty()
    } else {
        arm_reads(items[0]) + arms_reads(items.drop_first())
    }
}

/// The locals an assignment target names, left to right.
pub open spec fn place_reads(place: Place) -> Seq<(u32, Seq<char>)>
    decreases place, 1nat,
{
    match place {
        Place::Local { local, name } => seq![(local, name@)],
        Place::Field { base, .. } => place_reads(*base),
        Place::Index { base, index } => place_reads(*base) + expr_reads(*index),
    }
}

/// The locals a statement names, left to right.
pub open spec fn statement_reads(statement: Statement) -> Seq<(u32, Seq<char>)>
    decreases statement, 1nat,
{
    match statement {
        Statement::Let { initializer, .. } => expr_reads(initializer),
        Statement::Eval { expr } => expr_reads(expr),
        Statement::Assign { target, value } => place_reads(target) + expr_reads(value),
    }
}

/// The locals a list of statements names, left to right.
pub open spec fn statements_reads(items: Seq<Statement>) -> Seq<(u32, Seq<char>)>
    decreases items, 0nat,
{
    if items.len() == 0 {
        Seq::empty()
    } else {
        statement_reads(items[0]) + statements_reads(items.drop_first())
    }
}

/// The id of the first of `reads` named `name`.
pub open spec fn first_named(reads: Seq<(u32, Seq<char>)>, name: Seq<char>) -> Option<u32>
    decreases reads.len(),
{
    if reads.len() == 0 {
        None
    } else if reads[0].1 == name {
        Some(reads[0].0)
    } else {
        first_named(reads.drop_first(), name)
    }
}

/// The first of `a + b` named `name` is the first of `a`, or else the first of `b`.
pub proof fn lemma_first_named_concat(a: Seq<(u32, Seq<char>)>, b: Seq<(u32, Seq<char>)>, name: Seq<char>)
    ensures
        first_named(a + b, name) == match first_named(a, name) {
            Some(id) => Some(id),
            None => first_named(b, name),
        },
    decreases a.len(),
{
    if a.len() > 0 {
        assert((a + b).drop_first() =~= a.drop_first() + b);
        lemma_first_named_concat(a.drop_first(), b, name);
    } else {
        assert(a + b =~= b);
    }
}

/// The first local named `name` that the arm's guard or value reads.
pub fn find_local_use_by_name_in_match_arm(arm: &MatchExprArm, name: &str) -> (r: Option<u32>)
    ensures
        r == first_named(arm_reads(*arm), name@),
    decreases arm, 0nat,
{
    match &arm.guard {
        Some(guard) => {
            proof {
                lemma_first_named_concat(expr_reads(*guard), expr_reads(arm.value), name@);
            }
            match find_local_use_by_name(guard, name) {
                Some(local) => return Some(local),
                None => {},
            }
        },
        None => {},
    }
    find_local_use_by_name(&arm.value, name)
}

fn find_in_exprs(items: &Vec<Expr>, name: &str) -> (r: Option<u32>)
    ensures
        r == first_named(exprs_reads(items@), name@),
    decreases items, 0nat,
{
    let mut i: usize = 0;
    assert(items@.skip(0) =~= items@);
    while i < items.len()
        invariant
            i <= items@.len(),
            first_named(exprs_reads(items@), name@) == first_named(exprs_reads(items@.skip(i as int)), name@),
        decreases items@.len() - i,
    {
        assert(decreases_to!(items => items@[i as int]));
        assert(items@.skip(i as int).drop_first() =~= items@.skip(i + 1));
        proof {
            lemma_first_named_concat(expr_reads(items@[i as int]), exprs_reads(items@.skip(i + 1)), name@);
        }
        match find_local_use_by_name(&items[i], name) {
            Some(local) => return Some(local),
            None => {},
        }
        i += 1;
    }
    None
}

fn find_in_fields(items: &Vec<StructLiteralField>, name: &str) -> (r: Option<u32>)
    ensures
        r == first_named(fields_reads(items@), name@),
    decreases items, 0nat,
{
    let mut i: usize = 0;
    assert(items@.skip(0) =~= items@);
    while i < items.len()
        invariant
            i <= items@.len(),
            first_named(fields_reads(items@), name@) == first_named(fields_reads(items@.skip(i as int)), name@),
        decreases items@.len() - i,
    {
        assert(decreases_to!(items => items@[i as int]));
        assert(decreases_to!(items@[i as int] => items@[i as int].value));
        assert(items@.skip(i as int).drop_first() =~= items@.skip(i + 1));
        proof {
            lemma_first_named_concat(expr_reads(items@[i as int].value), fields_reads(items@.skip(i + 1)), name@);
        }
        match find_local_use_by_name(&items[i].value, name) {
            Some(local) => return Some(local),
            None => {},
        }
        i += 1;
    }
    None
}

fn find_in_statements(items: &Vec<Statement>, name: &str) -> (r: Option<u32>)
    ensures
        r == first_named(statements_reads(items@), name@),
    decreases items, 0nat,
{
    let mut i: usize = 0;
    assert(items@.skip(0) =~= items@);
    while i < items.len()
        invariant
            i <= items@.len(),
            first_named(statements_reads(items@), name@) == first_named(statements_reads(items@.skip(i as int)), name@),
        decreases items@.len() - i,
    {
        assert(decreases_to!(items => items@[i as int]));
        assert(items@.skip(i as int).drop_first() =~= items@.skip(i + 1));
        proof {
            lemma_first_named_concat(statement_reads(items@[i as int]), statements_reads(items@.skip(i + 1)), name@);
        }
        match find_local_use_by_name_in_statement(&items[i], name) {
            Some(local) => return Some(local),
            None => {},
        }
        i += 1;
    }
    None
}

fn find_in_arms(items: &Vec<MatchExprArm>, name: &str) -> (r: Option<u32>)
    ensures
        r == first_named(arms_reads(items@), name@),
    decreases items, 1nat,
{
    let mut i: usize = 0;
    assert(items@.skip(0) =~= items@);
    while i < items.len()
        invariant
            i <= items@.len(),
            first_named(arms_reads(items@), name@) == first_named(arms_reads(items@.skip(i as int)), name@),
        decreases items@.len() - i,
    {
        assert(decreases_to!(items => items@[i as int]));
        assert(items@.skip(i as int).drop_first() =~= items@.skip(i + 1));
        proof {
            lemma_first_named_concat(arm_reads(items@[i as int]), arms_reads(items@.skip(i + 1)), name@);
        }
        match find_local_use_by_name_in_match_arm(&items[i], name) {
            Some(local) => return Some(local),
            None => {},
        }
        i += 1;
    }
    None
}

/// The first local named `name` that the expression reads, left to right.
pub fn find_local_use_by_name(expr: &Expr, name: &str) -> (r: Option<u32>)
    ensures
        r == first_named(expr_reads(*expr), name@),
    decreases expr, 2nat,
{
    match expr {
        Expr::Local { local, name: local_name } => {
            proof {
                reveal_with_fuel(first_named, 2);
                assert(seq![(*local, local_name@)].drop_first() =~= Seq::<(u32, Seq<char>)>::empty());
            }
            if str_eq(local_name.as_str(), name) {
                Some(*local)
            } else {
                None
            }
        },
        Expr::Unary { expr: inner, .. } => find_local_use_by_name(inner, name),
        Expr::Try { expr: inner } => find_local_use_by_name(inner, name),
        Expr::EnumPayload { value } => find_local_use_by_name(value, name),
        Expr::Field { base, .. } => find_local_use_by_name(base, name),
        Expr::Binary { left, right, .. } => {
            proof {
                lemma_first_named_concat(expr_reads(**left), expr_reads(**right), name@);
            }
            match find_local_use_by_name(left, name) {
                Some(local) => Some(local),
                None => find_local_use_by_name(right, name),
            }
        },
        Expr::Call { arguments, .. } => find_in_exprs(arguments, name),
        Expr::ArrayLiteral { elements } => find_in_exprs(elements, name),
        Expr::StructLiteral { fields, .. } => find_in_fields(fields, name),
        Expr::Block { statements, value } => {
            proof {
                lemma_first_named_concat(statements_reads(statements@), expr_reads(**value), name@);
            }
            match find_in_statements(statements, name) {
                Some(local) => Some(local),
                None => find_local_use_by_name(value, name),
            }
        },
        Expr::Match { scrutinee, arms } => {
            proof {
                lemma_first_named_concat(expr_reads(**scrutinee), arms_reads(arms@), name@);
            }
            match find_local_use_by_name(scrutinee, name) {
                Some(local) => Some(local),
                None => find_in_arms(arms, name),
            }
        },
        Expr::EnumVariant { payload, .. } => match payload {
            Some(payload) => find_local_use_by_name(payload, name),
            None => None,
        },
        Expr::MatchTest { scrutinee, .. } => find_local_use_by_name(scrutinee, name),
        Expr::Index { base, index } => {
            proof {
                lemma_first_named_concat(expr_reads(**base), expr_reads(**index), name@);
            }
            match find_local_use_by_name(base, name) {
                Some(local) => Some(local),
                None => find_local_use_by_name(index, name),
            }
        },
        Expr::Slice { base, start, end } => {
            proof {
                lemma_first_named_concat(expr_reads(**base) + expr_reads(**start), expr_reads(**end), name@);
                lemma_first_named_concat(expr_reads(**base), expr_reads(**start), name@);
            }
            match find_local_use_by_name(base, name) {
                Some(local) => Some(local),
                None => match find_local_use_by_name(start, name) {
                    Some(local) => Some(local),
                    None => find_local_use_by_name(end, name),
                },
            }
        },
        Expr::Int { .. } | Expr::Float { .. } | Expr::Bool { .. } | Expr::String { .. }
        | Expr::Const { .. } => None,
    }
}

/// The first local named `name` that the statement reads.
pub fn find_local_use_by_name_in_statement(statement: &Statement, name: &str) -> (r: Option<u32>)
    ensures
        r == first_named(statement_reads(*statement), name@),
    decreases statement, 2nat,
{
    match statement {
        Statement::Let { initializer, .. } => find_local_use_by_name(initializer, name),
        Statement::Eval { expr } => find_local_use_by_name(expr, name),
        Statement::Assign { target, value } => {
            proof {
                lemma_first_named_concat(place_reads(*target), expr_reads(*value), name@);
            }
            match find_local_use_by_name_in_place(target, name) {
                Some(local) => Some(local),
                None => find_local_use_by_name(value, name),
            }
        },
    }
}

/// The first local named `name` that an assignment target mentions.
pub fn find_local_use_by_name_in_place(place: &Place, name: &str) -> (r: Option<u32>)
    ensures
        r == first_named(place_reads(*place), name@),
    decreases place, 2nat,
{
    match place {
        Place::Local { local, name: local_name } => {
            proof {
                reveal_with_fuel(first_named, 2);
                assert(seq![(*local, local_name@)].drop_first() =~= Seq::<(u32, Seq<char>)>::empty());
            }
            if str_eq(local_name.as_str(), name) {
                Some(*local)
            } else {
                None
            }
        },
        Place::Field { base, .. } => find_local_use_by_name_in_place(base, name),
        Place::Index { base, index } => {
            proof {
                lemma_first_named_concat(place_reads(**base), expr_reads(**index), name@);
            }
            match find_local_use_by_name_in_place(base, name) {
                Some(local) => Some(local),
                None => find_local_use_by_name(index, name),
            }
        },
    }
}

} // verus!
