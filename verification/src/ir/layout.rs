//! Native layouts of structs, enums and their generic instances.
use vstd::prelude::*;
use crate::mir::{
    clone_type, lemma_same_type_symmetric, lemma_same_type_transitive, same_type, same_types, BasicBlock,
    EnumVariant, Expr, Function, Item, Local, MatchExprArm, MatchPattern, Param, Place, Program, Statement,
    StructField, StructLiteralField, StructPatternField, Terminator, Type,
};
use crate::name_map::NameMap;
use crate::text::{concat, concat_all, owned, usize_to_decimal};
use super::model::{EnumLayout, EnumVariantLayout, StructFieldLayout, StructLayout};
use super::support::{
    ax_name_of, ax_type_name, enum_layout_key, lemma_same_type_same_name, llvm_enum_type_name_for_type,
    llvm_struct_type_name_for_type, llvm_type, llvm_type_of, prefixed_type_symbol, struct_layout_key,
};

verus! {

/// Every struct layout is stored under its AX name, carries that name, names
/// its LLVM type `%ax_struct_` and the sanitised name, and numbers its fields
/// in order.
pub open spec fn struct_layouts_well_formed(layouts: NameMap<StructLayout>) -> bool {
    forall|k: Seq<char>|
        #[trigger] layouts.spec_get(k) matches Some(layout) ==> {
            &&& layout.name@ == k
            &&& layout.ty@ == prefixed_type_symbol("%ax_struct_"@, k)
            &&& forall|i: int| 0 <= i < layout.fields@.len() ==> (#[trigger] layout.fields@[i]).index == i
        }
}

/// Item `i` of `program` is a struct without type parameters, named `name`.
pub open spec fn is_plain_struct(program: Program, i: int, name: Seq<char>) -> bool {
    0 <= i < program.items@.len() && (program.items@[i] matches Item::Struct { name: n, type_params, .. }
        && n@ == name && type_params@.len() == 0)
}

/// The layouts of the non-generic structs and of every concrete struct
/// instance that the program mentions, or the reasons some cannot be laid out.
pub fn collect_struct_layouts(
    program: &Program,
    enum_layouts: &NameMap<EnumLayout>,
) -> (r: Result<NameMap<StructLayout>, Vec<String>>)
    ensures
        r matches Ok(layouts) ==> struct_layouts_well_formed(layouts),
        r matches Ok(layouts) ==> forall|i: int, name: Seq<char>|
            #[trigger] is_plain_struct(*program, i, name) ==> layouts.spec_get(name) is Some,
        r matches Err(reasons) ==> reasons@.len() > 0,
        program_mentions_no_instance(*program) && struct_fields_scalar(*program) ==> r is Ok,
{
    let mut layouts: NameMap<StructLayout> = NameMap::new();
    let mut unsupported: Vec<String> = Vec::new();
    let mut definitions: NameMap<(&Vec<String>, &Vec<StructField>)> = NameMap::new();
    let mut layout_sources: NameMap<Vec<StructField>> = NameMap::new();
    let ghost scalar = struct_fields_scalar(*program);

    let mut i: usize = 0;
    while i < program.items.len()
        invariant
            i <= program.items@.len(),
            scalar == struct_fields_scalar(*program),
            scalar ==> sources_scalar(layout_sources),
            struct_layouts_well_formed(layouts),
            forall|j: int, name: Seq<char>|
                #[trigger] is_plain_struct(*program, j, name) && j < i ==> layouts.spec_get(name) is Some,
        decreases program.items@.len() - i,
    {
        match &program.items[i] {
            Item::Struct { name, type_params, fields } => {
                definitions.insert(name.clone(), (type_params, fields));
                if type_params.len() == 0 {
                    let ty = Type::Struct { name: name.clone() };
                    let key = struct_layout_key(&ty);
                    insert_struct_layout(&mut layouts, ty);
                    let ghost before_sources = layout_sources;
                    let cloned = clone_fields(fields);
                    let ghost key_view = key@;
                    proof {
                        if scalar {
                            assert forall|f: int| 0 <= f < cloned@.len() implies scalar_type(#[trigger] cloned@[f].ty) by {
                                assert(same_type(cloned@[f].ty, fields@[f].ty));
                                assert(scalar_type(fields@[f].ty));
                            }
                        }
                    }
                    layout_sources.insert(key, cloned);
                    proof {
                        if scalar {
                            assert forall|k: Seq<char>| #[trigger] layout_sources.spec_get(k) is Some implies scalar_fields(
                                layout_sources.spec_get(k)->0@,
                            ) by {
                                if k != key_view {
                                    assert(layout_sources.spec_get(k) == before_sources.spec_get(k));
                                }
                            }
                        }
                    }
                }
            },
            _ => {},
        }
        i += 1;
    }

    let mut struct_instances: NameMap<Type> = NameMap::new();
    let ghost no_instances = struct_instances;
    let mentioned = program_types(program);
    let mut m: usize = 0;
    while m < mentioned.len()
        invariant
            m <= mentioned@.len(),
            derefs(mentioned@) == items_types_of(program.items@),
            no_instances.entries().len() == 0,
            program_mentions_no_instance(*program) ==> struct_instances == no_instances,
            only_struct_instances(struct_instances),
            struct_layouts_well_formed(layouts),
            forall|j: int, name: Seq<char>|
                #[trigger] is_plain_struct(*program, j, name) ==> layouts.spec_get(name) is Some,
        decreases mentioned@.len() - m,
    {
        proof {
            if program_mentions_no_instance(*program) {
                assert(derefs(mentioned@)[m as int] == *mentioned@[m as int]);
                assert(mentions_no_instance(items_types_of(program.items@)[m as int]));
            }
        }
        collect_struct_instance_type(mentioned[m], &mut struct_instances);
        m += 1;
    }

    let mut s: usize = 0;
    while s < struct_instances.len()
        invariant
            s <= struct_instances.entries().len(),
            program_mentions_no_instance(*program) ==> struct_instances.entries().len() == 0,
            scalar == struct_fields_scalar(*program),
            program_mentions_no_instance(*program) && scalar ==> unsupported@.len() == 0 && sources_scalar(
                layout_sources,
            ),
            struct_layouts_well_formed(layouts),
            forall|j: int, name: Seq<char>|
                #[trigger] is_plain_struct(*program, j, name) ==> layouts.spec_get(name) is Some,
        decreases struct_instances.entries().len() - s,
    {
        let (_, struct_ty) = struct_instances.entry_at(s);
        match struct_ty {
            Type::StructInstance { name, args } => {
                match definitions.get(name.as_str()) {
                    None => {
                        let shown_ty = ax_type_name(struct_ty);
                        unsupported.push(
                            concat(
                                &[
                                    "struct instance ",
                                    shown_ty.as_str(),
                                    " has no struct definition in LLVM AOT v0",
                                ],
                            ),
                        );
                    },
                    Some(definition) => {
                        let (type_params, fields) = *definition;
                        if type_params.len() != args.len() {
                            let shown_ty = ax_type_name(struct_ty);
                            let got = usize_to_decimal(args.len());
                            let declared = usize_to_decimal(type_params.len());
                            unsupported.push(
                                concat(
                                    &[
                                        "struct instance ",
                                        shown_ty.as_str(),
                                        " has ",
                                        got.as_str(),
                                        " type argument(s), but struct `",
                                        name.as_str(),
                                        "` declares ",
                                        declared.as_str(),
                                    ],
                                ),
                            );
                        } else {
                            let substitutions = zip_substitutions(type_params, args);
                            let mut concrete_fields: Vec<StructField> = Vec::new();
                            let mut f: usize = 0;
                            while f < fields.len()
                                invariant
                                    f <= fields@.len(),
                                decreases fields@.len() - f,
                            {
                                concrete_fields.push(
                                    StructField {
                                        name: fields[f].name.clone(),
                                        ty: substitute_type_params(&fields[f].ty, &substitutions),
                                    },
                                );
                                f += 1;
                            }
                            let key = struct_layout_key(struct_ty);
                            insert_struct_layout(&mut layouts, clone_type(struct_ty));
                            layout_sources.insert(key, concrete_fields);
                        }
                    },
                }
            },
            _ => {},
        }
        s += 1;
    }

    let mut lowered: Vec<(String, Vec<StructFieldLayout>)> = Vec::new();
    let mut k: usize = 0;
    while k < layout_sources.len()
        invariant
            k <= layout_sources.entries().len(),
            program_mentions_no_instance(*program) && scalar ==> unsupported@.len() == 0 && sources_scalar(
                layout_sources,
            ),
            struct_layouts_well_formed(layouts),
            forall|j: int, name: Seq<char>|
                #[trigger] is_plain_struct(*program, j, name) ==> layouts.spec_get(name) is Some,
            forall|j: int, f: int|
                0 <= j < lowered@.len() && 0 <= f < lowered@[j].1@.len() ==> (#[trigger] lowered@[j].1@[f]).index
                    == f,
        decreases layout_sources.entries().len() - k,
    {
        let (key, fields) = layout_sources.entry_at(k);
        proof {
            if program_mentions_no_instance(*program) && scalar {
                assert(layout_sources.spec_get(key@) == Some(*fields));
                assert(scalar_fields(fields@));
                assert forall|f: int| 0 <= f < fields@.len() implies llvm_type_of(
                    #[trigger] fields@[f].ty,
                    layouts,
                    *enum_layouts,
                ) is Some by {
                    assert(scalar_type(fields@[f].ty));
                }
            }
        }
        match layouts.get(key.as_str()) {
            Some(layout) => {
                match lower_struct_fields(layout.name.as_str(), fields, &layouts, enum_layouts) {
                    Ok(field_layouts) => lowered.push((key.clone(), field_layouts)),
                    Err(reason) => unsupported.push(reason),
                }
            },
            None => {},
        }
        k += 1;
    }
    while lowered.len() > 0
        invariant
            struct_layouts_well_formed(layouts),
            forall|j: int, name: Seq<char>|
                #[trigger] is_plain_struct(*program, j, name) ==> layouts.spec_get(name) is Some,
            forall|j: int, f: int|
                0 <= j < lowered@.len() && 0 <= f < lowered@[j].1@.len() ==> (#[trigger] lowered@[j].1@[f]).index
                    == f,
        decreases lowered@.len(),
    {
        let (key, fields) = match lowered.pop() {
            Some(entry) => entry,
            None => break,
        };
        let updated = match layouts.get(key.as_str()) {
            Some(layout) => Some(
                StructLayout {
                    name: layout.name.clone(),
                    ax_ty: clone_type(&layout.ax_ty),
                    ty: layout.ty.clone(),
                    fields,
                },
            ),
            None => None,
        };
        match updated {
            Some(layout) => layouts.insert(key, layout),
            None => {},
        }
    }

    if unsupported.len() == 0 {
        Ok(layouts)
    } else {
        Err(unsupported)
    }
}

fn clone_fields(fields: &Vec<StructField>) -> (r: Vec<StructField>)
    ensures
        r@.len() == fields@.len(),
        forall|i: int| 0 <= i < r@.len() ==> same_type(#[trigger] r@[i].ty, fields@[i].ty),
{
    let mut out: Vec<StructField> = Vec::new();
    let mut i: usize = 0;
    while i < fields.len()
        invariant
            i <= fields@.len(),
            out@.len() == i,
            forall|j: int| 0 <= j < i ==> same_type(#[trigger] out@[j].ty, fields@[j].ty),
        decreases fields@.len() - i,
    {
        out.push(StructField { name: fields[i].name.clone(), ty: clone_type(&fields[i].ty) });
        i += 1;
    }
    out
}

/// The substitution that binds each type parameter to the argument at the
/// same position.
/// Parameter `i` is the last of the first `n` parameters named like it.
pub open spec fn is_last_binding(type_params: Seq<String>, n: int, i: int) -> bool {
    0 <= i < n && forall|j: int| i < j < n ==> type_params[j]@ != type_params[i]@
}

/// The substitution that binds each type parameter to the argument at the
/// same position (the last position wins for a repeated parameter); extra
/// parameters or arguments are ignored.
pub fn zip_substitutions(type_params: &Vec<String>, args: &Vec<Type>) -> (r: NameMap<Type>)
    ensures
        forall|i: int|
            is_last_binding(type_params@, vstd::math::min(type_params@.len() as int, args@.len() as int), i)
                ==> (r.spec_get(type_params@[i]@) matches Some(t) && same_type(t, args@[i])),
        forall|k: Seq<char>|
            (forall|i: int|
                0 <= i < vstd::math::min(type_params@.len() as int, args@.len() as int) ==> type_params@[i]@ != k)
                ==> #[trigger] r.spec_get(k) is None,
{
    let mut substitutions: NameMap<Type> = NameMap::new();
    let mut i: usize = 0;
    while i < type_params.len() && i < args.len()
        invariant
            i <= type_params@.len(),
            i <= args@.len(),
            forall|j: int|
                is_last_binding(type_params@, i as int, j) ==> (substitutions.spec_get(
                    type_params@[j]@,
                ) matches Some(t) && same_type(t, args@[j])),
            forall|k: Seq<char>|
                (forall|j: int| 0 <= j < i ==> type_params@[j]@ != k) ==> #[trigger] substitutions.spec_get(
                    k,
                ) is None,
        decreases type_params@.len() - i,
    {
        let name = type_params[i].clone();
        let bound = clone_type(&args[i]);
        substitutions.insert(name, bound);
        assert forall|j: int| #[trigger] is_last_binding(type_params@, i + 1, j) implies (substitutions.spec_get(
            type_params@[j]@,
        ) matches Some(t) && same_type(t, args@[j])) by {
            if j < i {
                assert(is_last_binding(type_params@, i as int, j));
                assert(type_params@[i as int]@ != type_params@[j]@);
            }
        }
        i += 1;
    }
    substitutions
}

/// Records an empty layout for a struct type, named after the type.
fn insert_struct_layout(layouts: &mut NameMap<StructLayout>, struct_ty: Type)
    ensures
        (struct_ty is Struct || struct_ty is StructInstance) ==> (final(layouts).spec_get(
            ax_name_of(struct_ty),
        ) matches Some(layout) && layout.name@ == ax_name_of(struct_ty) && layout.ty@
            == prefixed_type_symbol("%ax_struct_"@, ax_name_of(struct_ty)) && layout.fields@.len()
            == 0),
        !(struct_ty is Struct || struct_ty is StructInstance) ==> *final(layouts) == *old(layouts),
        forall|k: Seq<char>| k != ax_name_of(struct_ty) ==> #[trigger] final(layouts).spec_get(k) == old(layouts).spec_get(k),
{
    match &struct_ty {
        Type::Struct { .. } | Type::StructInstance { .. } => {},
        _ => return ,
    }
    let key = struct_layout_key(&struct_ty);
    let name = ax_type_name(&struct_ty);
    let ty = llvm_struct_type_name_for_type(&struct_ty);
    layouts.insert(key, StructLayout { name, ax_ty: struct_ty, ty, fields: Vec::new() });
}

/// Every enum layout tags its variants `0, 1, ...` in order, and is an `i32`
/// when no variant carries a payload, the named type `%ax_enum_` and the
/// sanitised AX name it is stored under otherwise.
pub open spec fn enum_layouts_well_formed(layouts: NameMap<EnumLayout>) -> bool {
    forall|k: Seq<char>|
        #[trigger] layouts.spec_get(k) matches Some(layout) ==> {
            &&& layout.ty@ == (if has_payload_variant(layout.variants@) {
                prefixed_type_symbol("%ax_enum_"@, k)
            } else {
                "i32"@
            })
            &&& forall|i: int| 0 <= i < layout.variants@.len() ==> (#[trigger] layout.variants@[i]).tag == i
        }
}

/// Item `i` of `program` is an enum without type parameters, named `name`.
pub open spec fn is_plain_enum(program: Program, i: int, name: Seq<char>) -> bool {
    0 <= i < program.items@.len() && (program.items@[i] matches Item::Enum { name: n, type_params, .. }
        && n@ == name && type_params@.len() == 0)
}

/// The layouts of the non-generic enums and of every enum instance that the
/// program mentions, or the reasons some cannot be laid out.
pub fn collect_enum_layouts(program: &Program) -> (r: Result<NameMap<EnumLayout>, Vec<String>>)
    ensures
        r matches Ok(layouts) ==> enum_layouts_well_formed(layouts),
        r matches Ok(layouts) ==> forall|i: int, name: Seq<char>|
            #[trigger] is_plain_enum(*program, i, name) ==> layouts.spec_get(name) is Some,
        r matches Err(reasons) ==> reasons@.len() > 0,
        program_mentions_no_instance(*program) && enum_tags_fit(*program) ==> r is Ok,
{
    let mut layouts: NameMap<EnumLayout> = NameMap::new();
    let mut unsupported: Vec<String> = Vec::new();
    let mut definitions: NameMap<(&Vec<String>, &Vec<EnumVariant>)> = NameMap::new();

    let mut i: usize = 0;
    while i < program.items.len()
        invariant
            i <= program.items@.len(),
            enum_layouts_well_formed(layouts),
            unsupported@.len() == 0 ==> forall|j: int, name: Seq<char>|
                #[trigger] is_plain_enum(*program, j, name) && j < i ==> layouts.spec_get(name) is Some,
            enum_tags_fit(*program) ==> unsupported@.len() == 0,
        decreases program.items@.len() - i,
    {
        match &program.items[i] {
            Item::Enum { name, type_params, variants } => {
                definitions.insert(name.clone(), (type_params, variants));
                if type_params.len() == 0 {
                    match lower_enum_variants(name.as_str(), variants) {
                        Ok(lowered) => insert_enum_layout(
                            &mut layouts,
                            Type::Enum { name: name.clone() },
                            lowered,
                        ),
                        Err(reason) => unsupported.push(reason),
                    }
                }
            },
            _ => {},
        }
        i += 1;
    }

    let mut enum_instances: NameMap<Type> = NameMap::new();
    let ghost no_instances = enum_instances;
    let mentioned = program_types(program);
    let mut m: usize = 0;
    while m < mentioned.len()
        invariant
            m <= mentioned@.len(),
            derefs(mentioned@) == items_types_of(program.items@),
            no_instances.entries().len() == 0,
            program_mentions_no_instance(*program) ==> enum_instances == no_instances,
            only_enum_instances(enum_instances),
            enum_layouts_well_formed(layouts),
            unsupported@.len() == 0 ==> forall|j: int, name: Seq<char>|
                #[trigger] is_plain_enum(*program, j, name) ==> layouts.spec_get(name) is Some,
        decreases mentioned@.len() - m,
    {
        proof {
            if program_mentions_no_instance(*program) {
                assert(derefs(mentioned@)[m as int] == *mentioned@[m as int]);
                assert(mentions_no_instance(items_types_of(program.items@)[m as int]));
            }
        }
        collect_enum_instance_type(mentioned[m], &mut enum_instances);
        m += 1;
    }

    let mut e: usize = 0;
    while e < enum_instances.len()
        invariant
            e <= enum_instances.entries().len(),
            program_mentions_no_instance(*program) ==> enum_instances.entries().len() == 0,
            program_mentions_no_instance(*program) && enum_tags_fit(*program) ==> unsupported@.len() == 0,
            enum_layouts_well_formed(layouts),
            unsupported@.len() == 0 ==> forall|j: int, name: Seq<char>|
                #[trigger] is_plain_enum(*program, j, name) ==> layouts.spec_get(name) is Some,
        decreases enum_instances.entries().len() - e,
    {
        let (_, enum_ty) = enum_instances.entry_at(e);
        match enum_ty {
            Type::EnumInstance { name, args } => {
                match definitions.get(name.as_str()) {
                    None => {
                        let shown_ty = ax_type_name(enum_ty);
                        unsupported.push(
                            concat(
                                &[
                                    "enum instance ",
                                    shown_ty.as_str(),
                                    " has no enum definition in LLVM AOT v0",
                                ],
                            ),
                        );
                    },
                    Some(definition) => {
                        let (type_params, variants) = *definition;
                        if type_params.len() != args.len() {
                            let shown_ty = ax_type_name(enum_ty);
                            let got = usize_to_decimal(args.len());
                            let declared = usize_to_decimal(type_params.len());
                            unsupported.push(
                                concat(
                                    &[
                                        "enum instance ",
                                        shown_ty.as_str(),
                                        " has ",
                                        got.as_str(),
                                        " type argument(s), but enum `",
                                        name.as_str(),
                                        "` declares ",
                                        declared.as_str(),
                                    ],
                                ),
                            );
                        } else {
                            let substitutions = zip_substitutions(type_params, args);
                            let mut concrete: Vec<EnumVariant> = Vec::new();
                            let mut v: usize = 0;
                            while v < variants.len()
                                invariant
                                    v <= variants@.len(),
                                decreases variants@.len() - v,
                            {
                                let payload = match &variants[v].payload {
                                    Some(payload) => Some(
                                        substitute_type_params(payload, &substitutions),
                                    ),
                                    None => None,
                                };
                                concrete.push(EnumVariant { name: variants[v].name.clone(), payload });
                                v += 1;
                            }
                            match lower_enum_variants(name.as_str(), &concrete) {
                                Ok(lowered) => insert_enum_layout(
                                    &mut layouts,
                                    clone_type(enum_ty),
                                    lowered,
                                ),
                                Err(reason) => unsupported.push(reason),
                            }
                        }
                    },
                }
            },
            _ => {},
        }
        e += 1;
    }

    if unsupported.len() == 0 {
        Ok(layouts)
    } else {
        Err(unsupported)
    }
}

/// Whether some variant carries a payload.
pub open spec fn has_payload_variant(variants: Seq<EnumVariantLayout>) -> bool {
    exists|i: int| 0 <= i < variants.len() && (#[trigger] variants[i]).payload_ax_ty is Some
}

/// Records the layout of an enum type: `i32` tags when no variant carries a
/// payload, the named `{ i32, ptr }` type otherwise.
fn insert_enum_layout(
    layouts: &mut NameMap<EnumLayout>,
    enum_ty: Type,
    variants: Vec<EnumVariantLayout>,
)
    ensures
        (enum_ty is Enum || enum_ty is EnumInstance) ==> (final(layouts).spec_get(
            ax_name_of(enum_ty),
        ) matches Some(layout) && layout.ty@ == (if has_payload_variant(variants@) {
            prefixed_type_symbol("%ax_enum_"@, ax_name_of(enum_ty))
        } else {
            "i32"@
        }) && layout.variants@ == variants@ && layout.ax_ty == enum_ty && (enum_ty matches Type::Enum { name }
            ==> layout.name == name) && (enum_ty matches Type::EnumInstance { name, .. } ==> layout.name == name)),
        forall|k: Seq<char>|
            !((enum_ty is Enum || enum_ty is EnumInstance) && k == ax_name_of(enum_ty))
                ==> #[trigger] final(layouts).spec_get(k) == old(layouts).spec_get(k),
{
    let mut has_payload = false;
    let mut i: usize = 0;
    while i < variants.len()
        invariant
            i <= variants@.len(),
            has_payload == exists|j: int| 0 <= j < i && (#[trigger] variants@[j]).payload_ax_ty is Some,
        decreases variants@.len() - i,
    {
        if variants[i].payload_ax_ty.is_some() {
            has_payload = true;
        }
        i += 1;
    }
    let name = match &enum_ty {
        Type::Enum { name } => name.clone(),
        Type::EnumInstance { name, .. } => name.clone(),
        _ => return ,
    };
    let key = enum_layout_key(&enum_ty);
    let ty = if has_payload {
        llvm_enum_type_name_for_type(&enum_ty)
    } else {
        proof {
            reveal_strlit("i32");
        }
        owned("i32")
    };
    layouts.insert(key, EnumLayout { name, ax_ty: enum_ty, ty, variants });
}

/// The variant layouts of an enum: tags `0, 1, ...` in declaration order.
fn lower_enum_variants(enum_name: &str, variants: &Vec<EnumVariant>) -> (r: Result<
    Vec<EnumVariantLayout>,
    String,
>)
    ensures
        r matches Ok(lowered) ==> lowered@.len() == variants@.len() && forall|i: int|
            0 <= i < lowered@.len() ==> (#[trigger] lowered@[i]).tag == i && lowered@[i].name
                == variants@[i].name && match (lowered@[i].payload_ax_ty, variants@[i].payload) {
                (Some(lowered_ty), Some(declared)) => same_type(lowered_ty, declared),
                (None, None) => true,
                _ => false,
            },
        r is Err <==> variants@.len() > 2147483648,
        r matches Err(message) ==> message@ == "enum `"@ + enum_name@ + "` has too many variants for LLVM AOT v0 i32 tags"@,
{
    let mut lowered: Vec<EnumVariantLayout> = Vec::new();
    let mut i: usize = 0;
    while i < variants.len()
        invariant
            i <= variants@.len(),
            lowered@.len() == i,
            i <= 2147483648,
            forall|j: int|
                0 <= j < i ==> (#[trigger] lowered@[j]).tag == j && lowered@[j].name
                    == variants@[j].name && match (lowered@[j].payload_ax_ty, variants@[j].payload) {
                    (Some(lowered_ty), Some(declared)) => same_type(lowered_ty, declared),
                    (None, None) => true,
                    _ => false,
                },
        decreases variants@.len() - i,
    {
        if i > 2147483647 {
            let message = concat(&["enum `", enum_name, "` has too many variants for LLVM AOT v0 i32 tags"]);
            proof {
                reveal_with_fuel(concat_all, 4);
                assert(message@ =~= "enum `"@ + enum_name@ + "` has too many variants for LLVM AOT v0 i32 tags"@);
            }
            return Err(message);
        }
        let payload_ax_ty = match &variants[i].payload {
            Some(t) => Some(clone_type(t)),
            None => None,
        };
        lowered.push(
            EnumVariantLayout { name: variants[i].name.clone(), tag: i as i32, payload_ax_ty },
        );
        i += 1;
    }
    Ok(lowered)
}

/// Whether a type mentions a type parameter.
pub open spec fn contains_type_param(ty: Type) -> bool
    decreases ty,
{
    match ty {
        Type::TypeParam { .. } => true,
        Type::Slice { element } => contains_type_param(*element),
        Type::Array { element, .. } => contains_type_param(*element),
        Type::StructInstance { args, .. } => exists|i: int|
            0 <= i < args@.len() && contains_type_param(#[trigger] args@[i]),
        Type::EnumInstance { args, .. } => exists|i: int|
            0 <= i < args@.len() && contains_type_param(#[trigger] args@[i]),
        _ => false,
    }
}

/// Whether a type mentions a type parameter.
pub fn type_contains_type_param(ty: &Type) -> (r: bool)
    ensures
        r == contains_type_param(*ty),
    decreases ty, 1nat,
{
    match ty {
        Type::TypeParam { .. } => true,
        Type::Slice { element } => type_contains_type_param(element),
        Type::Array { element, .. } => type_contains_type_param(element),
        Type::StructInstance { args, .. } => any_contains_type_param(args),
        Type::EnumInstance { args, .. } => any_contains_type_param(args),
        _ => false,
    }
}

/// Whether some type of `args` mentions a type parameter.
pub fn any_contains_type_param(args: &Vec<Type>) -> (r: bool)
    ensures
        r == exists|i: int| 0 <= i < args@.len() && contains_type_param(#[trigger] args@[i]),
    decreases args, 0nat,
{
    let mut i: usize = 0;
    while i < args.len()
        invariant
            i <= args@.len(),
            forall|j: int| 0 <= j < i ==> !contains_type_param(#[trigger] args@[j]),
        decreases args@.len() - i,
    {
        assert(decreases_to!(args => args@[i as int]));
        if type_contains_type_param(&args[i]) {
            return true;
        }
        i += 1;
    }
    false
}

/// `concrete` is `pattern` with each type parameter replaced by the type that
/// `substitutions` binds to it.
pub open spec fn instance_of(pattern: Type, concrete: Type, substitutions: NameMap<Type>) -> bool
    decreases pattern,
{
    match pattern {
        Type::TypeParam { name } => substitutions.spec_get(name@) matches Some(t) && same_type(
            t,
            concrete,
        ),
        Type::Array { element, length } => concrete matches Type::Array {
            element: concrete_element,
            length: concrete_length,
        } && length == concrete_length && instance_of(*element, *concrete_element, substitutions),
        Type::Slice { element } => concrete matches Type::Slice { element: concrete_element }
            && instance_of(*element, *concrete_element, substitutions),
        Type::StructInstance { name, args } => concrete matches Type::StructInstance {
            name: concrete_name,
            args: concrete_args,
        } && name@ == concrete_name@ && instances_of(args@, concrete_args@, substitutions),
        Type::EnumInstance { name, args } => concrete matches Type::EnumInstance {
            name: concrete_name,
            args: concrete_args,
        } && name@ == concrete_name@ && instances_of(args@, concrete_args@, substitutions),
        _ => same_type(pattern, concrete),
    }
}

/// Each of `concretes` is an instance of the pattern at the same position.
pub open spec fn instances_of(
    patterns: Seq<Type>,
    concretes: Seq<Type>,
    substitutions: NameMap<Type>,
) -> bool
    decreases patterns,
{
    patterns.len() == concretes.len() && forall|i: int|
        0 <= i < patterns.len() ==> instance_of(patterns[i], concretes[i], substitutions)
}

/// `later` keeps every binding of `earlier`.
pub open spec fn extends(earlier: NameMap<Type>, later: NameMap<Type>) -> bool {
    forall|k: Seq<char>| #[trigger] earlier.spec_get(k) is Some ==> later.spec_get(k) == earlier.spec_get(k)
}

/// An instance stays one when more parameters get bound.
pub proof fn lemma_instance_of_extends(
    pattern: Type,
    concrete: Type,
    earlier: NameMap<Type>,
    later: NameMap<Type>,
)
    requires
        instance_of(pattern, concrete, earlier),
        extends(earlier, later),
    ensures
        instance_of(pattern, concrete, later),
    decreases pattern,
{
    match pattern {
        Type::TypeParam { name } => {
            let t = earlier.spec_get(name@)->Some_0;
            assert(later.spec_get(name@) == Some(t));
        },
        Type::Array { element, .. } => {
            if let Type::Array { element: concrete_element, .. } = concrete {
                lemma_instance_of_extends(*element, *concrete_element, earlier, later);
            }
        },
        Type::Slice { element } => {
            if let Type::Slice { element: concrete_element } = concrete {
                lemma_instance_of_extends(*element, *concrete_element, earlier, later);
            }
        },
        Type::StructInstance { args, .. } => {
            if let Type::StructInstance { args: concrete_args, .. } = concrete {
                assert(instances_of(args@, concrete_args@, earlier));
                assert forall|i: int| 0 <= i < args@.len() implies instance_of(
                    args@[i],
                    concrete_args@[i],
                    later,
                ) by {
                    assert(decreases_to!(pattern => args@[i]));
                    assert(instance_of(args@[i], concrete_args@[i], earlier));
                    lemma_instance_of_extends(args@[i], concrete_args@[i], earlier, later);
                }
                assert(instances_of(args@, concrete_args@, later));
            }
        },
        Type::EnumInstance { args, .. } => {
            if let Type::EnumInstance { args: concrete_args, .. } = concrete {
                assert(instances_of(args@, concrete_args@, earlier));
                assert forall|i: int| 0 <= i < args@.len() implies instance_of(
                    args@[i],
                    concrete_args@[i],
                    later,
                ) by {
                    assert(decreases_to!(pattern => args@[i]));
                    assert(instance_of(args@[i], concrete_args@[i], earlier));
                    lemma_instance_of_extends(args@[i], concrete_args@[i], earlier, later);
                }
                assert(instances_of(args@, concrete_args@, later));
            }
        },
        _ => {},
    }
}

/// Every type parameter in `ty` has a binding in `substitutions`.
pub open spec fn params_bound(ty: Type, substitutions: NameMap<Type>) -> bool
    decreases ty,
{
    match ty {
        Type::TypeParam { name } => substitutions.spec_get(name@) is Some,
        Type::Array { element, .. } => params_bound(*element, substitutions),
        Type::Slice { element } => params_bound(*element, substitutions),
        Type::StructInstance { args, .. } => all_params_bound(args@, substitutions),
        Type::EnumInstance { args, .. } => all_params_bound(args@, substitutions),
        _ => true,
    }
}

/// Every type parameter in each of `tys` has a binding in `substitutions`.
pub open spec fn all_params_bound(tys: Seq<Type>, substitutions: NameMap<Type>) -> bool
    decreases tys,
{
    forall|i: int| 0 <= i < tys.len() ==> params_bound(tys[i], substitutions)
}

/// An instance of a pattern binds every type parameter the pattern mentions.
pub proof fn lemma_instance_of_binds_params(pattern: Type, concrete: Type, substitutions: NameMap<Type>)
    requires
        instance_of(pattern, concrete, substitutions),
    ensures
        params_bound(pattern, substitutions),
    decreases pattern,
{
    match pattern {
        Type::Array { element, .. } => {
            if let Type::Array { element: concrete_element, .. } = concrete {
                lemma_instance_of_binds_params(*element, *concrete_element, substitutions);
            }
        },
        Type::Slice { element } => {
            if let Type::Slice { element: concrete_element } = concrete {
                lemma_instance_of_binds_params(*element, *concrete_element, substitutions);
            }
        },
        Type::StructInstance { args, .. } => {
            if let Type::StructInstance { args: concrete_args, .. } = concrete {
                assert(instances_of(args@, concrete_args@, substitutions));
                assert forall|i: int| 0 <= i < args@.len() implies params_bound(args@[i], substitutions) by {
                    assert(decreases_to!(pattern => args));
                    assert(decreases_to!(args => args@[i]));
                    assert(instance_of(args@[i], concrete_args@[i], substitutions));
                    lemma_instance_of_binds_params(args@[i], concrete_args@[i], substitutions);
                }
                assert(all_params_bound(args@, substitutions));
            }
        },
        Type::EnumInstance { args, .. } => {
            if let Type::EnumInstance { args: concrete_args, .. } = concrete {
                assert(instances_of(args@, concrete_args@, substitutions));
                assert forall|i: int| 0 <= i < args@.len() implies params_bound(args@[i], substitutions) by {
                    assert(decreases_to!(pattern => args));
                    assert(decreases_to!(args => args@[i]));
                    assert(instance_of(args@[i], concrete_args@[i], substitutions));
                    lemma_instance_of_binds_params(args@[i], concrete_args@[i], substitutions);
                }
                assert(all_params_bound(args@, substitutions));
            }
        },
        _ => {},
    }
}

/// Under fixed bindings a pattern has one instance, up to type equality.
pub proof fn lemma_instance_of_unique(
    pattern: Type,
    first: Type,
    second: Type,
    substitutions: NameMap<Type>,
)
    requires
        instance_of(pattern, first, substitutions),
        instance_of(pattern, second, substitutions),
    ensures
        same_type(first, second),
    decreases pattern,
{
    match pattern {
        Type::TypeParam { name } => {
            let t = substitutions.spec_get(name@)->Some_0;
            lemma_same_type_symmetric(t, first);
            lemma_same_type_transitive(first, t, second);
        },
        Type::Array { element, .. } => {
            if let (
                Type::Array { element: first_element, .. },
                Type::Array { element: second_element, .. },
            ) = (first, second) {
                lemma_instance_of_unique(*element, *first_element, *second_element, substitutions);
            }
        },
        Type::Slice { element } => {
            if let (Type::Slice { element: first_element }, Type::Slice { element: second_element }) = (
                first,
                second,
            ) {
                lemma_instance_of_unique(*element, *first_element, *second_element, substitutions);
            }
        },
        Type::StructInstance { args, .. } => {
            if let (
                Type::StructInstance { args: first_args, .. },
                Type::StructInstance { args: second_args, .. },
            ) = (first, second) {
                assert(instances_of(args@, first_args@, substitutions));
                assert(instances_of(args@, second_args@, substitutions));
                assert forall|i: int| 0 <= i < first_args@.len() implies same_type(
                    first_args@[i],
                    second_args@[i],
                ) by {
                    assert(decreases_to!(pattern => args));
                    assert(decreases_to!(args => args@[i]));
                    assert(instance_of(args@[i], first_args@[i], substitutions));
                    assert(instance_of(args@[i], second_args@[i], substitutions));
                    lemma_instance_of_unique(args@[i], first_args@[i], second_args@[i], substitutions);
                }
                assert(same_types(first_args@, second_args@));
            }
        },
        Type::EnumInstance { args, .. } => {
            if let (
                Type::EnumInstance { args: first_args, .. },
                Type::EnumInstance { args: second_args, .. },
            ) = (first, second) {
                assert(instances_of(args@, first_args@, substitutions));
                assert(instances_of(args@, second_args@, substitutions));
                assert forall|i: int| 0 <= i < first_args@.len() implies same_type(
                    first_args@[i],
                    second_args@[i],
                ) by {
                    assert(decreases_to!(pattern => args));
                    assert(decreases_to!(args => args@[i]));
                    assert(instance_of(args@[i], first_args@[i], substitutions));
                    assert(instance_of(args@[i], second_args@[i], substitutions));
                    lemma_instance_of_unique(args@[i], first_args@[i], second_args@[i], substitutions);
                }
                assert(same_types(first_args@, second_args@));
            }
        },
        _ => {
            lemma_same_type_symmetric(pattern, first);
            lemma_same_type_transitive(first, pattern, second);
        },
    }
}

/// `result` is `ty` with every type parameter that `substitutions` binds
/// replaced by its binding, and everything else kept.
pub open spec fn substituted(ty: Type, result: Type, substitutions: NameMap<Type>) -> bool
    decreases ty,
{
    match ty {
        Type::TypeParam { name } => match substitutions.spec_get(name@) {
            Some(t) => same_type(result, t),
            None => same_type(result, ty),
        },
        Type::Slice { element } => result matches Type::Slice { element: e } && substituted(*element, *e, substitutions),
        Type::Array { element, length } => result matches Type::Array { element: e, length: l } && l == length
            && substituted(*element, *e, substitutions),
        Type::StructInstance { name, args } => result matches Type::StructInstance { name: n, args: a } && n@ == name@
            && a@.len() == args@.len() && forall|i: int|
            0 <= i < args@.len() ==> substituted(#[trigger] args@[i], a@[i], substitutions),
        Type::EnumInstance { name, args } => result matches Type::EnumInstance { name: n, args: a } && n@ == name@
            && a@.len() == args@.len() && forall|i: int|
            0 <= i < args@.len() ==> substituted(#[trigger] args@[i], a@[i], substitutions),
        _ => same_type(result, ty),
    }
}

/// Substituting with an empty map of bindings leaves a type as it was: the
/// result of `substitute_type_params` under no bindings is the same type.
pub proof fn substituting_nothing_keeps_type(ty: Type, substitutions: NameMap<Type>, result: Type)
    requires
        substitutions.entries().len() == 0,
        substituted(ty, result, substitutions),
    ensures
        same_type(result, ty),
    decreases ty,
{
    match ty {
        Type::TypeParam { name } => {
            assert(substitutions.spec_get(name@) is None);
            assert(same_type(result, ty));
        },
        Type::Slice { element } => {
            substituting_nothing_keeps_type(*element, substitutions, *result->Slice_element);
            assert(same_type(result, ty));
        },
        Type::Array { element, .. } => {
            substituting_nothing_keeps_type(*element, substitutions, *result->Array_element);
            assert(same_type(result, ty));
        },
        Type::StructInstance { name, args } => {
            let a = result->StructInstance_args;
            assert forall|i: int| 0 <= i < a@.len() implies same_type(a@[i], args@[i]) by {
                substituting_nothing_keeps_type(args@[i], substitutions, a@[i]);
            }
            assert(same_types(a@, args@));
            assert(same_type(result, ty));
        },
        Type::EnumInstance { name, args } => {
            let a = result->EnumInstance_args;
            assert forall|i: int| 0 <= i < a@.len() implies same_type(a@[i], args@[i]) by {
                substituting_nothing_keeps_type(args@[i], substitutions, a@[i]);
            }
            assert(same_types(a@, args@));
            assert(same_type(result, ty));
        },
        _ => {
            assert(same_type(result, ty));
        },
    }
}

/// `ty` with every type parameter that `substitutions` binds replaced by its
/// binding.
pub fn substitute_type_params(ty: &Type, substitutions: &NameMap<Type>) -> (r: Type)
    ensures
        ty matches Type::TypeParam { name } ==> (substitutions.spec_get(name@) matches Some(t)
            ==> same_type(r, t)) && (substitutions.spec_get(name@) is None ==> same_type(r, *ty)),
        !(ty is TypeParam || ty is Slice || ty is Array || ty is StructInstance
            || ty is EnumInstance) ==> same_type(r, *ty),
        params_bound(*ty, *substitutions) ==> instance_of(*ty, r, *substitutions),
        substituted(*ty, r, *substitutions),
    decreases ty, 1nat,
{
    match ty {
        Type::TypeParam { name } => match substitutions.get(name.as_str()) {
            Some(t) => {
                let r = clone_type(t);
                proof {
                    lemma_same_type_symmetric(r, *t);
                }
                r
            },
            None => clone_type(ty),
        },
        Type::Slice { element } => Type::Slice {
            element: Box::new(substitute_type_params(element, substitutions)),
        },
        Type::Array { element, length } => Type::Array {
            element: Box::new(substitute_type_params(element, substitutions)),
            length: *length,
        },
        Type::StructInstance { name, args } => Type::StructInstance {
            name: name.clone(),
            args: substitute_all(args, substitutions),
        },
        Type::EnumInstance { name, args } => Type::EnumInstance {
            name: name.clone(),
            args: substitute_all(args, substitutions),
        },
        _ => {
            let r = clone_type(ty);
            proof {
                lemma_same_type_symmetric(r, *ty);
            }
            r
        },
    }
}

fn substitute_all(args: &Vec<Type>, substitutions: &NameMap<Type>) -> (r: Vec<Type>)
    ensures
        r@.len() == args@.len(),
        all_params_bound(args@, *substitutions) ==> instances_of(args@, r@, *substitutions),
        forall|i: int| 0 <= i < args@.len() ==> substituted(#[trigger] args@[i], r@[i], *substitutions),
    decreases args, 0nat,
{
    let mut out: Vec<Type> = Vec::new();
    let mut i: usize = 0;
    while i < args.len()
        invariant
            i <= args@.len(),
            out@.len() == i,
            forall|j: int|
                0 <= j < i ==> (params_bound(args@[j], *substitutions) ==> instance_of(
                    args@[j],
                    #[trigger] out@[j],
                    *substitutions,
                )),
            forall|j: int| 0 <= j < i ==> substituted(#[trigger] args@[j], out@[j], *substitutions),
        decreases args@.len() - i,
    {
        assert(decreases_to!(args => args@[i as int]));
        out.push(substitute_type_params(&args[i], substitutions));
        i += 1;
    }
    proof {
        if all_params_bound(args@, *substitutions) {
            assert forall|j: int| 0 <= j < args@.len() implies instance_of(args@[j], out@[j], *substitutions) by {
                assert(params_bound(args@[j], *substitutions));
            }
        }
    }
    out
}

/// The field layouts of a struct, in declaration order.
fn lower_struct_fields(
    struct_name: &str,
    fields: &Vec<StructField>,
    layouts: &NameMap<StructLayout>,
    enum_layouts: &NameMap<EnumLayout>,
) -> (r: Result<Vec<StructFieldLayout>, String>)
    ensures
        r is Ok <==> forall|i: int|
            0 <= i < fields@.len() ==> llvm_type_of(#[trigger] fields@[i].ty, *layouts, *enum_layouts) is Some,
        r matches Ok(lowered) ==> lowered@.len() == fields@.len() && forall|i: int|
            0 <= i < lowered@.len() ==> (#[trigger] lowered@[i]).index == i && lowered@[i].name
                == fields@[i].name && llvm_type_of(fields@[i].ty, *layouts, *enum_layouts) == Some(lowered@[i].ty@)
                && same_type(lowered@[i].ax_ty, fields@[i].ty),
{
    let mut lowered: Vec<StructFieldLayout> = Vec::new();
    let mut i: usize = 0;
    while i < fields.len()
        invariant
            i <= fields@.len(),
            lowered@.len() == i,
            forall|j: int|
                0 <= j < i ==> (#[trigger] lowered@[j]).index == j && lowered@[j].name
                    == fields@[j].name && llvm_type_of(fields@[j].ty, *layouts, *enum_layouts) == Some(lowered@[j].ty@)
                    && same_type(lowered@[j].ax_ty, fields@[j].ty),
        decreases fields@.len() - i,
    {
        let field = &fields[i];
        let ty = match llvm_type(&field.ty, layouts, enum_layouts) {
            Some(ty) => ty,
            None => {
                let shown_ty = ax_type_name(&field.ty);
                return Err(
                    concat(
                        &[
                            "struct `",
                            struct_name,
                            "` field `",
                            field.name.as_str(),
                            "` uses unsupported type ",
                            shown_ty.as_str(),
                        ],
                    ),
                );
            },
        };
        lowered.push(
            StructFieldLayout {
                name: field.name.clone(),
                index: i,
                ty,
                ax_ty: clone_type(&field.ty),
            },
        );
        i += 1;
    }
    assert forall|k: int| 0 <= k < fields@.len() implies llvm_type_of(#[trigger] fields@[k].ty, *layouts, *enum_layouts)
        is Some by {
        assert(lowered@[k].index == k);
    }
    Ok(lowered)
}

/// `ty` mentions no instance of a generic struct or enum.
pub open spec fn mentions_no_instance(ty: Type) -> bool
    decreases ty,
{
    match ty {
        Type::EnumInstance { .. } | Type::StructInstance { .. } => false,
        Type::Slice { element } => mentions_no_instance(*element),
        Type::Array { element, .. } => mentions_no_instance(*element),
        _ => true,
    }
}

/// No type that `program` writes mentions an instance of a generic struct or
/// enum.
pub open spec fn program_mentions_no_instance(program: Program) -> bool {
    forall|k: int|
        0 <= k < items_types_of(program.items@).len() ==> mentions_no_instance(
            #[trigger] items_types_of(program.items@)[k],
        )
}

/// `ty` is a scalar type whose LLVM type needs no layout: `bool`, `i32`,
/// `f32`, `string`, bytes or a string list.
pub open spec fn scalar_type(ty: Type) -> bool {
    ty is Bool || ty is I32 || ty is F32 || ty is String || ty is Bytes || ty is StringList
}

/// Every field of `fields` has a scalar type.
pub open spec fn scalar_fields(fields: Seq<StructField>) -> bool {
    forall|f: int| 0 <= f < fields.len() ==> scalar_type(#[trigger] fields[f].ty)
}

/// Every field list stored in `sources` has only scalar fields.
pub open spec fn sources_scalar(sources: NameMap<Vec<StructField>>) -> bool {
    forall|k: Seq<char>| #[trigger] sources.spec_get(k) is Some ==> scalar_fields(sources.spec_get(k)->0@)
}

/// Every field of every struct of `program` has a scalar type.
pub open spec fn struct_fields_scalar(program: Program) -> bool {
    forall|i: int|
        0 <= i < program.items@.len() ==> (#[trigger] program.items@[i] matches Item::Struct { fields, .. }
            ==> scalar_fields(fields@))
}

/// Every enum of `program` has at most `2^31` variants, so that its tags fit
/// in `i32`.
pub open spec fn enum_tags_fit(program: Program) -> bool {
    forall|i: int|
        0 <= i < program.items@.len() ==> (#[trigger] program.items@[i] matches Item::Enum { variants, .. }
            ==> variants@.len() <= 2147483648)
}

/// Every recorded type is an enum instance, stored under its AX name.
pub open spec fn only_enum_instances(instances: NameMap<Type>) -> bool {
    forall|k: Seq<char>| #[trigger] instances.spec_get(k) matches Some(t) ==> t is EnumInstance && ax_name_of(t) == k
}

/// Every recorded type is a struct instance, stored under its AX name.
pub open spec fn only_struct_instances(instances: NameMap<Type>) -> bool {
    forall|k: Seq<char>| #[trigger] instances.spec_get(k) matches Some(t) ==> t is StructInstance && ax_name_of(t) == k
}

/// Records every enum instance in `ty`, outermost first.
fn collect_enum_instance_type(ty: &Type, instances: &mut NameMap<Type>)
    requires
        only_enum_instances(*old(instances)),
    ensures
        only_enum_instances(*final(instances)),
        forall|k: Seq<char>| #[trigger] old(instances).spec_get(k) is Some ==> final(instances).spec_get(k) is Some,
        *ty is EnumInstance ==> final(instances).spec_get(ax_name_of(*ty)) is Some,
        mentions_no_instance(*ty) ==> *final(instances) == *old(instances),
    decreases ty, 1nat,
{
    match ty {
        Type::EnumInstance { args, .. } => {
            let instance = clone_type(ty);
            proof {
                lemma_same_type_same_name(instance, *ty);
            }
            instances.insert(enum_layout_key(ty), instance);
            assert(instances.spec_get(ax_name_of(*ty)) is Some);
            assert forall|k: Seq<char>| #[trigger] old(instances).spec_get(k) is Some implies instances.spec_get(k) is Some by {
                if k != ax_name_of(*ty) {
                    assert(instances.spec_get(k) == old(instances).spec_get(k));
                }
            }
            collect_enum_instance_types_in(args, instances);
        },
        Type::StructInstance { args, .. } => collect_enum_instance_types_in(args, instances),
        Type::Slice { element } | Type::Array { element, .. } => collect_enum_instance_type(
            element,
            instances,
        ),
        _ => {},
    }
}

fn collect_enum_instance_types_in(args: &Vec<Type>, instances: &mut NameMap<Type>)
    requires
        only_enum_instances(*old(instances)),
    ensures
        only_enum_instances(*final(instances)),
        forall|k: Seq<char>| #[trigger] old(instances).spec_get(k) is Some ==> final(instances).spec_get(k) is Some,
        forall|i: int|
            0 <= i < args@.len() && args@[i] is EnumInstance ==> final(instances).spec_get(
                ax_name_of(#[trigger] args@[i]),
            ) is Some,
    decreases args, 0nat,
{
    let mut i: usize = 0;
    while i < args.len()
        invariant
            i <= args@.len(),
            only_enum_instances(*instances),
            forall|k: Seq<char>| #[trigger] old(instances).spec_get(k) is Some ==> instances.spec_get(k) is Some,
            forall|j: int|
                0 <= j < i && args@[j] is EnumInstance ==> instances.spec_get(
                    ax_name_of(#[trigger] args@[j]),
                ) is Some,
        decreases args@.len() - i,
    {
        assert(decreases_to!(args => args@[i as int]));
        collect_enum_instance_type(&args[i], instances);
        i += 1;
    }
}

/// Records every concrete struct instance in `ty`, outermost first.
fn collect_struct_instance_type(ty: &Type, instances: &mut NameMap<Type>)
    requires
        only_struct_instances(*old(instances)),
    ensures
        only_struct_instances(*final(instances)),
        forall|k: Seq<char>| #[trigger] old(instances).spec_get(k) is Some ==> final(instances).spec_get(k) is Some,
        *ty is StructInstance && !contains_type_param(*ty) ==> final(instances).spec_get(ax_name_of(*ty)) is Some,
        mentions_no_instance(*ty) ==> *final(instances) == *old(instances),
    decreases ty, 1nat,
{
    match ty {
        Type::StructInstance { args, .. } => {
            if !type_contains_type_param(ty) {
                let instance = clone_type(ty);
                proof {
                    lemma_same_type_same_name(instance, *ty);
                }
                instances.insert(struct_layout_key(ty), instance);
                assert(instances.spec_get(ax_name_of(*ty)) is Some);
                assert forall|k: Seq<char>| #[trigger] old(instances).spec_get(k) is Some implies instances.spec_get(k) is Some by {
                    if k != ax_name_of(*ty) {
                        assert(instances.spec_get(k) == old(instances).spec_get(k));
                    }
                }
            }
            collect_struct_instance_types_in(args, instances);
        },
        Type::EnumInstance { args, .. } => collect_struct_instance_types_in(args, instances),
        Type::Slice { element } | Type::Array { element, .. } => collect_struct_instance_type(
            element,
            instances,
        ),
        _ => {},
    }
}

fn collect_struct_instance_types_in(args: &Vec<Type>, instances: &mut NameMap<Type>)
    requires
        only_struct_instances(*old(instances)),
    ensures
        only_struct_instances(*final(instances)),
        forall|k: Seq<char>| #[trigger] old(instances).spec_get(k) is Some ==> final(instances).spec_get(k) is Some,
        forall|i: int|
            0 <= i < args@.len() && args@[i] is StructInstance && !contains_type_param(args@[i]) ==> final(instances).spec_get(
                ax_name_of(#[trigger] args@[i]),
            ) is Some,
    decreases args, 0nat,
{
    let mut i: usize = 0;
    while i < args.len()
        invariant
            i <= args@.len(),
            only_struct_instances(*instances),
            forall|k: Seq<char>| #[trigger] old(instances).spec_get(k) is Some ==> instances.spec_get(k) is Some,
            forall|j: int|
                0 <= j < i && args@[j] is StructInstance && !contains_type_param(args@[j]) ==> instances.spec_get(
                    ax_name_of(#[trigger] args@[j]),
                ) is Some,
        decreases args@.len() - i,
    {
        assert(decreases_to!(args => args@[i as int]));
        collect_struct_instance_type(&args[i], instances);
        i += 1;
    }
}

/// The types behind a list of references.
pub open spec fn derefs<'a>(s: Seq<&'a Type>) -> Seq<Type> {
    s.map_values(|t: &'a Type| *t)
}

/// Pushing a reference adds the type behind it.
pub proof fn lemma_derefs_push<'a>(s: Seq<&'a Type>, t: &'a Type)
    ensures
        derefs(s.push(t)) == derefs(s) + seq![*t],
{
    assert(derefs(s.push(t)) =~= derefs(s) + seq![*t]);
}

/// The types of the fields a struct pattern binds.
pub open spec fn pattern_field_types(fields: Seq<StructPatternField>) -> Seq<Type>
    decreases fields.len(),
{
    if fields.len() == 0 {
        Seq::empty()
    } else {
        pattern_field_types(fields.drop_last()) + seq![fields.last().ty]
    }
}

/// The types a pattern writes down: enum payload types, struct field types,
/// and those of the alternatives of an or-pattern.
pub open spec fn pattern_types_of(pattern: MatchPattern) -> Seq<Type>
    decreases pattern, 1nat,
{
    match pattern {
        MatchPattern::EnumVariant { payload_type, .. } => match payload_type {
            Some(t) => seq![t],
            None => Seq::empty(),
        },
        MatchPattern::Struct { fields, .. } => pattern_field_types(fields@),
        MatchPattern::Or { alternatives } => patterns_types_of(alternatives@),
        _ => Seq::empty(),
    }
}

/// The types a list of patterns writes down.
pub open spec fn patterns_types_of(items: Seq<MatchPattern>) -> Seq<Type>
    decreases items, 0nat,
{
    if items.len() == 0 {
        Seq::empty()
    } else {
        patterns_types_of(items.drop_last()) + pattern_types_of(items.last())
    }
}

/// The types an expression writes down, left to right (the patterns it tests).
pub open spec fn expr_types_of(expr: Expr) -> Seq<Type>
    decreases expr, 1nat,
{
    match expr {
        Expr::Unary { expr: inner, .. } => expr_types_of(*inner),
        Expr::Try { expr: inner } => expr_types_of(*inner),
        Expr::EnumPayload { value } => expr_types_of(*value),
        Expr::Field { base, .. } => expr_types_of(*base),
        Expr::Binary { left, right, .. } => expr_types_of(*left) + expr_types_of(*right),
        Expr::Call { arguments, .. } => exprs_types_of(arguments@),
        Expr::ArrayLiteral { elements } => exprs_types_of(elements@),
        Expr::StructLiteral { fields, .. } => fields_types_of(fields@),
        Expr::Block { statements, value } => statements_types_of(statements@) + expr_types_of(*value),
        Expr::Match { scrutinee, arms } => expr_types_of(*scrutinee) + arms_types_of(arms@),
        Expr::EnumVariant { payload, .. } => match payload {
            Some(inner) => expr_types_of(*inner),
            None => Seq::empty(),
        },
        Expr::MatchTest { scrutinee, pattern } => expr_types_of(*scrutinee) + pattern_types_of(pattern),
        Expr::Index { base, index } => expr_types_of(*base) + expr_types_of(*index),
        Expr::Slice { base, start, end } => expr_types_of(*base) + expr_types_of(*start) + expr_types_of(*end),
        _ => Seq::empty(),
    }
}

/// The types a list of expressions writes down.
pub open spec fn exprs_types_of(items: Seq<Expr>) -> Seq<Type>
    decreases items, 0nat,
{
    if items.len() == 0 {
        Seq::empty()
    } else {
        exprs_types_of(items.drop_last()) + expr_types_of(items.last())
    }
}

/// The types the values of struct literal fields write down.
pub open spec fn fields_types_of(items: Seq<StructLiteralField>) -> Seq<Type>
    decreases items, 0nat,
{
    if items.len() == 0 {
        Seq::empty()
    } else {
        fields_types_of(items.drop_last()) + expr_types_of(items.last().value)
    }
}

/// The types a match arm's guard writes down, if it has one.
pub open spec fn guard_types_of(guard: Option<Expr>) -> Seq<Type>
    decreases guard, 0nat,
{
    match guard {
        Some(guard) => expr_types_of(guard),
        None => Seq::empty(),
    }
}

/// The types a match arm writes down: its guard's, its pattern's, its value's.
pub open spec fn arm_types_of(arm: MatchExprArm) -> Seq<Type>
    decreases arm, 1nat,
{
    guard_types_of(arm.guard) + pattern_types_of(arm.pattern) + expr_types_of(arm.value)
}

/// The types a list of match arms writes down.
pub open spec fn arms_types_of(items: Seq<MatchExprArm>) -> Seq<Type>
    decreases items, 0nat,
{
    if items.len() == 0 {
        Seq::empty()
    } else {
        arms_types_of(items.drop_last()) + arm_types_of(items.last())
    }
}

/// The types an assignment target writes down.
pub open spec fn place_types_of(place: Place) -> Seq<Type>
    decreases place, 1nat,
{
    match place {
        Place::Local { .. } => Seq::empty(),
        Place::Field { base, .. } => place_types_of(*base),
        Place::Index { base, index } => place_types_of(*base) + expr_types_of(*index),
    }
}

/// The types a statement writes down: a `let`'s declared type first.
pub open spec fn statement_types_of(statement: Statement) -> Seq<Type>
    decreases statement, 1nat,
{
    match statement {
        Statement::Let { ty, initializer, .. } => seq![ty] + expr_types_of(initializer),
        Statement::Assign { target, value } => place_types_of(target) + expr_types_of(value),
        Statement::Eval { expr } => expr_types_of(expr),
    }
}

/// The types a list of statements writes down.
pub open spec fn statements_types_of(items: Seq<Statement>) -> Seq<Type>
    decreases items, 0nat,
{
    if items.len() == 0 {
        Seq::empty()
    } else {
        statements_types_of(items.drop_last()) + statement_types_of(items.last())
    }
}

/// The types a terminator writes down.
pub open spec fn terminator_types_of(terminator: Terminator) -> Seq<Type> {
    match terminator {
        Terminator::Branch { condition, .. } => expr_types_of(condition),
        Terminator::Return { value } => expr_types_of(value),
        Terminator::Goto { .. } | Terminator::Unreachable => Seq::empty(),
    }
}

/// The types a list of basic blocks writes down.
pub open spec fn blocks_types_of(items: Seq<BasicBlock>) -> Seq<Type>
    decreases items.len(),
{
    if items.len() == 0 {
        Seq::empty()
    } else {
        blocks_types_of(items.drop_last()) + statements_types_of(items.last().statements@)
            + terminator_types_of(items.last().terminator)
    }
}

/// The declared types of parameters, in order.
pub open spec fn param_types_of(params: Seq<Param>) -> Seq<Type>
    decreases params.len(),
{
    if params.len() == 0 {
        Seq::empty()
    } else {
        param_types_of(params.drop_last()) + seq![params.last().ty]
    }
}

/// The declared types of locals, in order.
pub open spec fn local_types_of(locals: Seq<Local>) -> Seq<Type>
    decreases locals.len(),
{
    if locals.len() == 0 {
        Seq::empty()
    } else {
        local_types_of(locals.drop_last()) + seq![locals.last().ty]
    }
}

/// The types a function writes down: its parameters', its return type, its
/// locals', then those of its body.
pub open spec fn function_types_of(function: Function) -> Seq<Type> {
    param_types_of(function.params@) + seq![function.return_type] + local_types_of(function.locals@)
        + blocks_types_of(function.blocks@)
}

/// The field types of a struct definition, in order.
pub open spec fn struct_field_types_of(fields: Seq<StructField>) -> Seq<Type>
    decreases fields.len(),
{
    if fields.len() == 0 {
        Seq::empty()
    } else {
        struct_field_types_of(fields.drop_last()) + seq![fields.last().ty]
    }
}

/// The payload types of enum variants, in order, skipping variants without one.
pub open spec fn payload_types_of(variants: Seq<EnumVariant>) -> Seq<Type>
    decreases variants.len(),
{
    if variants.len() == 0 {
        Seq::empty()
    } else {
        payload_types_of(variants.drop_last()) + match variants.last().payload {
            Some(t) => seq![t],
            None => Seq::empty(),
        }
    }
}

/// The types an item writes down.
pub open spec fn item_types_of(item: Item) -> Seq<Type> {
    match item {
        Item::Function(function) => function_types_of(function),
        Item::Struct { fields, .. } => struct_field_types_of(fields@),
        Item::Enum { variants, .. } => payload_types_of(variants@),
        Item::Const { ty, .. } => seq![ty],
    }
}

/// The types a list of items writes down.
pub open spec fn items_types_of(items: Seq<Item>) -> Seq<Type>
    decreases items.len(),
{
    if items.len() == 0 {
        Seq::empty()
    } else {
        items_types_of(items.drop_last()) + item_types_of(items.last())
    }
}

/// Every type that the program writes down, in program order: parameter,
/// return and local types of functions with the `let` types and pattern
/// types of their bodies, struct field types, enum payload types and const
/// types.
pub fn program_types<'a>(program: &'a Program) -> (r: Vec<&'a Type>)
    ensures
        derefs(r@) == items_types_of(program.items@),
{
    let mut out: Vec<&'a Type> = Vec::new();
    let items = &program.items;
    let mut i: usize = 0;
    while i < items.len()
        invariant
            i <= items@.len(),
            derefs(out@) == items_types_of(items@.take(i as int)),
        decreases items@.len() - i,
    {
        assert(items@.take(i + 1).drop_last() =~= items@.take(i as int));
        match &items[i] {
            Item::Function(function) => function_types(function, &mut out),
            Item::Struct { fields, .. } => {
                let ghost start = derefs(out@);
                let mut f: usize = 0;
                while f < fields.len()
                    invariant
                        f <= fields@.len(),
                        derefs(out@) == start + struct_field_types_of(fields@.take(f as int)),
                    decreases fields@.len() - f,
                {
                    assert(fields@.take(f + 1).drop_last() =~= fields@.take(f as int));
                    proof {
                        lemma_derefs_push(out@, &fields@[f as int].ty);
                    }
                    out.push(&fields[f].ty);
                    assert(derefs(out@) =~= start + struct_field_types_of(fields@.take(f + 1)));
                    f += 1;
                }
                assert(fields@.take(fields@.len() as int) =~= fields@);
            },
            Item::Enum { variants, .. } => {
                let ghost start = derefs(out@);
                let mut v: usize = 0;
                while v < variants.len()
                    invariant
                        v <= variants@.len(),
                        derefs(out@) == start + payload_types_of(variants@.take(v as int)),
                    decreases variants@.len() - v,
                {
                    assert(variants@.take(v + 1).drop_last() =~= variants@.take(v as int));
                    match &variants[v].payload {
                        Some(payload) => {
                            proof {
                                lemma_derefs_push(out@, payload);
                            }
                            out.push(payload);
                        },
                        None => {},
                    }
                    assert(derefs(out@) =~= start + payload_types_of(variants@.take(v + 1)));
                    v += 1;
                }
                assert(variants@.take(variants@.len() as int) =~= variants@);
            },
            Item::Const { ty, .. } => {
                proof {
                    lemma_derefs_push(out@, ty);
                }
                out.push(ty);
            },
        }
        assert(derefs(out@) =~= items_types_of(items@.take(i + 1)));
        i += 1;
    }
    assert(items@.take(items@.len() as int) =~= items@);
    out
}

fn function_types<'a>(function: &'a Function, out: &mut Vec<&'a Type>)
    ensures
        derefs(final(out)@) == derefs(old(out)@) + function_types_of(*function),
{
    let ghost start = derefs(out@);
    let mut p: usize = 0;
    while p < function.params.len()
        invariant
            p <= function.params@.len(),
            derefs(out@) == start + param_types_of(function.params@.take(p as int)),
        decreases function.params@.len() - p,
    {
        assert(function.params@.take(p + 1).drop_last() =~= function.params@.take(p as int));
        proof {
            lemma_derefs_push(out@, &function.params@[p as int].ty);
        }
        out.push(&function.params[p].ty);
        assert(derefs(out@) =~= start + param_types_of(function.params@.take(p + 1)));
        p += 1;
    }
    assert(function.params@.take(function.params@.len() as int) =~= function.params@);
    proof {
        lemma_derefs_push(out@, &function.return_type);
    }
    out.push(&function.return_type);
    let ghost after_return = derefs(out@);
    let mut l: usize = 0;
    while l < function.locals.len()
        invariant
            l <= function.locals@.len(),
            derefs(out@) == after_return + local_types_of(function.locals@.take(l as int)),
        decreases function.locals@.len() - l,
    {
        assert(function.locals@.take(l + 1).drop_last() =~= function.locals@.take(l as int));
        proof {
            lemma_derefs_push(out@, &function.locals@[l as int].ty);
        }
        out.push(&function.locals[l].ty);
        assert(derefs(out@) =~= after_return + local_types_of(function.locals@.take(l + 1)));
        l += 1;
    }
    assert(function.locals@.take(function.locals@.len() as int) =~= function.locals@);
    let ghost after_locals = derefs(out@);
    let mut b: usize = 0;
    while b < function.blocks.len()
        invariant
            b <= function.blocks@.len(),
            derefs(out@) == after_locals + blocks_types_of(function.blocks@.take(b as int)),
        decreases function.blocks@.len() - b,
    {
        assert(function.blocks@.take(b + 1).drop_last() =~= function.blocks@.take(b as int));
        let block = &function.blocks[b];
        statements_types(&block.statements, out);
        match &block.terminator {
            Terminator::Branch { condition, .. } => expr_types(condition, out),
            Terminator::Return { value } => expr_types(value, out),
            Terminator::Goto { .. } | Terminator::Unreachable => {},
        }
        assert(derefs(out@) =~= after_locals + blocks_types_of(function.blocks@.take(b + 1)));
        b += 1;
    }
    assert(function.blocks@.take(function.blocks@.len() as int) =~= function.blocks@);
    assert(derefs(out@) =~= start + function_types_of(*function));
}

fn statements_types<'a>(statements: &'a Vec<Statement>, out: &mut Vec<&'a Type>)
    ensures
        derefs(final(out)@) == derefs(old(out)@) + statements_types_of(statements@),
    decreases statements, 0nat,
{
    let ghost start = derefs(out@);
    let mut i: usize = 0;
    while i < statements.len()
        invariant
            i <= statements@.len(),
            derefs(out@) == start + statements_types_of(statements@.take(i as int)),
        decreases statements@.len() - i,
    {
        assert(decreases_to!(statements => statements@[i as int]));
        assert(statements@.take(i + 1).drop_last() =~= statements@.take(i as int));
        statement_types(&statements[i], out);
        assert(derefs(out@) =~= start + statements_types_of(statements@.take(i + 1)));
        i += 1;
    }
    assert(statements@.take(statements@.len() as int) =~= statements@);
}

fn statement_types<'a>(statement: &'a Statement, out: &mut Vec<&'a Type>)
    ensures
        derefs(final(out)@) == derefs(old(out)@) + statement_types_of(*statement),
    decreases statement, 1nat,
{
    match statement {
        Statement::Let { ty, initializer, .. } => {
            proof {
                lemma_derefs_push(out@, ty);
            }
            out.push(ty);
            expr_types(initializer, out);
        },
        Statement::Assign { target, value } => {
            place_types(target, out);
            expr_types(value, out);
        },
        Statement::Eval { expr } => expr_types(expr, out),
    }
    assert(derefs(out@) =~= derefs(old(out)@) + statement_types_of(*statement));
}

fn place_types<'a>(place: &'a Place, out: &mut Vec<&'a Type>)
    ensures
        derefs(final(out)@) == derefs(old(out)@) + place_types_of(*place),
    decreases place, 1nat,
{
    match place {
        Place::Local { .. } => {},
        Place::Field { base, .. } => place_types(base, out),
        Place::Index { base, index } => {
            place_types(base, out);
            expr_types(index, out);
        },
    }
    assert(derefs(out@) =~= derefs(old(out)@) + place_types_of(*place));
}

fn exprs_types<'a>(exprs: &'a Vec<Expr>, out: &mut Vec<&'a Type>)
    ensures
        derefs(final(out)@) == derefs(old(out)@) + exprs_types_of(exprs@),
    decreases exprs, 0nat,
{
    let ghost start = derefs(out@);
    let mut i: usize = 0;
    while i < exprs.len()
        invariant
            i <= exprs@.len(),
            derefs(out@) == start + exprs_types_of(exprs@.take(i as int)),
        decreases exprs@.len() - i,
    {
        assert(decreases_to!(exprs => exprs@[i as int]));
        assert(exprs@.take(i + 1).drop_last() =~= exprs@.take(i as int));
        expr_types(&exprs[i], out);
        assert(derefs(out@) =~= start + exprs_types_of(exprs@.take(i + 1)));
        i += 1;
    }
    assert(exprs@.take(exprs@.len() as int) =~= exprs@);
}

fn fields_types<'a>(fields: &'a Vec<StructLiteralField>, out: &mut Vec<&'a Type>)
    ensures
        derefs(final(out)@) == derefs(old(out)@) + fields_types_of(fields@),
    decreases fields, 0nat,
{
    let ghost start = derefs(out@);
    let mut i: usize = 0;
    while i < fields.len()
        invariant
            i <= fields@.len(),
            derefs(out@) == start + fields_types_of(fields@.take(i as int)),
        decreases fields@.len() - i,
    {
        assert(decreases_to!(fields => fields@[i as int]));
        assert(decreases_to!(fields@[i as int] => fields@[i as int].value));
        assert(fields@.take(i + 1).drop_last() =~= fields@.take(i as int));
        expr_types(&fields[i].value, out);
        assert(derefs(out@) =~= start + fields_types_of(fields@.take(i + 1)));
        i += 1;
    }
    assert(fields@.take(fields@.len() as int) =~= fields@);
}

fn arm_types<'a>(arm: &'a MatchExprArm, out: &mut Vec<&'a Type>)
    ensures
        derefs(final(out)@) == derefs(old(out)@) + arm_types_of(*arm),
    decreases arm, 0nat,
{
    match &arm.guard {
        Some(guard) => expr_types(guard, out),
        None => {},
    }
    pattern_types(&arm.pattern, out);
    expr_types(&arm.value, out);
    assert(derefs(out@) =~= derefs(old(out)@) + arm_types_of(*arm));
}

fn arms_types<'a>(arms: &'a Vec<MatchExprArm>, out: &mut Vec<&'a Type>)
    ensures
        derefs(final(out)@) == derefs(old(out)@) + arms_types_of(arms@),
    decreases arms, 1nat,
{
    let ghost start = derefs(out@);
    let mut i: usize = 0;
    while i < arms.len()
        invariant
            i <= arms@.len(),
            derefs(out@) == start + arms_types_of(arms@.take(i as int)),
        decreases arms@.len() - i,
    {
        assert(decreases_to!(arms => arms@[i as int]));
        assert(arms@.take(i + 1).drop_last() =~= arms@.take(i as int));
        arm_types(&arms[i], out);
        assert(derefs(out@) =~= start + arms_types_of(arms@.take(i + 1)));
        i += 1;
    }
    assert(arms@.take(arms@.len() as int) =~= arms@);
}

fn expr_types<'a>(expr: &'a Expr, out: &mut Vec<&'a Type>)
    ensures
        derefs(final(out)@) == derefs(old(out)@) + expr_types_of(*expr),
    decreases expr, 2nat,
{
    match expr {
        Expr::Unary { expr: inner, .. } => expr_types(inner, out),
        Expr::Try { expr: inner } => expr_types(inner, out),
        Expr::EnumPayload { value } => expr_types(value, out),
        Expr::Field { base, .. } => expr_types(base, out),
        Expr::Binary { left, right, .. } => {
            expr_types(left, out);
            expr_types(right, out);
        },
        Expr::Call { arguments, .. } => exprs_types(arguments, out),
        Expr::ArrayLiteral { elements } => exprs_types(elements, out),
        Expr::StructLiteral { fields, .. } => fields_types(fields, out),
        Expr::Block { statements, value } => {
            statements_types(statements, out);
            expr_types(value, out);
        },
        Expr::Match { scrutinee, arms } => {
            expr_types(scrutinee, out);
            arms_types(arms, out);
        },
        Expr::EnumVariant { payload, .. } => match payload {
            Some(payload) => expr_types(payload, out),
            None => {},
        },
        Expr::MatchTest { scrutinee, pattern } => {
            expr_types(scrutinee, out);
            pattern_types(pattern, out);
        },
        Expr::Index { base, index } => {
            expr_types(base, out);
            expr_types(index, out);
        },
        Expr::Slice { base, start, end } => {
            expr_types(base, out);
            expr_types(start, out);
            expr_types(end, out);
        },
        _ => {},
    }
    assert(derefs(out@) =~= derefs(old(out)@) + expr_types_of(*expr));
}

fn patterns_types<'a>(patterns: &'a Vec<MatchPattern>, out: &mut Vec<&'a Type>)
    ensures
        derefs(final(out)@) == derefs(old(out)@) + patterns_types_of(patterns@),
    decreases patterns, 0nat,
{
    let ghost start = derefs(out@);
    let mut i: usize = 0;
    while i < patterns.len()
        invariant
            i <= patterns@.len(),
            derefs(out@) == start + patterns_types_of(patterns@.take(i as int)),
        decreases patterns@.len() - i,
    {
        assert(decreases_to!(patterns => patterns@[i as int]));
        assert(patterns@.take(i + 1).drop_last() =~= patterns@.take(i as int));
        pattern_types(&patterns[i], out);
        assert(derefs(out@) =~= start + patterns_types_of(patterns@.take(i + 1)));
        i += 1;
    }
    assert(patterns@.take(patterns@.len() as int) =~= patterns@);
}

fn pattern_types<'a>(pattern: &'a MatchPattern, out: &mut Vec<&'a Type>)
    ensures
        derefs(final(out)@) == derefs(old(out)@) + pattern_types_of(*pattern),
    decreases pattern, 1nat,
{
    match pattern {
        MatchPattern::EnumVariant { payload_type, .. } => match payload_type {
            Some(payload_type) => {
                proof {
                    lemma_derefs_push(out@, payload_type);
                }
                out.push(payload_type);
            },
            None => {},
        },
        MatchPattern::Struct { fields, .. } => {
            let ghost start = derefs(out@);
            let mut i: usize = 0;
            while i < fields.len()
                invariant
                    i <= fields@.len(),
                    derefs(out@) == start + pattern_field_types(fields@.take(i as int)),
                decreases fields@.len() - i,
            {
                assert(fields@.take(i + 1).drop_last() =~= fields@.take(i as int));
                proof {
                    lemma_derefs_push(out@, &fields@[i as int].ty);
                }
                out.push(&fields[i].ty);
                assert(derefs(out@) =~= start + pattern_field_types(fields@.take(i + 1)));
                i += 1;
            }
            assert(fields@.take(fields@.len() as int) =~= fields@);
        },
        MatchPattern::Or { alternatives } => patterns_types(alternatives, out),
        _ => {},
    }
    assert(derefs(out@) =~= derefs(old(out)@) + pattern_types_of(*pattern));
}

} // verus!
