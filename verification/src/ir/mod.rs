//! Lowering of a MIR program to a textual LLVM module.
use vstd::prelude::*;
use crate::diagnostic::{user_messages, AotLoweringDiagnostic};
use crate::id_map::IdMap;
use crate::mir::{clone_type, same_type, BasicBlock, Item, Local, Param, Program, Type};
use crate::monomorph::{plan_program, reachable_instances, MonomorphizationPlan};
use crate::name_map::NameMap;
use crate::runtime;
use crate::text::{appends, concat, decimal, concat_all, join, joined, owned, put, put_line, str_eq, u32_to_decimal, usize_to_decimal, views};
use self::emitter::{FunctionEmitter, EMIT_DEPTH};
use self::infer::infer_concrete_local_types;
use self::layout::{
    collect_enum_layouts, collect_struct_layouts, substituted, enum_layouts_well_formed, is_plain_enum, is_plain_struct,
    struct_layouts_well_formed,
};
use self::model::{ConstBinding, EnumLayout, FunctionSignature, LocalSlot, StringLiteral, StructFieldLayout, StructLayout};
use self::specialization::{
    defines_plain_function, find_function_source, instantiates, specialization_key, specializations_valid,
    specialized_locals, specialized_params, specialized_type,
};
use self::support::{
    ax_type_name, collect_string_literals, lemma_same_type_same_llvm_type, llvm_symbol, llvm_type, llvm_type_of,
};
use self::literals::{
    intern, interned_symbols_distinct, interned_texts_present, items_strings, literal_table, module_strings,
    symbols_distinct,
};

pub mod model;
pub mod support;
pub mod layout;
pub mod literals;
pub mod infer;
pub mod specialization;
pub mod emitter;

verus! {

/// The first lines of every module: the producer comment, the source file
/// name and the globals that hold `argc` and `argv`.
pub const MODULE_HEADER: &'static str = "; generated by axc LLVM AOT v0\nsource_filename = \"axc\"\n@.ax_argc = private global i32 0\n@.ax_argv = private global ptr null\n\n";

/// The layout of every rendered module: the header, the named types, the
/// runtime text globals, the program's string literals, the external
/// declarations, a blank line, the runtime helpers and then the program's
/// functions.
pub open spec fn module_layout(
    types: Seq<char>,
    strings: Seq<char>,
    functions: Seq<char>,
    windows: bool,
) -> Seq<char> {
    MODULE_HEADER@ + types + runtime::prelude::builtin_globals_text() + strings
        + runtime::prelude::external_declarations_text(windows) + seq!['\n']
        + runtime::prelude::runtime_error_helper_text(windows) + runtime::all_string_helpers_text()
        + runtime::bytes::bytes_helpers_text() + runtime::all_host_helpers_text(windows) + functions
}

/// The global line of one string literal.
pub open spec fn literal_line(literal: StringLiteral) -> Seq<char> {
    literal.symbol@ + " = private unnamed_addr constant ["@ + decimal(literal.len as nat) + " x i8] c\""@
        + literal.encoded@ + "\"\n"@
}

/// The global lines of the string literals, in table order.
pub open spec fn literal_lines(entries: Seq<(String, StringLiteral)>) -> Seq<char>
    decreases entries.len(),
{
    if entries.len() == 0 {
        Seq::empty()
    } else {
        literal_lines(entries.drop_last()) + literal_line(entries.last().1)
    }
}

/// Every string literal that the program writes has a global in `table`, and
/// no two texts of the table share a symbol.
pub open spec fn literals_registered(program: Program, table: NameMap<StringLiteral>) -> bool {
    &&& forall|i: int|
        0 <= i < items_strings(program.items@).len() ==> #[trigger] literal_table(table).contains_key(
            items_strings(program.items@)[i],
        )
    &&& symbols_distinct(literal_table(table))
}

/// The named-type text of the module: the enum type lines, the struct type
/// lines, and a blank line when either wrote anything.
pub open spec fn type_declarations_text(layouts: NameMap<StructLayout>, enum_layouts: NameMap<EnumLayout>) -> Seq<
    char,
> {
    enum_type_lines(enum_layouts.entries()) + struct_type_lines(layouts.entries()) + if has_payload_enum(
        enum_layouts.entries(),
    ) || layouts.entries().len() > 0 {
        seq!['\n']
    } else {
        Seq::<char>::empty()
    }
}

/// `module` is a rendering of `program` for the given host: the fixed layout
/// around the type lines of layouts that cover every struct and enum of the
/// program, the string table interned from the program's texts in order of
/// appearance, and the function text.
pub open spec fn renders_as(program: Program, windows: bool, module: Seq<char>) -> bool {
    &&& has_plain_main(program)
    &&& exists|
        layouts: NameMap<StructLayout>,
        enum_layouts: NameMap<EnumLayout>,
        table: NameMap<StringLiteral>,
        functions: Seq<char>,
    |
        {
            &&& module == module_layout(
                type_declarations_text(layouts, enum_layouts),
                literal_lines(table.entries()),
                functions,
                windows,
            )
            &&& struct_layouts_well_formed(layouts)
            &&& enum_layouts_well_formed(enum_layouts)
            &&& forall|i: int, name: Seq<char>| #[trigger]
                is_plain_struct(program, i, name) ==> layouts.spec_get(name) is Some
            &&& forall|i: int, name: Seq<char>| #[trigger]
                is_plain_enum(program, i, name) ==> enum_layouts.spec_get(name) is Some
            &&& literal_table(table) == intern(Map::empty(), 0, module_strings(program, layouts, enum_layouts)).0
            &&& literals_registered(program, table)
        }
}

/// `program` defines `main` as a function without type parameters.
pub open spec fn has_plain_main(program: Program) -> bool {
    exists|i: int| 0 <= i < program.items@.len() && #[trigger] defines_plain_function(program.items@[i], "main"@)
}

/// `key` names a function: a plain function of `program`, or a
/// specialization, whose key ends in `>`.
pub open spec fn names_function_or_instance(program: Program, key: Seq<char>) -> bool {
    ||| exists|i: int| 0 <= i < program.items@.len() && #[trigger] defines_plain_function(program.items@[i], key)
    ||| key.len() > 0 && key.last() == '>'
}

/// Renders a program as an LLVM module for a non-Windows host, or returns the
/// reasons it cannot be lowered.
pub fn render_program(program: &Program) -> (r: Result<String, Vec<String>>)
    ensures
        r matches Ok(module) ==> renders_as(*program, false, module@),
        r matches Err(reasons) ==> reasons@.len() > 0,
{
    render_program_for(program, false)
}

/// Renders a program as an LLVM module for a Windows host when `windows`
/// holds and a POSIX host otherwise, or returns the reasons it cannot be
/// lowered.
pub fn render_program_for(program: &Program, windows: bool) -> (r: Result<String, Vec<String>>)
    ensures
        r matches Ok(module) ==> renders_as(*program, windows, module@),
        r matches Err(reasons) ==> reasons@.len() > 0,
{
    match render_program_with_diagnostics(program, windows) {
        Ok(module) => Ok(module),
        Err(diagnostics) => Err(user_messages(diagnostics)),
    }
}

fn push_all(unsupported: &mut Vec<AotLoweringDiagnostic>, reasons: Vec<String>, monomorphization: bool)
    ensures
        final(unsupported)@.len() == old(unsupported)@.len() + reasons@.len(),
{
    let mut i: usize = 0;
    while i < reasons.len()
        invariant
            i <= reasons@.len(),
            unsupported@.len() == old(unsupported)@.len() + i,
        decreases reasons@.len() - i,
    {
        let reason = reasons[i].clone();
        if monomorphization {
            unsupported.push(AotLoweringDiagnostic::monomorphization(reason));
        } else {
            unsupported.push(AotLoweringDiagnostic::llvm_lowering(reason));
        }
        i += 1;
    }
}

fn unsupported_param(
    unsupported: &mut Vec<AotLoweringDiagnostic>,
    function: &str,
    param: &Param,
)
    ensures
        final(unsupported)@.len() == old(unsupported)@.len() + 1,
{
    let shown = ax_type_name(&param.ty);
    let message = concat(
        &[
            "function `",
            function,
            "` parameter `",
            param.name.as_str(),
            "` uses unsupported type ",
            shown.as_str(),
        ],
    );
    unsupported.push(AotLoweringDiagnostic::runtime_abi(shown, message));
}

fn unsupported_return(unsupported: &mut Vec<AotLoweringDiagnostic>, function: &str, ty: &Type)
    ensures
        final(unsupported)@.len() == old(unsupported)@.len() + 1,
{
    let shown = ax_type_name(ty);
    let message = concat(&["function `", function, "` returns unsupported type ", shown.as_str()]);
    unsupported.push(AotLoweringDiagnostic::runtime_abi(shown, message));
}

fn param_types(params: &Vec<Param>) -> (r: Vec<Type>)
    ensures
        r@.len() == params@.len(),
{
    let mut out: Vec<Type> = Vec::new();
    let mut i: usize = 0;
    while i < params.len()
        invariant
            i <= params@.len(),
            out@.len() == i,
        decreases params@.len() - i,
    {
        out.push(clone_type(&params[i].ty));
        i += 1;
    }
    out
}

/// Lowers a program: layouts, signatures and consts first, then the module
/// text, or every reason found why it cannot be lowered.
#[verifier::rlimit(30)]
fn render_program_with_diagnostics(program: &Program, windows: bool) -> (r: Result<
    String,
    Vec<AotLoweringDiagnostic>,
>)
    ensures
        r matches Ok(module) ==> renders_as(*program, windows, module@),
        r matches Err(reasons) ==> reasons@.len() > 0,
{
    let mut unsupported: Vec<AotLoweringDiagnostic> = Vec::new();
    let mut signatures: NameMap<FunctionSignature> = NameMap::new();
    let ghost mut layouts_ok = true;
    let enum_layouts = match collect_enum_layouts(program) {
        Ok(layouts) => layouts,
        Err(reasons) => {
            push_all(&mut unsupported, reasons, false);
            proof {
                layouts_ok = false;
            }
            NameMap::new()
        },
    };
    let layouts = match collect_struct_layouts(program, &enum_layouts) {
        Ok(layouts) => layouts,
        Err(reasons) => {
            push_all(&mut unsupported, reasons, false);
            proof {
                layouts_ok = false;
            }
            NameMap::new()
        },
    };
    assert(layouts_ok ==> struct_layouts_well_formed(layouts) && enum_layouts_well_formed(enum_layouts)
        && (forall|i: int, name: Seq<char>| #[trigger] is_plain_struct(*program, i, name) ==> layouts.spec_get(name) is Some)
        && (forall|i: int, name: Seq<char>| #[trigger] is_plain_enum(*program, i, name) ==> enum_layouts.spec_get(name) is Some));
    assert(!layouts_ok ==> unsupported@.len() > 0);
    let ghost mut plan_ok = true;
    let monomorph_plan = match plan_program(program) {
        Ok(plan) => plan,
        Err(reasons) => {
            push_all(&mut unsupported, reasons, true);
            proof {
                plan_ok = false;
            }
            MonomorphizationPlan::empty()
        },
    };
    assert(plan_ok ==> specializations_valid(*program, monomorph_plan.specializations()));
    assert(!plan_ok ==> monomorph_plan.specializations().entries().len() == 0);

    let mut consts: NameMap<ConstBinding> = NameMap::new();
    let mut i: usize = 0;
    while i < program.items.len()
        invariant
            i <= program.items@.len(),
            !layouts_ok ==> unsupported@.len() > 0,
            forall|k: Seq<char>| #[trigger] signatures.spec_get(k) is Some ==> names_function_or_instance(*program, k),
        decreases program.items@.len() - i,
    {
        match &program.items[i] {
            Item::Function(function) => {
                let name = &function.name;
                if function.type_params.len() == 0 && monomorph_plan.is_reachable(name.as_str()) {
                    if function.type_param_bounds.len() > 0 {
                        let message = concat(
                            &[
                                "function `",
                                name.as_str(),
                                "` uses trait bounds, which LLVM AOT v0 does not lower",
                            ],
                        );
                        unsupported.push(AotLoweringDiagnostic::aot_readiness(owned("trait_bounds"), message));
                    } else {
                        let mut lowered_params: Vec<String> = Vec::new();
                        let mut p: usize = 0;
                        while p < function.params.len()
                            invariant
                                p <= function.params@.len(),
                                !layouts_ok ==> unsupported@.len() > 0,
                            decreases function.params@.len() - p,
                        {
                            let param = &function.params[p];
                            match llvm_type(&param.ty, &layouts, &enum_layouts) {
                                Some(ty) => lowered_params.push(ty),
                                None => unsupported_param(&mut unsupported, name.as_str(), param),
                            }
                            p += 1;
                        }
                        match llvm_type(&function.return_type, &layouts, &enum_layouts) {
                            Some(lowered_return_type) => {
                                let ghost before_insert = signatures;
                                let key = name.clone();
                                let ghost key_view = key@;
                                proof {
                                    assert(defines_plain_function(program.items@[i as int], key_view));
                                    assert(names_function_or_instance(*program, key_view));
                                }
                                signatures.insert(
                                    key,
                                    FunctionSignature {
                                        symbol: llvm_symbol(name.as_str()),
                                        params: lowered_params,
                                        param_ax_types: param_types(&function.params),
                                        return_type: lowered_return_type,
                                        return_ax_type: clone_type(&function.return_type),
                                    },
                                );
                                proof {
                                    assert forall|k: Seq<char>| #[trigger] signatures.spec_get(k) is Some implies names_function_or_instance(
                                        *program,
                                        k,
                                    ) by {
                                        if k != key_view {
                                            assert(before_insert.spec_get(k) is Some);
                                        }
                                    }
                                }
                            },
                            None => unsupported_return(&mut unsupported, name.as_str(), &function.return_type),
                        }
                    }
                }
            },
            Item::Const { name, ty, value } => {
                if llvm_type(ty, &layouts, &enum_layouts).is_none() {
                    let shown = ax_type_name(ty);
                    let message = concat(
                        &["top-level const `", name.as_str(), "` uses unsupported type ", shown.as_str()],
                    );
                    unsupported.push(AotLoweringDiagnostic::runtime_abi(shown, message));
                } else {
                    consts.insert(name.clone(), ConstBinding { ty, value });
                }
            },
            Item::Struct { .. } | Item::Enum { .. } => {},
        }
        i += 1;
    }

    let instances = monomorph_plan.used_concrete_instances();
    proof {
        if !plan_ok {
            assert(reachable_instances(
                monomorph_plan.specializations().entries(),
                monomorph_plan.reachable_specializations(),
            ).len() == 0);
        }
        assert forall|t: int| 0 <= t < instances@.len() implies (#[trigger] instances@[t]).key@.len() > 0
            && instances@[t].key@.last() == '>' by {
            let k = choose|k: Seq<char>| #[trigger] monomorph_plan.specializations().spec_get(k) == Some(*instances@[t]);
            let j = choose|j: int| instantiates(*program, k, *instances@[t], j);
            let f = program.items@[j]->Function_0;
            let key = specialization_key(f.name@, f.type_params@, instances@[t].substitutions);
            reveal_strlit(">");
            reveal_strlit("<");
            assert(">"@.len() == 1 && ">"@[0] == '>');
            assert(key.len() > 0 && key.last() == '>');
            assert(instances@[t].key@ == k);
        }
    }
    let mut s: usize = 0;
    while s < instances.len()
        invariant
            s <= instances@.len(),
            !layouts_ok ==> unsupported@.len() > 0,
            forall|t: int| 0 <= t < instances@.len() ==> (#[trigger] instances@[t]).key@.len() > 0
                && instances@[t].key@.last() == '>',
            forall|k: Seq<char>| #[trigger] signatures.spec_get(k) is Some ==> names_function_or_instance(*program, k),
        decreases instances@.len() - s,
    {
        let specialization = instances[s];
        s += 1;
        let source = match find_function_source(program, specialization.source_name.as_str()) {
            Some(source) => source,
            None => {
                let message = concat(
                    &[
                        "generic method specialization `",
                        specialization.key.as_str(),
                        "` has no source function `",
                        specialization.source_name.as_str(),
                        "`",
                    ],
                );
                unsupported.push(AotLoweringDiagnostic::monomorphization(message));
                continue;
            },
        };
        let mut all_bound = true;
        let mut t: usize = 0;
        while t < source.type_params.len()
            invariant
                t <= source.type_params@.len(),
            decreases source.type_params@.len() - t,
        {
            if !specialization.substitutions.contains_key(source.type_params[t].as_str()) {
                all_bound = false;
            }
            t += 1;
        }
        if !all_bound {
            let message = concat(
                &[
                    "generic method specialization `",
                    specialization.source_name.as_str(),
                    "` does not bind every type parameter",
                ],
            );
            unsupported.push(AotLoweringDiagnostic::monomorphization(message));
            continue;
        }
        let substitutions = Some(specialization.substitutions.clone());
        let specialized = specialized_params(&source.params, &substitutions);
        let specialized_return_type = specialized_type(&source.return_type, &substitutions);
        let mut lowered_params: Vec<String> = Vec::new();
        let mut p: usize = 0;
        while p < specialized.len()
            invariant
                p <= specialized@.len(),
                !layouts_ok ==> unsupported@.len() > 0,
            decreases specialized@.len() - p,
        {
            match llvm_type(&specialized[p].ty, &layouts, &enum_layouts) {
                Some(ty) => lowered_params.push(ty),
                None => unsupported_param(&mut unsupported, specialization.key.as_str(), &specialized[p]),
            }
            p += 1;
        }
        match llvm_type(&specialized_return_type, &layouts, &enum_layouts) {
            Some(lowered_return_type) => {
                let ghost before_insert = signatures;
                let key = specialization.key.clone();
                let ghost key_view = key@;
                assert(names_function_or_instance(*program, key_view));
                signatures.insert(
                    key,
                    FunctionSignature {
                        symbol: llvm_symbol(specialization.key.as_str()),
                        params: lowered_params,
                        param_ax_types: param_types(&specialized),
                        return_type: lowered_return_type,
                        return_ax_type: specialized_return_type,
                    },
                );
                proof {
                    assert forall|k: Seq<char>| #[trigger] signatures.spec_get(k) is Some implies names_function_or_instance(
                        *program,
                        k,
                    ) by {
                        if k != key_view {
                            assert(before_insert.spec_get(k) is Some);
                        }
                    }
                }
            },
            None => unsupported_return(&mut unsupported, specialization.key.as_str(), &specialized_return_type),
        }
    }

    if unsupported.len() > 0 {
        return Err(unsupported);
    }
    let has_main = signatures.contains_key("main");
    proof {
        reveal_strlit("main");
        if has_main {
            assert(names_function_or_instance(*program, "main"@));
            assert("main"@.last() == 'n');
            assert(has_plain_main(*program));
        }
    }
    if !has_main {
        return Err(
            vec![
                AotLoweringDiagnostic::aot_readiness(
                    owned("entrypoint"),
                    owned("LLVM AOT v0 requires an explicit `fn main() -> i32` entrypoint"),
                ),
            ],
        );
    }

    let strings = match collect_string_literals(program, &layouts, &enum_layouts) {
        Ok(strings) => strings,
        Err(reason) => return Err(vec![AotLoweringDiagnostic::internal(reason)]),
    };
    proof {
        let all = module_strings(*program, layouts, enum_layouts);
        interned_texts_present(all);
        interned_symbols_distinct(all);
        assert forall|i: int| 0 <= i < items_strings(program.items@).len() implies #[trigger] literal_table(
            strings,
        ).contains_key(items_strings(program.items@)[i]) by {
            assert(all[i] == items_strings(program.items@)[i]);
        }
    }
    let mut module = owned(MODULE_HEADER);
    write_type_declarations(&mut module, &layouts, &enum_layouts);
    let ghost types = module@.subrange(MODULE_HEADER@.len() as int, module@.len() as int);
    assert(module@ =~= MODULE_HEADER@ + types);
    runtime::write_builtin_globals(&mut module);
    let ghost globals_end = module@;
    let ghost entries = strings.entries();
    let mut l: usize = 0;
    while l < strings.len()
        invariant
            l <= entries.len(),
            entries == strings.entries(),
            module@ == globals_end + literal_lines(entries.take(l as int)),
        decreases entries.len() - l,
    {
        let (_, literal) = strings.entry_at(l);
        let length = usize_to_decimal(literal.len);
        put_line(
            &mut module,
            &[
                literal.symbol.as_str(),
                " = private unnamed_addr constant [",
                length.as_str(),
                " x i8] c\"",
                literal.encoded.as_str(),
                "\"",
            ],
        );
        proof {
            reveal_with_fuel(concat_all, 7);
            reveal_strlit("\"");
            reveal_strlit("\"\n");
            assert(entries.take(l + 1).drop_last() =~= entries.take(l as int));
            assert(module@ =~= globals_end + literal_lines(entries.take(l + 1)));
        }
        l += 1;
    }
    assert(entries.take(entries.len() as int) =~= entries);
    runtime::write_external_declarations(&mut module, windows);
    put_line(&mut module, &[]);
    runtime::write_runtime_error_helper(&mut module, windows);
    runtime::write_string_helpers(&mut module);
    runtime::write_bytes_helpers(&mut module);
    runtime::write_host_helpers(&mut module, windows);
    let ghost prelude_end = module@;

    let tables = ModuleTables {
        signatures: &signatures,
        layouts: &layouts,
        enum_layouts: &enum_layouts,
        consts: &consts,
        strings: &strings,
    };
    let mut failures: Vec<AotLoweringDiagnostic> = Vec::new();
    let mut f: usize = 0;
    while f < program.items.len()
        invariant
            f <= program.items@.len(),
            module@.len() >= prelude_end.len(),
            module@.subrange(0, prelude_end.len() as int) == prelude_end,
        decreases program.items@.len() - f,
    {
        match &program.items[f] {
            Item::Function(function) => {
                if function.type_params.len() == 0 && function.type_param_bounds.len() == 0
                    && monomorph_plan.is_reachable(function.name.as_str()) {
                    match render_function(
                        function.name.as_str(),
                        function.name.as_str(),
                        &function.params,
                        &function.return_type,
                        &function.locals,
                        function.entry_block,
                        &function.blocks,
                        &None,
                        &tables,
                    ) {
                        Ok(text) => module.append(text.as_str()),
                        Err(reason) => failures.push(AotLoweringDiagnostic::llvm_lowering(reason)),
                    }
                }
            },
            _ => {},
        }
        f += 1;
    }
    let mut g: usize = 0;
    while g < instances.len()
        invariant
            g <= instances@.len(),
            module@.len() >= prelude_end.len(),
            module@.subrange(0, prelude_end.len() as int) == prelude_end,
        decreases instances@.len() - g,
    {
        let specialization = instances[g];
        g += 1;
        let source = match find_function_source(program, specialization.source_name.as_str()) {
            Some(source) => source,
            None => continue,
        };
        let substitutions = Some(specialization.substitutions.clone());
        match render_function(
            specialization.key.as_str(),
            specialization.source_name.as_str(),
            &source.params,
            &source.return_type,
            &source.locals,
            source.entry_block,
            &source.blocks,
            &substitutions,
            &tables,
        ) {
            Ok(text) => module.append(text.as_str()),
            Err(reason) => failures.push(AotLoweringDiagnostic::llvm_lowering(reason)),
        }
    }

    if failures.len() == 0 {
        let ghost functions = module@.subrange(prelude_end.len() as int, module@.len() as int);
        assert(module@ =~= prelude_end + functions);
        assert(module@ == module_layout(types, literal_lines(strings.entries()), functions, windows));
        assert(literals_registered(*program, strings));
        assert(types == type_declarations_text(layouts, enum_layouts));
        assert(renders_as(*program, windows, module@));
        Ok(module)
    } else {
        Err(failures)
    }
}

/// The named types of the module: one per enum with payloads, then one per
/// struct, then a blank line when there were any.
/// The named type line of every enum laid out with payload storage, in order.
pub open spec fn enum_type_lines(entries: Seq<(String, EnumLayout)>) -> Seq<char>
    decreases entries.len(),
{
    if entries.len() == 0 {
        Seq::empty()
    } else {
        enum_type_lines(entries.drop_last()) + if entries.last().1.ty@ != "i32"@ {
            entries.last().1.ty@ + " = type { i32, ptr }"@ + seq!['\n']
        } else {
            Seq::empty()
        }
    }
}

/// The LLVM types of a struct's fields, in order.
pub open spec fn field_llvm_types(fields: Seq<StructFieldLayout>) -> Seq<Seq<char>> {
    Seq::new(fields.len(), |i: int| fields[i].ty@)
}

/// The named type line of one struct layout.
pub open spec fn struct_type_line(layout: StructLayout) -> Seq<char> {
    if layout.fields@.len() == 0 {
        layout.ty@ + " = type {}"@ + seq!['\n']
    } else {
        layout.ty@ + " = type { "@ + joined(field_llvm_types(layout.fields@), ", "@) + " }"@ + seq!['\n']
    }
}

/// The named type lines of the struct layouts, in order.
pub open spec fn struct_type_lines(entries: Seq<(String, StructLayout)>) -> Seq<char>
    decreases entries.len(),
{
    if entries.len() == 0 {
        Seq::empty()
    } else {
        struct_type_lines(entries.drop_last()) + struct_type_line(entries.last().1)
    }
}

/// Some enum among `entries` is laid out with payload storage.
pub open spec fn has_payload_enum(entries: Seq<(String, EnumLayout)>) -> bool {
    exists|i: int| 0 <= i < entries.len() && #[trigger] entries[i].1.ty@ != "i32"@
}

fn write_type_declarations(
    module: &mut String,
    layouts: &NameMap<StructLayout>,
    enum_layouts: &NameMap<EnumLayout>,
)
    ensures
        final(module)@.len() >= old(module)@.len(),
        final(module)@.subrange(0, old(module)@.len() as int) == old(module)@,
        final(module)@ == old(module)@ + enum_type_lines(enum_layouts.entries()) + struct_type_lines(
            layouts.entries(),
        ) + if has_payload_enum(enum_layouts.entries()) || layouts.entries().len() > 0 {
            seq!['\n']
        } else {
            Seq::<char>::empty()
        },
{
    let ghost start = module@;
    let ghost enums = enum_layouts.entries();
    let ghost structs = layouts.entries();
    proof {
        reveal_strlit(" = type { i32, ptr }");
        reveal_strlit(" = type {}");
        reveal_strlit(" = type { ");
        reveal_strlit(" }");
        reveal_strlit("i32");
        reveal_with_fuel(concat_all, 5);
    }
    let mut any_payload_enum = false;
    let mut e: usize = 0;
    while e < enum_layouts.len()
        invariant
            e <= enums.len(),
            enums == enum_layouts.entries(),
            module@ == start + enum_type_lines(enums.take(e as int)),
            any_payload_enum == has_payload_enum(enums.take(e as int)),
        decreases enums.len() - e,
    {
        let (_, layout) = enum_layouts.entry_at(e);
        assert(enums.take(e + 1).drop_last() =~= enums.take(e as int));
        let ghost before = module@;
        assert(enums.take(e + 1).last() == enums[e as int]);
        if !str_eq(layout.ty.as_str(), "i32") {
            any_payload_enum = true;
            put_line(module, &[layout.ty.as_str(), " = type { i32, ptr }"]);
            proof {
                reveal_with_fuel(concat_all, 3);
                assert(module@ =~= before + layout.ty@ + " = type { i32, ptr }"@ + seq!['\n']);
            }
            assert(module@ =~= start + enum_type_lines(enums.take(e + 1)));
            assert(enums.take(e + 1)[e as int].1.ty@ != "i32"@);
        } else {
            assert(module@ =~= start + enum_type_lines(enums.take(e + 1)));
            assert forall|i: int| 0 <= i < e + 1 && #[trigger] enums.take(e + 1)[i].1.ty@ != "i32"@ implies 0 <= i < e
                && enums.take(e as int)[i].1.ty@ != "i32"@ by {
            }
        }
        e += 1;
    }
    assert(enums.take(enums.len() as int) =~= enums);
    let mut s: usize = 0;
    while s < layouts.len()
        invariant
            s <= structs.len(),
            structs == layouts.entries(),
            module@ == start + enum_type_lines(enums) + struct_type_lines(structs.take(s as int)),
            any_payload_enum == has_payload_enum(enums),
        decreases structs.len() - s,
    {
        let (_, layout) = layouts.entry_at(s);
        assert(structs.take(s + 1).drop_last() =~= structs.take(s as int));
        let mut field_types: Vec<String> = Vec::new();
        let mut k: usize = 0;
        while k < layout.fields.len()
            invariant
                k <= layout.fields@.len(),
                field_types@.len() == k,
                forall|j: int| 0 <= j < k ==> #[trigger] field_types@[j]@ == layout.fields@[j].ty@,
            decreases layout.fields@.len() - k,
        {
            field_types.push(layout.fields[k].ty.clone());
            k += 1;
        }
        assert(structs.take(s + 1).last() == structs[s as int]);
        let ghost before = module@;
        if field_types.len() == 0 {
            put_line(module, &[layout.ty.as_str(), " = type {}"]);
            proof {
                reveal_with_fuel(concat_all, 3);
                assert(module@ =~= before + layout.ty@ + " = type {}"@ + seq!['\n']);
            }
        } else {
            let fields = join(field_types.as_slice(), ", ");
            assert(views(field_types@) =~= field_llvm_types(layout.fields@));
            put_line(module, &[layout.ty.as_str(), " = type { ", fields.as_str(), " }"]);
            proof {
                reveal_with_fuel(concat_all, 5);
                assert(module@ =~= before + layout.ty@ + " = type { "@ + fields@ + " }"@ + seq!['\n']);
            }
        }
        assert(module@ =~= start + enum_type_lines(enums) + struct_type_lines(structs.take(s + 1)));
        s += 1;
    }
    assert(structs.take(structs.len() as int) =~= structs);
    if any_payload_enum || layouts.len() > 0 {
        put_line(module, &[]);
    }
}

/// The program-wide tables that lowering a function body reads.
pub struct ModuleTables<'a> {
    pub signatures: &'a NameMap<FunctionSignature>,
    pub layouts: &'a NameMap<StructLayout>,
    pub enum_layouts: &'a NameMap<EnumLayout>,
    pub consts: &'a NameMap<ConstBinding<'a>>,
    pub strings: &'a NameMap<StringLiteral>,
}

/// Lowers one function, or one specialization of a generic function when
/// `substitutions` is given, to its `define`.
fn render_function(
    signature_name: &str,
    source_name: &str,
    params: &Vec<Param>,
    return_type: &Type,
    locals: &Vec<Local>,
    entry_block: u32,
    blocks: &Vec<BasicBlock>,
    substitutions: &Option<NameMap<Type>>,
    tables: &ModuleTables,
) -> (r: Result<String, String>)
    ensures
        tables.signatures.spec_get(signature_name@) is None ==> r is Err,
        r matches Ok(text) ==> (tables.signatures.spec_get(signature_name@) matches Some(signature)
            && appends(function_head(signature), text@)),
        r matches Ok(text) ==> (signature_name@ == "main"@ && params@.len() == 0 ==> (
        tables.signatures.spec_get(signature_name@) matches Some(signature) && appends(
            function_head(signature) + native_main_entry(),
            text@,
        ))),
        r matches Ok(text) ==> text@.len() >= 3 && text@.subrange(text@.len() - 3, text@.len() as int)
            == "}\n\n"@,
        r matches Ok(text) ==> (substitutions is None && !(signature_name@ == "main"@ && params@.len() == 0) ==> (
        tables.signatures.spec_get(signature_name@) matches Some(signature) && appends(
            function_head(signature) + param_list_text(params@, *tables.layouts, *tables.enum_layouts) + ") {\nentry:\n"@,
            text@,
        ))),
        r matches Ok(text) ==> forall|b: int| 0 <= b < blocks@.len() ==> has_block_label(text@, #[trigger] blocks@[b].id),
        r matches Ok(text) ==> (!(signature_name@ == "main"@ && params@.len() == 0) ==> exists|specialized: Seq<Param>|
            #[trigger] specialized_as(params@, specialized, *substitutions) && (tables.signatures.spec_get(
                signature_name@,
            ) matches Some(signature) && appends(
                function_head(signature) + param_list_text(specialized, *tables.layouts, *tables.enum_layouts)
                    + ") {\nentry:\n"@,
                text@,
            ))),
        tables.signatures.spec_get(signature_name@) is None ==> (r matches Err(e) && e@
            == "internal LLVM AOT error: missing signature for `"@ + signature_name@ + "`"@),
{
    let signature = match tables.signatures.get(signature_name) {
        Some(signature) => signature,
        None => {
            let message = concat(&["internal LLVM AOT error: missing signature for `", signature_name, "`"]);
            proof {
                reveal_with_fuel(concat_all, 4);
                assert(message@ =~= "internal LLVM AOT error: missing signature for `"@ + signature_name@ + "`"@);
            }
            return Err(message);
        },
    };
    let ghost original = params@;
    let params = specialized_params(params, substitutions);
    let locals = specialized_locals(locals, substitutions);
    let return_type = specialized_type(return_type, substitutions);
    let declared_return_type = match llvm_type(&return_type, tables.layouts, tables.enum_layouts) {
        Some(t) => t,
        None => return Err(concat(&["function `", source_name, "` returns an unsupported type"])),
    };
    if !str_eq(signature.return_type.as_str(), declared_return_type.as_str()) {
        return Err(
            concat(
                &[
                    "internal LLVM AOT error: function `",
                    signature_name,
                    "` signature return type drifted",
                ],
            ),
        );
    }
    let mut emitter = FunctionEmitter {
        signatures: tables.signatures,
        layouts: tables.layouts,
        enum_layouts: tables.enum_layouts,
        consts: tables.consts,
        strings: tables.strings,
        locals: IdMap::new(),
        return_ax_ty: clone_type(&return_type),
        const_stack: Vec::new(),
        temp_index: 0,
    };
    let local_type_overrides = infer_concrete_local_types(
        &locals,
        blocks,
        tables.signatures,
        tables.enum_layouts,
    );
    let mut l: usize = 0;
    while l < locals.len()
        invariant
            tables.signatures.spec_get(signature_name@) is Some,
l <= locals@.len(),
        decreases locals@.len() - l,
    {
        let local = &locals[l];
        let ax_ty = match local_type_overrides.get(local.id) {
            Some(t) => clone_type(t),
            None => clone_type(&local.ty),
        };
        let ty = match llvm_type(&ax_ty, tables.layouts, tables.enum_layouts) {
            Some(t) => t,
            None => {
                let shown = ax_type_name(&local.ty);
                return Err(
                    concat(
                        &[
                            "function `",
                            source_name,
                            "` local `",
                            local.name.as_str(),
                            "` uses unsupported type ",
                            shown.as_str(),
                        ],
                    ),
                );
            },
        };
        let id = u32_to_decimal(local.id);
        emitter.locals.insert(local.id, LocalSlot { ptr: concat(&["%local", id.as_str()]), ty, ax_ty });
        l += 1;
    }

    let mut function = String::new();
    put(&mut function, &["define ", signature.return_type.as_str(), " @", signature.symbol.as_str(), "("]);
    let ghost head = function@;
    proof {
        reveal_with_fuel(concat_all, 6);
        assert(head =~= function_head(*signature));
    }
    let native_main_with_argv = str_eq(signature_name, "main") && params.len() == 0;
    if native_main_with_argv {
        function.append("i32 %argc, ptr %argv");
    } else {
        let mut p: usize = 0;
        assert(original.take(0) =~= Seq::<Param>::empty());
        while p < params.len()
            invariant
                tables.signatures.spec_get(signature_name@) is Some,
appends(head, function@),
                p <= params@.len(),
                params@.len() == original.len(),
                forall|i: int|
                    0 <= i < params@.len() ==> (#[trigger] params@[i]).local == original[i].local && (
                    *substitutions is None ==> same_type(params@[i].ty, original[i].ty)),
                *substitutions is None ==> function@ == head + param_list_text(
                    original.take(p as int),
                    *tables.layouts,
                    *tables.enum_layouts,
                ),
                function@ == head + param_list_text(params@.take(p as int), *tables.layouts, *tables.enum_layouts),
            decreases params@.len() - p,
        {
            let ghost before_param = function@;
            if p > 0 {
                function.append(", ");
            }
            let param = &params[p];
            let param_ty = match llvm_type(&param.ty, tables.layouts, tables.enum_layouts) {
                Some(t) => t,
                None => {
                    let shown = ax_type_name(&param.ty);
                    return Err(
                        concat(
                            &[
                                "function `",
                                source_name,
                                "` parameter `",
                                param.name.as_str(),
                                "` uses unsupported type ",
                                shown.as_str(),
                            ],
                        ),
                    );
                },
            };
            let id = u32_to_decimal(param.local);
            put(&mut function, &[param_ty.as_str(), " %arg", id.as_str()]);
            proof {
                reveal_with_fuel(concat_all, 4);
                reveal_strlit(", ");
                assert(params@.take(p + 1).drop_last() =~= params@.take(p as int));
                assert(params@.take(p + 1).last() == params@[p as int]);
                assert(function@ =~= head + param_list_text(params@.take(p + 1), *tables.layouts, *tables.enum_layouts));
                if *substitutions is None {
                    lemma_same_type_same_llvm_type(params@[p as int].ty, original[p as int].ty, *tables.layouts, *tables.enum_layouts);
                    assert(original.take(p + 1).drop_last() =~= original.take(p as int));
                    assert(original.take(p + 1).last() == original[p as int]);
                    assert(function@ =~= head + param_list_text(original.take(p + 1), *tables.layouts, *tables.enum_layouts));
                }
            }
            p += 1;
        }
        assert(original.take(original.len() as int) =~= original);
        assert(params@.take(params@.len() as int) =~= params@);
    }
    let ghost params_done = function@;
    put_line(&mut function, &[") {"]);
    put_line(&mut function, &["entry:"]);
    proof {
        reveal_with_fuel(concat_all, 2);
        reveal_strlit(") {");
        reveal_strlit("entry:");
        reveal_strlit(") {\nentry:\n");
        assert(function@ =~= params_done + ") {\nentry:\n"@);
    }
    if native_main_with_argv {
        put_line(&mut function, &["  store i32 %argc, ptr @.ax_argc"]);
        put_line(&mut function, &["  store ptr %argv, ptr @.ax_argv"]);
    }
    let ghost entry_head = function@;
    proof {
        if native_main_with_argv {
            reveal_strlit("i32 %argc, ptr %argv");
            reveal_strlit(") {");
            reveal_strlit("entry:");
            reveal_strlit("  store i32 %argc, ptr @.ax_argc");
            reveal_strlit("  store ptr %argv, ptr @.ax_argv");
            reveal_strlit("i32 %argc, ptr %argv) {\nentry:\n  store i32 %argc, ptr @.ax_argc\n  store ptr %argv, ptr @.ax_argv\n");
            reveal_with_fuel(concat_all, 2);
            assert(entry_head =~= head + native_main_entry());
        }
    }
    let mut a: usize = 0;
    while a < locals.len()
        invariant
            tables.signatures.spec_get(signature_name@) is Some,
appends(head, function@),
            appends(entry_head, function@),
            a <= locals@.len(),
        decreases locals@.len() - a,
    {
        let slot = emitter.local_slot(locals[a].id)?;
        put_line(&mut function, &["  ", slot.ptr.as_str(), " = alloca ", slot.ty.as_str()]);
        a += 1;
    }
    let mut p: usize = 0;
    while p < params.len()
        invariant
            tables.signatures.spec_get(signature_name@) is Some,
appends(head, function@),
            appends(entry_head, function@),
            p <= params@.len(),
        decreases params@.len() - p,
    {
        let slot = emitter.local_slot(params[p].local)?;
        let id = u32_to_decimal(params[p].local);
        put_line(
            &mut function,
            &["  store ", slot.ty.as_str(), " %arg", id.as_str(), ", ptr ", slot.ptr.as_str()],
        );
        p += 1;
    }
    let entry = u32_to_decimal(entry_block);
    put_line(&mut function, &["  br label %bb", entry.as_str()]);
    let mut b: usize = 0;
    while b < blocks.len()
        invariant
            tables.signatures.spec_get(signature_name@) is Some,
appends(head, function@),
            appends(entry_head, function@),
            b <= blocks@.len(),
            forall|j: int| 0 <= j < b ==> has_block_label(function@, #[trigger] blocks@[j].id),
        decreases blocks@.len() - b,
    {
        let block = &blocks[b];
        let id = u32_to_decimal(block.id);
        let ghost before_label = function@;
        put_line(&mut function, &["bb", id.as_str(), ":"]);
        proof {
            reveal_with_fuel(concat_all, 4);
            reveal_strlit(":");
            reveal_strlit(":\n");
            assert(function@ =~= before_label + "bb"@ + decimal(block.id as nat) + ":\n"@ + Seq::<char>::empty());
            assert(has_block_label(function@, block.id));
            assert forall|j: int| 0 <= j < b implies has_block_label(function@, #[trigger] blocks@[j].id) by {
                lemma_block_label_kept(before_label, function@, blocks@[j].id);
            }
        }
        let ghost labelled = function@;
        let mut st: usize = 0;
        while st < block.statements.len()
            invariant
                tables.signatures.spec_get(signature_name@) is Some,
appends(head, function@),
                appends(entry_head, function@),
                appends(labelled, function@),
                st <= block.statements@.len(),
            decreases block.statements@.len() - st,
        {
            emitter.emit_statement(&block.statements[st], &mut function, EMIT_DEPTH)?;
            st += 1;
        }
        emitter.emit_terminator(block, &mut function, EMIT_DEPTH)?;
        proof {
            assert(appends(labelled, function@));
            assert forall|j: int| 0 <= j < b + 1 implies has_block_label(function@, #[trigger] blocks@[j].id) by {
                lemma_block_label_kept(labelled, function@, blocks@[j].id);
            }
        }
        b += 1;
    }
    let ghost before_close = function@;
    put_line(&mut function, &["}\n"]);
    proof {
        reveal_with_fuel(concat_all, 2);
        reveal_strlit("}\n");
        reveal_strlit("}\n\n");
        assert(function@ =~= before_close + "}\n"@ + seq!['\n']);
        assert(function@.subrange(function@.len() - 3, function@.len() as int) =~= "}\n\n"@);
        assert forall|j: int| 0 <= j < blocks@.len() implies has_block_label(function@, #[trigger] blocks@[j].id) by {
            lemma_block_label_kept(before_close, function@, blocks@[j].id);
        }
        if !native_main_with_argv {
            assert(specialized_as(original, params@, *substitutions));
            assert(entry_head == head + param_list_text(params@, *tables.layouts, *tables.enum_layouts)
                + ") {\nentry:\n"@);
            assert(appends(entry_head, function@));
        }
    }
    Ok(function)
}

/// `specialized` is `params` with the substitution, if any, applied to each
/// type: same locals, and each type substituted (or kept when there is no
/// substitution).
pub open spec fn specialized_as(params: Seq<Param>, specialized: Seq<Param>, substitutions: Option<NameMap<Type>>) -> bool {
    &&& specialized.len() == params.len()
    &&& forall|i: int|
        0 <= i < params.len() ==> (#[trigger] specialized[i]).local == params[i].local && match substitutions {
            Some(s) => substituted(params[i].ty, specialized[i].ty, s),
            None => same_type(specialized[i].ty, params[i].ty),
        }
}

/// One parameter of a `define`: its LLVM type and `%arg` with its local id.
pub open spec fn param_text(
    param: Param,
    layouts: NameMap<StructLayout>,
    enum_layouts: NameMap<EnumLayout>,
) -> Seq<char> {
    llvm_type_of(param.ty, layouts, enum_layouts)->0 + " %arg"@ + decimal(param.local as nat)
}

/// The parameter list of a `define`, separated by `, `.
pub open spec fn param_list_text(
    params: Seq<Param>,
    layouts: NameMap<StructLayout>,
    enum_layouts: NameMap<EnumLayout>,
) -> Seq<char>
    decreases params.len(),
{
    if params.len() == 0 {
        Seq::empty()
    } else {
        param_list_text(params.drop_last(), layouts, enum_layouts) + (if params.len() > 1 {
            ", "@
        } else {
            Seq::empty()
        }) + param_text(params.last(), layouts, enum_layouts)
    }
}

/// `text` holds the label line of block `id`.
pub open spec fn has_block_label(text: Seq<char>, id: u32) -> bool {
    exists|before: Seq<char>, after: Seq<char>| text == before + "bb"@ + decimal(id as nat) + ":\n"@ + after
}

/// A label line stays when text is appended.
pub proof fn lemma_block_label_kept(text: Seq<char>, longer: Seq<char>, id: u32)
    requires
        has_block_label(text, id),
        appends(text, longer),
    ensures
        has_block_label(longer, id),
{
    let (before, after) = choose|before: Seq<char>, after: Seq<char>|
        text == before + "bb"@ + decimal(id as nat) + ":\n"@ + after;
    let extra = longer.subrange(text.len() as int, longer.len() as int);
    assert(longer =~= before + "bb"@ + decimal(id as nat) + ":\n"@ + (after + extra));
}

/// The first line of a function's `define`, up to its parameter list.
pub open spec fn function_head(signature: FunctionSignature) -> Seq<char> {
    "define "@ + signature.return_type@ + " @"@ + signature.symbol@ + "("@
}

/// The rest of the head of a native `main`: it takes `argc` and `argv` and
/// stores them in the globals that the runtime reads them from.
pub open spec fn native_main_entry() -> Seq<char> {
    "i32 %argc, ptr %argv) {\nentry:\n  store i32 %argc, ptr @.ax_argc\n  store ptr %argv, ptr @.ax_argv\n"@
}

} // verus!
