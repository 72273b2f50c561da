use lib::abi::{native_abi_kind, primitive_llvm_type, NativeAbiKind};
use lib::aot::{
    executable_artifact_path, ir_only_result, link_step, linked_result, llvm_ir_artifact_path,
    lowering_unsupported_result, with_forward_slashes, LinkStep, LlvmAotLinkMode, LlvmAotStatus,
};
use lib::diagnostic::{user_messages, AotDiagnosticLayer, AotLoweringDiagnostic};
use lib::id_map::IdMap;
use lib::ir::layout::substitute_type_params;
use lib::ir::infer::{builtin_return_type, should_override_local_type};
use lib::ir::specialization::{bind_type_params, function_specialization_key, method_call_name};
use lib::ir::support::{align_to, ax_type_name, llvm_binary_op_name, llvm_float_literal, llvm_symbol};
use lib::mir::{BinaryOp, Type};
use lib::name_map::NameMap;
use lib::symbols::{generic_instance, sanitize_component, user_function, user_method};
use lib::text::{encode_llvm_c_string, join};
use lib::toolchain::{
    command_exit_code, compiler_choice, fallback_built, linking_enabled, spawn_failure, trimmed,
    LinkOutcome,
};

fn boxed(arg: Type) -> Type {
    Type::StructInstance { name: "Box".to_string(), args: vec![arg] }
}

fn param(name: &str) -> Type {
    Type::TypeParam { name: name.to_string() }
}

#[test]
fn float_literals_widen_f32_bits_exactly() {
    assert_eq!(llvm_float_literal(1.5f32.to_bits()), "0x3FF8000000000000");
    assert_eq!(llvm_float_literal(2.0f32.to_bits()), "0x4000000000000000");
    assert_eq!(llvm_float_literal(0.0f32.to_bits()), "0x0000000000000000");
    assert_eq!(llvm_float_literal((-0.0f32).to_bits()), "0x8000000000000000");
    assert_eq!(llvm_float_literal(0.1f32.to_bits()), "0x3FB99999A0000000");
    assert_eq!(llvm_float_literal(f32::INFINITY.to_bits()), "0x7FF0000000000000");
    let smallest = f32::from_bits(1);
    assert_eq!(llvm_float_literal(smallest.to_bits()), format!("0x{:016X}", (smallest as f64).to_bits()));
}

#[test]
fn c_string_literals_escape_quotes_backslashes_and_controls() {
    assert_eq!(encode_llvm_c_string("ok"), "ok\\00");
    assert_eq!(encode_llvm_c_string("a\"b\\c\n"), "a\\22b\\5Cc\\0A\\00");
    assert_eq!(encode_llvm_c_string(""), "\\00");
}

#[test]
fn type_names_follow_source_spelling() {
    assert_eq!(ax_type_name(&Type::I32), "i32");
    assert_eq!(ax_type_name(&boxed(Type::String)), "Box<string>");
    assert_eq!(
        ax_type_name(&Type::EnumInstance {
            name: "Result".to_string(),
            args: vec![Type::I32, Type::String],
        }),
        "Result<i32, string>"
    );
    assert_eq!(ax_type_name(&Type::Slice { element: Box::new(Type::F32) }), "[]f32");
    assert_eq!(ax_type_name(&Type::Array { element: Box::new(Type::Bool), length: 3 }), "[bool; 3]");
}

#[test]
fn symbols_are_sanitised_and_prefixed() {
    assert_eq!(llvm_symbol("main"), "main");
    assert_eq!(llvm_symbol("Point.make"), "ax_Point_make");
    assert_eq!(llvm_symbol("identity<i32>"), "ax_identity_i32_");
    assert_eq!(user_function("add"), "ax_add");
    assert_eq!(user_method("Point", "sum"), "ax_Point_sum");
    assert_eq!(sanitize_component(""), "_");
    assert_eq!(generic_instance("Box", &["i32".to_string()]), "ax_Box_i32_");
}

#[test]
fn binding_type_params_then_substituting_gives_the_concrete_type() {
    let mut substitutions = NameMap::new();
    assert!(bind_type_params(&boxed(param("T")), &boxed(Type::I32), &mut substitutions).is_ok());
    assert!(matches!(substitutions.get("T"), Some(Type::I32)));
    let back = substitute_type_params(&boxed(param("T")), &substitutions);
    assert_eq!(ax_type_name(&back), "Box<i32>");
}

#[test]
fn substituting_with_no_bindings_keeps_the_type() {
    let substitutions: NameMap<Type> = NameMap::new();
    let nested = Type::Slice { element: Box::new(boxed(param("T"))) };
    let back = substitute_type_params(&nested, &substitutions);
    assert_eq!(ax_type_name(&back), ax_type_name(&nested));
    assert!(matches!(substitute_type_params(&param("U"), &substitutions), Type::TypeParam { .. }));
}

#[test]
fn binding_a_param_twice_to_different_types_fails() {
    let mut substitutions = NameMap::new();
    let pair_pattern = Type::StructInstance { name: "Pair".to_string(), args: vec![param("T"), param("T")] };
    let pair = Type::StructInstance { name: "Pair".to_string(), args: vec![Type::I32, Type::String] };
    let error = bind_type_params(&pair_pattern, &pair, &mut substitutions).unwrap_err();
    assert_eq!(error, "type parameter `T` was inferred as both i32 and string");
    let shape = bind_type_params(&boxed(param("U")), &Type::I32, &mut substitutions).unwrap_err();
    assert_eq!(shape, "expected Box<U>, found i32");
}

#[test]
fn specialization_keys_list_bound_arguments_in_parameter_order() {
    let mut substitutions = NameMap::new();
    substitutions.insert("E".to_string(), Type::String);
    substitutions.insert("T".to_string(), Type::I32);
    let params = vec!["T".to_string(), "E".to_string(), "U".to_string()];
    assert_eq!(function_specialization_key("Result.ok", &params, &substitutions), "Result.ok<i32, string>");
    assert_eq!(function_specialization_key("f", &vec![], &substitutions), "f<>");
}

#[test]
fn method_calls_are_recognised_by_prefix() {
    assert_eq!(method_call_name("<method>.sum").as_deref(), Some("sum"));
    assert_eq!(method_call_name("<method>."), Some(String::new()));
    assert_eq!(method_call_name("sum"), None);
    assert_eq!(method_call_name("<method>"), None);
}

#[test]
fn builtin_result_types_and_local_overrides() {
    assert!(matches!(builtin_return_type("len"), Some(Type::I32)));
    assert!(matches!(builtin_return_type("string_contains"), Some(Type::Bool)));
    assert!(matches!(builtin_return_type("string_split_lines"), Some(Type::Slice { .. })));
    assert!(builtin_return_type("println").is_none());
    assert!(should_override_local_type(&param("T"), &Type::I32));
    assert!(!should_override_local_type(&Type::I32, &Type::I32));
    assert!(should_override_local_type(&Type::Struct { name: "Box".to_string() }, &boxed(Type::I32)));
    assert!(should_override_local_type(&boxed(param("T")), &boxed(Type::I32)));
    assert!(!should_override_local_type(&boxed(Type::String), &boxed(Type::I32)));
}

#[test]
fn operators_are_spelled_as_in_source() {
    assert_eq!(llvm_binary_op_name(BinaryOp::LogicalAnd), "&&");
    assert_eq!(llvm_binary_op_name(BinaryOp::GreaterEqual), ">=");
    assert_eq!(llvm_binary_op_name(BinaryOp::Remainder), "%");
}

#[test]
fn alignment_rounds_up_to_a_multiple() {
    assert_eq!(align_to(5, 4), Some(8));
    assert_eq!(align_to(8, 4), Some(8));
    assert_eq!(align_to(7, 0), Some(7));
    assert_eq!(align_to(usize::MAX, 8), None);
}

#[test]
fn abi_classes_of_types() {
    assert_eq!(primitive_llvm_type(&Type::F32), Some("float"));
    assert_eq!(primitive_llvm_type(&boxed(Type::I32)), None);
    assert_eq!(native_abi_kind(&Type::String), NativeAbiKind::Pointer);
    assert_eq!(native_abi_kind(&Type::Slice { element: Box::new(Type::I32) }), NativeAbiKind::Slice);
    assert_eq!(native_abi_kind(&param("T")), NativeAbiKind::Generic);
}

#[test]
fn statuses_report_blockers_together() {
    assert_eq!(LlvmAotStatus::Built.as_manifest_status(), "built");
    assert_eq!(LlvmAotStatus::LoweringUnsupported.as_manifest_status(), "unsupported");
    assert_eq!(LlvmAotStatus::ToolchainMissing.as_manifest_status(), "ir_generated");
    assert_eq!(LlvmAotStatus::LinkSkipped.blocker_code(), Some("AOT1000"));
    assert_eq!(LlvmAotStatus::ToolchainFailed.blocker_category(), Some("toolchain"));
    assert_eq!(LlvmAotStatus::LoweringUnsupported.blocker_category(), Some("llvm_lowering"));
    assert_eq!(LlvmAotStatus::Built.blocker_code(), None);
    assert_eq!(LlvmAotStatus::Built.blocker_message(), None);
    assert_eq!(
        LlvmAotStatus::ToolchainMissing.blocker_message(),
        Some("LLVM IR was generated, but clang was not found for executable linking")
    );
}

#[test]
fn build_results_name_their_artifacts_and_notes() {
    assert_eq!(llvm_ir_artifact_path(), "generated/main.ll");
    assert_eq!(executable_artifact_path("demo", ".exe"), "bin/demo.exe");
    assert_eq!(with_forward_slashes("bin\\demo"), "bin/demo");

    let refused = lowering_unsupported_result(vec!["no main".to_string()]);
    assert_eq!(refused.status, LlvmAotStatus::LoweringUnsupported);
    assert_eq!(refused.notes, vec!["LLVM AOT v0 skipped: no main".to_string()]);
    assert!(refused.llvm_ir_artifact.is_none());

    let ir_only = ir_only_result("generated/main.ll".to_string());
    assert_eq!(ir_only.status, LlvmAotStatus::IrGenerated);
    assert!(ir_only.executable_artifact.is_none());

    let built = linked_result(
        LinkOutcome::Built { compiler: "clang".to_string() },
        "generated/main.ll".to_string(),
        "bin\\demo",
    );
    assert_eq!(built.status, LlvmAotStatus::Built);
    assert_eq!(built.executable_artifact.as_deref(), Some("bin/demo"));
    assert_eq!(built.notes[1], "LLVM executable artifact was linked with `clang`.");

    let missing = linked_result(
        LinkOutcome::ToolchainMissing { compiler: "clang-18".to_string() },
        "generated/main.ll".to_string(),
        "bin/demo",
    );
    assert_eq!(missing.status, LlvmAotStatus::ToolchainMissing);
    assert!(missing.executable_artifact.is_none());
    assert_eq!(missing.notes[1], "LLVM executable linking requested, but `clang-18` was not found.");
}

#[test]
fn link_settings_are_read_like_the_environment_expects() {
    assert!(linking_enabled(Some(" TRUE ")));
    assert!(linking_enabled(Some("1")));
    assert!(linking_enabled(Some("On")));
    assert!(!linking_enabled(Some("no")));
    assert!(!linking_enabled(None));
    assert_eq!(compiler_choice(None), "clang");
    assert_eq!(compiler_choice(Some("   ")), "clang");
    assert_eq!(compiler_choice(Some("clang-18")), "clang-18");
    assert_eq!(command_exit_code(Some(-2)), "-2");
    assert_eq!(command_exit_code(None), "terminated-by-signal");
    assert_eq!(trimmed("  a b \n"), "a b");
    assert_eq!(
        fallback_built("clang"),
        LinkOutcome::Built { compiler: "clang (windows-gnu self-contained fallback)".to_string() }
    );
    assert_eq!(
        spawn_failure("clang".to_string(), "denied"),
        LinkOutcome::Failed {
            compiler: "clang".to_string(),
            exit_code: "spawn-error".to_string(),
            stderr: "denied".to_string(),
        }
    );
}

#[test]
fn diagnostics_carry_their_layer_and_message() {
    let d = AotLoweringDiagnostic::runtime_abi("f32".to_string(), "no ABI".to_string());
    assert_eq!(d.layer, AotDiagnosticLayer::RuntimeAbi);
    assert_eq!(d.code, "AOT2200");
    assert_eq!(d.layer.as_str(), "runtime_abi");
    let messages = user_messages(vec![d, AotLoweringDiagnostic::internal("bug".to_string())]);
    assert_eq!(messages, vec!["no ABI".to_string(), "bug".to_string()]);
}

#[test]
fn name_maps_walk_in_name_order_and_keep_one_value_per_key() {
    let mut map = NameMap::new();
    map.insert("b".to_string(), 2);
    map.insert("a".to_string(), 1);
    map.insert("c".to_string(), 3);
    map.insert("b".to_string(), 20);
    assert_eq!(map.len(), 3);
    let order: Vec<String> = (0..map.len()).map(|i| map.entry_at(i).0.clone()).collect();
    assert_eq!(order, vec!["a".to_string(), "b".to_string(), "c".to_string()]);
    assert_eq!(map.get("b"), Some(&20));
    assert_eq!(map.get("z"), None);

    let mut ids = IdMap::new();
    ids.insert(7, "x");
    ids.insert(7, "y");
    assert_eq!(ids.get(7), Some(&"y"));
    assert_eq!(ids.get(8), None);
}

#[test]
fn join_puts_the_separator_between_items() {
    assert_eq!(join(&["a".to_string(), "b".to_string()], ", "), "a, b");
    assert_eq!(join(&[], ", "), "");
}

#[test]
fn link_modes_choose_their_link_step() {
    assert_eq!(link_step(LlvmAotLinkMode::Environment), LinkStep::LinkIfEnabled);
    assert_eq!(link_step(LlvmAotLinkMode::Force), LinkStep::Link);
    assert_eq!(link_step(LlvmAotLinkMode::Skip), LinkStep::Skip);
}
