use lib::id_map::IdMap;
use lib::ir::emitter::call::fields_by_name;
use lib::ir::infer::infer_concrete_local_types;
use lib::ir::layout::{collect_enum_layouts, collect_struct_layouts, program_types};
use lib::ir::model::{EnumLayout, FunctionSignature, StructFieldLayout, StructLayout};
use lib::ir::specialization::function_static_local_types;
use lib::ir::support::{ax_type_name, collect_string_literals, llvm_alloc_layout};
use lib::mir::{
    BasicBlock, EnumVariant, Expr, Function, Item, Local, Param, Program, Statement, StructField,
    Terminator, Type,
};
use lib::monomorph::plan_program;
use lib::name_map::NameMap;

fn s(t: &str) -> String {
    t.to_string()
}

fn text(t: &str) -> Expr {
    Expr::String { value: s(t) }
}

fn local(id: u32, name: &str, ty: Type) -> Local {
    Local { id, name: s(name), ty, mutable: false }
}

fn function(
    name: &str,
    type_params: Vec<&str>,
    params: Vec<Param>,
    return_type: Type,
    locals: Vec<Local>,
    statements: Vec<Statement>,
    value: Expr,
) -> Function {
    Function {
        name: s(name),
        type_params: type_params.into_iter().map(s).collect(),
        type_param_bounds: Vec::new(),
        params,
        return_type,
        locals,
        entry_block: 0,
        blocks: vec![BasicBlock { id: 0, statements, terminator: Terminator::Return { value } }],
    }
}

fn names(types: &[&Type]) -> Vec<String> {
    types.iter().map(|t| ax_type_name(t)).collect()
}

#[test]
fn string_literals_are_numbered_in_first_use_order() {
    let main = function(
        "main",
        vec![],
        vec![],
        Type::I32,
        vec![],
        vec![
            Statement::Eval { expr: text("b") },
            Statement::Eval { expr: text("a") },
            Statement::Eval { expr: text("b") },
        ],
        Expr::Int { value: 0 },
    );
    let program = Program { items: vec![Item::Function(main)] };
    let layouts: NameMap<StructLayout> = NameMap::new();
    let enum_layouts: NameMap<EnumLayout> = NameMap::new();
    let strings = collect_string_literals(&program, &layouts, &enum_layouts).unwrap();
    assert_eq!(strings.get("b").unwrap().symbol, "@.ax_str_0");
    assert_eq!(strings.get("a").unwrap().symbol, "@.ax_str_1");
    assert_eq!(strings.get("[").unwrap().symbol, "@.ax_str_2");
    assert_eq!(strings.get("]").unwrap().symbol, "@.ax_str_3");
    assert_eq!(strings.get(", ").unwrap().symbol, "@.ax_str_4");
    assert_eq!(strings.get(" }").unwrap().symbol, "@.ax_str_5");
    assert!(strings.get("(").is_none());
    assert_eq!(strings.len(), 6);
    assert_eq!(strings.get("b").unwrap().len, 2);
    assert_eq!(strings.get("b").unwrap().encoded, "b\\00");
}

#[test]
fn enum_formatter_labels_join_the_string_table() {
    let program = Program {
        items: vec![Item::Enum {
            name: s("Color"),
            type_params: vec![],
            variants: vec![
                EnumVariant { name: s("Red"), payload: None },
                EnumVariant { name: s("Green"), payload: None },
            ],
        }],
    };
    let enum_layouts = collect_enum_layouts(&program).unwrap();
    let layouts: NameMap<StructLayout> = NameMap::new();
    let strings = collect_string_literals(&program, &layouts, &enum_layouts).unwrap();
    assert_eq!(strings.get("(").unwrap().symbol, "@.ax_str_4");
    assert_eq!(strings.get(")").unwrap().symbol, "@.ax_str_5");
    assert_eq!(strings.get("Color.Red").unwrap().symbol, "@.ax_str_6");
    assert_eq!(strings.get("Color.Green").unwrap().symbol, "@.ax_str_7");
}

#[test]
fn program_types_follow_program_order() {
    let point = Item::Struct {
        name: s("Point"),
        type_params: vec![],
        fields: vec![
            StructField { name: s("x"), ty: Type::I32 },
            StructField { name: s("ok"), ty: Type::Bool },
        ],
    };
    let main = function(
        "main",
        vec![],
        vec![Param { local: 0, name: s("flag"), ty: Type::Bool }],
        Type::I32,
        vec![local(1, "name", Type::String)],
        vec![Statement::Let {
            local: 1,
            name: s("name"),
            ty: Type::Slice { element: Box::new(Type::I32) },
            initializer: text("x"),
        }],
        Expr::Int { value: 0 },
    );
    let constant = Item::Const { name: s("LIMIT"), ty: Type::F32, value: Expr::Float { bits: 0 } };
    let program = Program { items: vec![point, Item::Function(main), constant] };
    let types = program_types(&program);
    assert_eq!(names(&types), vec!["i32", "bool", "bool", "i32", "string", "[]i32", "f32"]);
}

#[test]
fn later_local_declarations_replace_parameter_types() {
    let params = vec![
        Param { local: 0, name: s("a"), ty: Type::I32 },
        Param { local: 1, name: s("b"), ty: Type::String },
    ];
    let locals = vec![local(0, "a", Type::Bool), local(2, "c", Type::F32)];
    let types = function_static_local_types(&params, &locals);
    assert_eq!(ax_type_name(types.get(0).unwrap()), "bool");
    assert_eq!(ax_type_name(types.get(1).unwrap()), "string");
    assert_eq!(ax_type_name(types.get(2).unwrap()), "f32");
    assert!(types.get(3).is_none());
}

#[test]
fn inference_only_replaces_generic_declarations() {
    let locals = vec![
        local(0, "x", Type::TypeParam { name: s("T") }),
        local(1, "y", Type::I32),
    ];
    let blocks = vec![BasicBlock {
        id: 0,
        statements: vec![
            Statement::Let { local: 0, name: s("x"), ty: Type::TypeParam { name: s("T") }, initializer: text("a") },
            Statement::Let { local: 1, name: s("y"), ty: Type::I32, initializer: text("b") },
        ],
        terminator: Terminator::Return { value: Expr::Int { value: 0 } },
    }];
    let signatures: NameMap<FunctionSignature> = NameMap::new();
    let enum_layouts: NameMap<EnumLayout> = NameMap::new();
    let overrides: IdMap<Type> = infer_concrete_local_types(&locals, &blocks, &signatures, &enum_layouts);
    assert_eq!(ax_type_name(overrides.get(0).unwrap()), "string");
    assert!(overrides.get(1).is_none());
}

#[test]
fn plain_structs_and_enums_get_named_layouts() {
    let program = Program {
        items: vec![
            Item::Struct {
                name: s("Point"),
                type_params: vec![],
                fields: vec![
                    StructField { name: s("x"), ty: Type::I32 },
                    StructField { name: s("y"), ty: Type::I32 },
                ],
            },
            Item::Enum {
                name: s("Shape"),
                type_params: vec![],
                variants: vec![
                    EnumVariant { name: s("Dot"), payload: None },
                    EnumVariant { name: s("Circle"), payload: Some(Type::I32) },
                ],
            },
        ],
    };
    let enum_layouts = collect_enum_layouts(&program).unwrap();
    let shape = enum_layouts.get("Shape").unwrap();
    assert_eq!(shape.ty, "%ax_enum_Shape");
    assert_eq!(shape.variants[0].tag, 0);
    assert_eq!(shape.variants[1].tag, 1);
    let layouts = collect_struct_layouts(&program, &enum_layouts).unwrap();
    let point = layouts.get("Point").unwrap();
    assert_eq!(point.name, "Point");
    assert_eq!(point.ty, "%ax_struct_Point");
    assert_eq!(point.fields.len(), 2);
    assert_eq!(point.fields[1].index, 1);
    assert_eq!(point.fields[1].name, "y");
}

#[test]
fn every_collected_specialization_is_reachable() {
    let identity = function(
        "identity",
        vec!["T"],
        vec![Param { local: 0, name: s("value"), ty: Type::TypeParam { name: s("T") } }],
        Type::TypeParam { name: s("T") },
        vec![],
        vec![],
        Expr::Local { local: 0, name: s("value") },
    );
    let main = function(
        "main",
        vec![],
        vec![],
        Type::I32,
        vec![],
        vec![],
        Expr::Call { function: s("identity"), arguments: vec![Expr::Int { value: 7 }] },
    );
    let program = Program { items: vec![Item::Function(identity), Item::Function(main)] };
    let plan = plan_program(&program).unwrap();
    assert!(plan.is_reachable("main"));
    let instances = plan.used_concrete_instances();
    assert_eq!(instances.len(), 1);
    assert_eq!(instances[0].key, "identity<i32>");
    assert_eq!(instances[0].source_name, "identity");
}

#[test]
fn struct_formatter_orders_fields_by_name() {
    let field = |name: &str, index: usize| StructFieldLayout {
        name: s(name),
        index,
        ty: s("i32"),
        ax_ty: Type::I32,
    };
    let fields = vec![field("y", 0), field("x", 1), field("b", 2), field("xa", 3)];
    let ordered: Vec<String> = fields_by_name(&fields).iter().map(|f| f.name.clone()).collect();
    assert_eq!(ordered, vec!["b", "x", "xa", "y"]);
}

#[test]
fn alloc_layouts_round_arrays_and_place_struct_fields() {
    let mut layouts: NameMap<StructLayout> = NameMap::new();
    let enum_layouts: NameMap<EnumLayout> = NameMap::new();
    let field = |name: &str, index: usize, ty: &str, ax_ty: Type| StructFieldLayout {
        name: s(name),
        index,
        ty: s(ty),
        ax_ty,
    };
    layouts.insert(
        s("Mixed"),
        StructLayout {
            name: s("Mixed"),
            ax_ty: Type::Struct { name: s("Mixed") },
            ty: s("%ax_struct_Mixed"),
            fields: vec![
                field("flag", 0, "i1", Type::Bool),
                field("count", 1, "i32", Type::I32),
                field("label", 2, "ptr", Type::String),
                field("tail", 3, "i1", Type::Bool),
            ],
        },
    );
    let array = Type::Array { element: Box::new(Type::Bool), length: 3 };
    assert_eq!(llvm_alloc_layout(&array, &layouts, &enum_layouts, 8), Some((3, 1)));
    let ints = Type::Array { element: Box::new(Type::I32), length: 5 };
    assert_eq!(llvm_alloc_layout(&ints, &layouts, &enum_layouts, 8), Some((20, 4)));
    // bool at 0, i32 at 4, ptr at 8, bool at 16; size 17 rounded up to 24.
    let mixed = Type::Struct { name: s("Mixed") };
    assert_eq!(llvm_alloc_layout(&mixed, &layouts, &enum_layouts, 8), Some((24, 8)));
    let nested = Type::Array { element: Box::new(mixed.clone()), length: 2 };
    assert_eq!(llvm_alloc_layout(&nested, &layouts, &enum_layouts, 8), Some((48, 8)));
    assert_eq!(llvm_alloc_layout(&nested, &layouts, &enum_layouts, 1), None);
    let missing = Type::Struct { name: s("Missing") };
    assert_eq!(llvm_alloc_layout(&missing, &layouts, &enum_layouts, 8), None);
}

#[test]
fn generic_calls_with_the_wrong_arity_are_reported() {
    let identity = function(
        "identity",
        vec!["T"],
        vec![Param { local: 0, name: s("value"), ty: Type::TypeParam { name: s("T") } }],
        Type::TypeParam { name: s("T") },
        vec![],
        vec![],
        Expr::Local { local: 0, name: s("value") },
    );
    let main = function(
        "main",
        vec![],
        vec![],
        Type::I32,
        vec![],
        vec![],
        Expr::Call {
            function: s("identity"),
            arguments: vec![Expr::Int { value: 7 }, Expr::Int { value: 8 }],
        },
    );
    let program = Program { items: vec![Item::Function(identity), Item::Function(main)] };
    match plan_program(&program) {
        Ok(_) => panic!("a call with the wrong arity was planned"),
        Err(reasons) => {
            assert_eq!(reasons, vec![s("function `identity` has 1 argument(s), but LLVM AOT saw 2")])
        },
    }
}
