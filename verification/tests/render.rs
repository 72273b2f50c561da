use lib::ir::render_program;
use lib::mir::{
    BasicBlock, BinaryOp, EnumVariant, EnumVariantPayloadPattern, Expr, Function, Item, Local,
    MatchExprArm, MatchPattern, Param, Place, Program, Statement, StructField, StructLiteralField,
    StructPatternField, Terminator, Type, TypeParamBound, UnaryOp,
};

fn s(t: &str) -> String {
    t.to_string()
}

fn bx(e: Expr) -> Box<Expr> {
    Box::new(e)
}

fn num(v: i64) -> Expr {
    Expr::Int { value: v }
}

fn flt(v: f32) -> Expr {
    Expr::Float { bits: v.to_bits() }
}

fn boolean(v: bool) -> Expr {
    Expr::Bool { value: v }
}

fn text(t: &str) -> Expr {
    Expr::String { value: s(t) }
}

fn var(id: u32, name: &str) -> Expr {
    Expr::Local { local: id, name: s(name) }
}

fn konst(name: &str) -> Expr {
    Expr::Const { name: s(name) }
}

fn call(function: &str, arguments: Vec<Expr>) -> Expr {
    Expr::Call { function: s(function), arguments }
}

fn method(name: &str, arguments: Vec<Expr>) -> Expr {
    call(&format!("<method>.{name}"), arguments)
}

fn bin(op: BinaryOp, left: Expr, right: Expr) -> Expr {
    Expr::Binary { op, left: bx(left), right: bx(right) }
}

fn add(left: Expr, right: Expr) -> Expr {
    bin(BinaryOp::Add, left, right)
}

fn sub(left: Expr, right: Expr) -> Expr {
    bin(BinaryOp::Subtract, left, right)
}

fn mul(left: Expr, right: Expr) -> Expr {
    bin(BinaryOp::Multiply, left, right)
}

fn div(left: Expr, right: Expr) -> Expr {
    bin(BinaryOp::Divide, left, right)
}

fn rem(left: Expr, right: Expr) -> Expr {
    bin(BinaryOp::Remainder, left, right)
}

fn eq(left: Expr, right: Expr) -> Expr {
    bin(BinaryOp::Equal, left, right)
}

fn ne(left: Expr, right: Expr) -> Expr {
    bin(BinaryOp::NotEqual, left, right)
}

fn lt(left: Expr, right: Expr) -> Expr {
    bin(BinaryOp::Less, left, right)
}

fn gt(left: Expr, right: Expr) -> Expr {
    bin(BinaryOp::Greater, left, right)
}

fn and(left: Expr, right: Expr) -> Expr {
    bin(BinaryOp::LogicalAnd, left, right)
}

fn or(left: Expr, right: Expr) -> Expr {
    bin(BinaryOp::LogicalOr, left, right)
}

fn neg(e: Expr) -> Expr {
    Expr::Unary { op: UnaryOp::Negate, expr: bx(e) }
}

fn not(e: Expr) -> Expr {
    Expr::Unary { op: UnaryOp::Not, expr: bx(e) }
}

fn field(base: Expr, name: &str) -> Expr {
    Expr::Field { base: bx(base), field: s(name) }
}

fn index(base: Expr, at: Expr) -> Expr {
    Expr::Index { base: bx(base), index: bx(at) }
}

fn range(base: Expr, start: Expr, end: Expr) -> Expr {
    Expr::Slice { base: bx(base), start: bx(start), end: bx(end) }
}

fn array(elements: Vec<Expr>) -> Expr {
    Expr::ArrayLiteral { elements }
}

fn struct_lit(name: &str, fields: Vec<(&str, Expr)>) -> Expr {
    Expr::StructLiteral {
        name: s(name),
        fields: fields
            .into_iter()
            .map(|(n, value)| StructLiteralField { name: s(n), value })
            .collect(),
    }
}

fn variant(enum_name: &str, name: &str, payload: Option<Expr>) -> Expr {
    Expr::EnumVariant { enum_name: s(enum_name), variant: s(name), payload: payload.map(bx) }
}

fn test_pattern(scrutinee: Expr, pattern: MatchPattern) -> Expr {
    Expr::MatchTest { scrutinee: bx(scrutinee), pattern }
}

fn payload(value: Expr) -> Expr {
    Expr::EnumPayload { value: bx(value) }
}

fn block(statements: Vec<Statement>, value: Expr) -> Expr {
    Expr::Block { statements, value: bx(value) }
}

fn match_expr(scrutinee: Expr, arms: Vec<MatchExprArm>) -> Expr {
    Expr::Match { scrutinee: bx(scrutinee), arms }
}

fn try_(e: Expr) -> Expr {
    Expr::Try { expr: bx(e) }
}

fn arm(pattern: MatchPattern, guard: Option<Expr>, value: Expr) -> MatchExprArm {
    MatchExprArm { pattern, guard, value }
}

fn p_wild() -> MatchPattern {
    MatchPattern::Wildcard
}

fn p_range(start: i64, end: i64) -> MatchPattern {
    MatchPattern::IntRange { start, end }
}

fn p_unit(enum_name: &str, name: &str) -> MatchPattern {
    MatchPattern::EnumVariant {
        enum_name: s(enum_name),
        variant: s(name),
        payload: None,
        payload_type: None,
    }
}

fn p_bind(enum_name: &str, name: &str, binding: &str, ty: Type) -> MatchPattern {
    MatchPattern::EnumVariant {
        enum_name: s(enum_name),
        variant: s(name),
        payload: Some(EnumVariantPayloadPattern::Binding { name: s(binding) }),
        payload_type: Some(ty),
    }
}

fn p_ignore(enum_name: &str, name: &str, ty: Type) -> MatchPattern {
    MatchPattern::EnumVariant {
        enum_name: s(enum_name),
        variant: s(name),
        payload: Some(EnumVariantPayloadPattern::Wildcard),
        payload_type: Some(ty),
    }
}

fn p_or(alternatives: Vec<MatchPattern>) -> MatchPattern {
    MatchPattern::Or { alternatives }
}

fn p_struct(name: &str, fields: Vec<(&str, &str, Type)>) -> MatchPattern {
    MatchPattern::Struct {
        struct_name: s(name),
        fields: fields
            .into_iter()
            .map(|(n, binding, ty)| StructPatternField { name: s(n), binding: s(binding), ty })
            .collect(),
    }
}

fn let_(local: u32, name: &str, ty: Type, initializer: Expr) -> Statement {
    Statement::Let { local, name: s(name), ty, initializer }
}

fn eval(expr: Expr) -> Statement {
    Statement::Eval { expr }
}

fn assign(target: Place, value: Expr) -> Statement {
    Statement::Assign { target, value }
}

fn place(local: u32, name: &str) -> Place {
    Place::Local { local, name: s(name) }
}

fn place_field(base: Place, name: &str) -> Place {
    Place::Field { base: Box::new(base), field: s(name) }
}

fn place_index(base: Place, at: Expr) -> Place {
    Place::Index { base: Box::new(base), index: bx(at) }
}

fn ret(value: Expr) -> Terminator {
    Terminator::Return { value }
}

fn goto(target: u32) -> Terminator {
    Terminator::Goto { target }
}

fn branch(condition: Expr, then_block: u32, else_block: u32) -> Terminator {
    Terminator::Branch { condition, then_block, else_block }
}

fn bb(id: u32, statements: Vec<Statement>, terminator: Terminator) -> BasicBlock {
    BasicBlock { id, statements, terminator }
}

fn t_slice(element: Type) -> Type {
    Type::Slice { element: Box::new(element) }
}

fn t_array(element: Type, length: usize) -> Type {
    Type::Array { element: Box::new(element), length }
}

fn t_struct(name: &str) -> Type {
    Type::Struct { name: s(name) }
}

fn t_struct_of(name: &str, args: Vec<Type>) -> Type {
    Type::StructInstance { name: s(name), args }
}

fn t_enum(name: &str) -> Type {
    Type::Enum { name: s(name) }
}

fn t_enum_of(name: &str, args: Vec<Type>) -> Type {
    Type::EnumInstance { name: s(name), args }
}

fn t_param(name: &str) -> Type {
    Type::TypeParam { name: s(name) }
}

/// A function whose locals are its parameters followed by `lets`, with
/// entry block 0.
fn generic_func(
    name: &str,
    type_params: Vec<&str>,
    bounds: Vec<(&str, &str)>,
    params: Vec<(u32, &str, Type)>,
    return_type: Type,
    lets: Vec<(u32, &str, Type)>,
    blocks: Vec<BasicBlock>,
) -> Item {
    let mut locals = Vec::new();
    for (id, n, ty) in params.iter().chain(lets.iter()) {
        locals.push(Local { id: *id, name: s(n), ty: ty.clone(), mutable: true });
    }
    Item::Function(Function {
        name: s(name),
        type_params: type_params.into_iter().map(s).collect(),
        type_param_bounds: bounds
            .into_iter()
            .map(|(param, bound)| TypeParamBound { param: s(param), bound: s(bound) })
            .collect(),
        params: params
            .into_iter()
            .map(|(local, n, ty)| Param { local, name: s(n), ty })
            .collect(),
        return_type,
        locals,
        entry_block: 0,
        blocks,
    })
}

fn func(
    name: &str,
    params: Vec<(u32, &str, Type)>,
    return_type: Type,
    lets: Vec<(u32, &str, Type)>,
    blocks: Vec<BasicBlock>,
) -> Item {
    generic_func(name, vec![], vec![], params, return_type, lets, blocks)
}

fn structure(name: &str, type_params: Vec<&str>, fields: Vec<(&str, Type)>) -> Item {
    Item::Struct {
        name: s(name),
        type_params: type_params.into_iter().map(s).collect(),
        fields: fields.into_iter().map(|(n, ty)| StructField { name: s(n), ty }).collect(),
    }
}

fn enumeration(name: &str, type_params: Vec<&str>, variants: Vec<(&str, Option<Type>)>) -> Item {
    Item::Enum {
        name: s(name),
        type_params: type_params.into_iter().map(s).collect(),
        variants: variants
            .into_iter()
            .map(|(n, payload)| EnumVariant { name: s(n), payload })
            .collect(),
    }
}

fn constant(name: &str, ty: Type, value: Expr) -> Item {
    Item::Const { name: s(name), ty, value }
}

fn render(items: Vec<Item>) -> String {
    render_program(&Program { items }).expect("LLVM IR should render")
}

/// `fn main() -> i32 { return <value>; }` preceded by `statements`.
fn main_returning(lets: Vec<(u32, &str, Type)>, statements: Vec<Statement>, value: Expr) -> Item {
    func("main", vec![], Type::I32, lets, vec![bb(0, statements, ret(value))])
}

/// `if (condition) { total = total + amount; }` as blocks `at` (test), `at + 1`
/// (then) and `at + 2` (join).
fn add_if(at: u32, condition: Expr, total: u32, amount: i64) -> Vec<BasicBlock> {
    vec![
        bb(at, vec![], branch(condition, at + 1, at + 2)),
        bb(
            at + 1,
            vec![assign(place(total, "total"), add(var(total, "total"), num(amount)))],
            goto(at + 2),
        ),
    ]
}

#[test]
fn renders_minimal_main_return() {
    let rendered = render(vec![main_returning(vec![], vec![], num(0))]);

    assert!(rendered.contains("define i32 @main(i32 %argc, ptr %argv)"));
    assert!(rendered.contains("store i32 %argc, ptr @.ax_argc"));
    assert!(rendered.contains("store ptr %argv, ptr @.ax_argv"));
    assert!(rendered.contains("ret i32 0"));
}

#[test]
fn skips_unreachable_unsupported_function_signatures_v0() {
    let rendered = render(vec![
        func(
            "unused",
            vec![(0, "items", Type::StringList)],
            Type::StringList,
            vec![],
            vec![bb(0, vec![], ret(var(0, "items")))],
        ),
        main_returning(vec![], vec![], num(0)),
    ]);

    assert!(rendered.contains("define i32 @main(i32 %argc, ptr %argv)"));
    assert!(!rendered.contains("@ax_unused"));
}

#[test]
fn renders_i32_function_calls_and_arithmetic() {
    let rendered = render(vec![
        func(
            "add",
            vec![(0, "left", Type::I32), (1, "right", Type::I32)],
            Type::I32,
            vec![],
            vec![bb(0, vec![], ret(add(var(0, "left"), var(1, "right"))))],
        ),
        main_returning(vec![], vec![], call("add", vec![num(1), num(2)])),
    ]);

    assert!(rendered.contains("define i32 @ax_add(i32 %arg0, i32 %arg1)"));
    assert!(rendered.contains("call { i32, i1 } @llvm.sadd.with.overflow.i32"));
    assert!(rendered.contains("= call i32 @ax_add(i32 1, i32 2)"));
}

#[test]
fn renders_i32_overflow_guards_v0() {
    let l = || var(0, "left");
    let r = || var(1, "right");
    let sum = add(
        add(
            add(add(add(var(2, "negated"), add(l(), r())), sub(l(), r())), mul(l(), r())),
            div(l(), r()),
        ),
        rem(l(), r()),
    );
    let rendered = render(vec![
        func(
            "ops",
            vec![(0, "left", Type::I32), (1, "right", Type::I32)],
            Type::I32,
            vec![(2, "negated", Type::I32)],
            vec![bb(0, vec![let_(2, "negated", Type::I32, neg(l()))], ret(sum))],
        ),
        main_returning(vec![], vec![], call("ops", vec![num(8), num(2)])),
    ]);

    assert!(rendered.contains("declare { i32, i1 } @llvm.sadd.with.overflow.i32(i32, i32)"));
    assert!(rendered.contains("declare { i32, i1 } @llvm.ssub.with.overflow.i32(i32, i32)"));
    assert!(rendered.contains("declare { i32, i1 } @llvm.smul.with.overflow.i32(i32, i32)"));
    assert!(rendered.contains("call { i32, i1 } @llvm.sadd.with.overflow.i32"));
    assert!(rendered.contains("call { i32, i1 } @llvm.ssub.with.overflow.i32"));
    assert!(rendered.contains("call { i32, i1 } @llvm.smul.with.overflow.i32"));
    assert!(rendered.contains("i32_neg_overflow"));
    assert!(rendered.contains("i32_add_overflow"));
    assert!(rendered.contains("i32_sub_overflow"));
    assert!(rendered.contains("i32_mul_overflow"));
    assert!(rendered.contains("i32_div_overflow"));
    assert!(rendered.contains("i32_rem_overflow"));
    assert!(rendered.contains("@.ax_rt_neg_overflow"));
    assert!(rendered.contains("@.ax_rt_add_overflow"));
    assert!(rendered.contains("@.ax_rt_sub_overflow"));
    assert!(rendered.contains("@.ax_rt_mul_overflow"));
    assert!(rendered.contains("@.ax_rt_div_overflow"));
    assert!(rendered.contains("@.ax_rt_rem_overflow"));
}

#[test]
fn renders_division_by_zero_guards_v0() {
    let binary = |name: &str, ty: Type, body: Expr| {
        func(
            name,
            vec![(0, "left", ty.clone()), (1, "right", ty.clone())],
            ty,
            vec![],
            vec![bb(0, vec![], ret(body))],
        )
    };
    let rendered = render(vec![
        binary("div_i32", Type::I32, div(var(0, "left"), var(1, "right"))),
        binary("rem_i32", Type::I32, rem(var(0, "left"), var(1, "right"))),
        binary("div_f32", Type::F32, div(var(0, "left"), var(1, "right"))),
        main_returning(
            vec![],
            vec![eval(call("println", vec![call("div_f32", vec![flt(1.0), flt(2.0)])]))],
            add(call("div_i32", vec![num(8), num(2)]), call("rem_i32", vec![num(9), num(4)])),
        ),
    ]);

    assert!(rendered.contains("icmp eq i32"));
    assert!(rendered.contains("fcmp oeq float"));
    assert!(rendered.contains("i32_div_zero"));
    assert!(rendered.contains("f32_div_zero"));
    assert!(rendered.contains("@.ax_rt_div_zero"));
    assert!(rendered.contains("@.ax_rt_mod_zero"));
    assert!(rendered.contains("define private void @ax_runtime_error(ptr %message)"));
    assert!(rendered.contains("call i32 @fputs(ptr %message"));
    assert!(rendered.contains("call void @exit(i32 1)"));
    assert!(rendered.contains("sdiv i32"));
    assert!(rendered.contains("srem i32"));
    assert!(rendered.contains("fdiv float"));
}

#[test]
fn renders_f32_core_values_arithmetic_and_formatting_v0() {
    let value = || var(0, "value");
    let result = || var(0, "result");
    let total = 3;
    let mut blocks = vec![bb(
        0,
        vec![
            let_(0, "result", Type::F32, call("calc", vec![flt(1.5)])),
            let_(1, "negated", Type::F32, neg(result())),
            let_(2, "text", Type::String, call("to_string", vec![result()])),
            let_(3, "total", Type::I32, num(0)),
        ],
        goto(1),
    )];
    blocks.extend(add_if(1, gt(result(), flt(7.4)), total, 1));
    blocks.extend(add_if(3, eq(result(), flt(7.5)), total, 2));
    blocks.extend(add_if(5, ne(result(), flt(7.0)), total, 4));
    blocks.extend(add_if(7, lt(var(1, "negated"), flt(0.0)), total, 8));
    blocks.extend(add_if(9, eq(call("string_len", vec![var(2, "text")]), num(3)), total, 16));
    blocks.push(bb(11, vec![eval(call("println", vec![result()]))], ret(var(3, "total"))));
    let rendered = render(vec![
        func(
            "calc",
            vec![(0, "value", Type::F32)],
            Type::F32,
            vec![],
            vec![bb(
                0,
                vec![],
                ret(sub(mul(add(value(), flt(2.5)), flt(2.0)), div(flt(1.0), flt(2.0)))),
            )],
        ),
        func(
            "main",
            vec![],
            Type::I32,
            vec![
                (0, "result", Type::F32),
                (1, "negated", Type::F32),
                (2, "text", Type::String),
                (3, "total", Type::I32),
            ],
            blocks,
        ),
    ]);

    assert!(rendered.contains("define float @ax_calc(float %arg0)"));
    assert!(rendered.contains("fadd float"));
    assert!(rendered.contains("fmul float"));
    assert!(rendered.contains("fdiv float"));
    assert!(rendered.contains("fneg float"));
    assert!(rendered.contains("fcmp ogt float"));
    assert!(rendered.contains("fcmp oeq float"));
    assert!(rendered.contains("call ptr @ax_f32_to_string(float"));
    assert!(rendered.contains("fpext float"));
}

#[test]
fn renders_i32_and_bool_println_calls() {
    let rendered = render(vec![main_returning(
        vec![],
        vec![
            eval(call("println", vec![num(7)])),
            eval(call("println", vec![boolean(true)])),
        ],
        num(0),
    )]);

    assert!(rendered.contains("declare i32 @printf(ptr, ...)"));
    assert!(rendered.contains("call i32 (ptr, ...) @printf(ptr @.ax_fmt_i32, i32 7)"));
    assert!(rendered.contains("select i1 1, ptr @.ax_text_true, ptr @.ax_text_false"));
}

#[test]
fn renders_short_circuit_logical_ops_v0() {
    let rendered = render(vec![func(
        "main",
        vec![],
        Type::I32,
        vec![(0, "ready", Type::Bool), (1, "has_input", Type::Bool), (2, "should_run", Type::Bool)],
        vec![
            bb(
                0,
                vec![
                    let_(0, "ready", Type::Bool, boolean(true)),
                    let_(1, "has_input", Type::Bool, boolean(false)),
                    let_(
                        2,
                        "should_run",
                        Type::Bool,
                        or(and(var(0, "ready"), not(var(1, "has_input"))), boolean(false)),
                    ),
                ],
                branch(and(boolean(false), eq(div(num(8), num(0)), num(0))), 1, 2),
            ),
            bb(1, vec![], ret(num(1))),
            bb(2, vec![], branch(or(var(2, "should_run"), boolean(true)), 3, 4)),
            bb(3, vec![], ret(num(7))),
            bb(4, vec![], ret(num(0))),
        ],
    )]);

    assert!(rendered.contains("logical_rhs"));
    assert!(rendered.contains("logical_done"));
    assert!(rendered.contains("alloca i1"));
    assert!(rendered.contains("br i1 0, label %logical_rhs"));
    assert!(rendered.contains("br i1 %"));
}

#[test]
fn renders_string_literal_println_calls() {
    let rendered = render(vec![main_returning(
        vec![],
        vec![
            eval(call("println", vec![text("hello")])),
            eval(call("println", vec![text("C:\\AX")])),
        ],
        num(0),
    )]);

    assert!(
        rendered.contains("@.ax_str_0 = private unnamed_addr constant [6 x i8] c\"hello\\00\"")
    );
    assert!(
        rendered.contains("@.ax_str_1 = private unnamed_addr constant [6 x i8] c\"C:\\5CAX\\00\"")
    );
    assert!(rendered.contains("call i32 (ptr, ...) @printf(ptr @.ax_fmt_str, ptr @.ax_str_0)"));
}

#[test]
fn renders_top_level_i32_bool_and_string_consts() {
    let rendered = render(vec![
        constant("EXIT_OK", Type::I32, num(7)),
        constant("ENABLED", Type::Bool, boolean(true)),
        constant("LABEL", Type::String, text("const-ready")),
        func(
            "main",
            vec![],
            Type::I32,
            vec![],
            vec![
                bb(0, vec![], branch(konst("ENABLED"), 1, 2)),
                bb(1, vec![eval(call("println", vec![konst("LABEL")]))], goto(2)),
                bb(2, vec![], ret(konst("EXIT_OK"))),
            ],
        ),
    ]);

    assert!(
        rendered
            .contains("@.ax_str_0 = private unnamed_addr constant [12 x i8] c\"const-ready\\00\"")
    );
    assert!(rendered.contains("call i32 (ptr, ...) @printf(ptr @.ax_fmt_str, ptr @.ax_str_0)"));
    assert!(rendered.contains("br i1 1, label"));
    assert!(rendered.contains("ret i32 7"));
}

#[test]
fn renders_string_locals_params_and_return_values() {
    let rendered = render(vec![
        func(
            "choose",
            vec![(0, "left", Type::String), (1, "right", Type::String)],
            Type::String,
            vec![],
            vec![bb(0, vec![], ret(var(1, "right")))],
        ),
        main_returning(
            vec![(0, "text", Type::String)],
            vec![
                let_(0, "text", Type::String, call("choose", vec![text("ignored"), text("kept")])),
                eval(call("println", vec![var(0, "text")])),
            ],
            num(0),
        ),
    ]);

    assert!(rendered.contains("define ptr @ax_choose(ptr %arg0, ptr %arg1)"));
    assert!(rendered.contains("store ptr %arg0, ptr %local"));
    assert!(rendered.contains("ret ptr %t"));
    assert!(rendered.contains("= call ptr @ax_choose(ptr @.ax_str_0, ptr @.ax_str_1)"));
    assert!(rendered.contains("call i32 (ptr, ...) @printf(ptr @.ax_fmt_str, ptr %t"));
}

#[test]
fn renders_string_len_and_content_comparisons() {
    let rendered = render(vec![
        func(
            "same",
            vec![(0, "left", Type::String), (1, "right", Type::String)],
            Type::Bool,
            vec![],
            vec![bb(0, vec![], ret(eq(var(0, "left"), var(1, "right"))))],
        ),
        func(
            "main",
            vec![],
            Type::I32,
            vec![(0, "text", Type::String)],
            vec![
                bb(
                    0,
                    vec![let_(0, "text", Type::String, text("AX"))],
                    branch(
                        and(
                            call("same", vec![var(0, "text"), text("AX")]),
                            ne(var(0, "text"), text("BY")),
                        ),
                        1,
                        2,
                    ),
                ),
                bb(
                    1,
                    vec![],
                    ret(add(call("string_len", vec![var(0, "text")]), call("len", vec![text("tool")]))),
                ),
                bb(2, vec![], ret(num(1))),
            ],
        ),
    ]);

    assert!(rendered.contains("declare i32 @strcmp(ptr, ptr)"));
    assert!(rendered.contains("define private i32 @ax_string_len(ptr %text)"));
    assert!(rendered.contains("call i32 @strcmp(ptr"));
    assert!(rendered.contains("icmp eq i32"));
    assert!(rendered.contains("icmp ne i32"));
    assert!(rendered.contains("call i32 @ax_string_len(ptr"));
}

#[test]
fn renders_argv_builtins_from_native_main_args_v0() {
    let rendered = render(vec![func(
        "main",
        vec![],
        Type::I32,
        vec![(0, "first", Type::String)],
        vec![
            bb(0, vec![], branch(eq(call("argv_len", vec![]), num(0)), 1, 2)),
            bb(1, vec![], ret(num(0))),
            bb(
                2,
                vec![
                    let_(0, "first", Type::String, call("argv_get", vec![num(0)])),
                    eval(call("println", vec![var(0, "first")])),
                ],
                ret(call("string_len", vec![var(0, "first")])),
            ),
        ],
    )]);

    assert!(rendered.contains("@.ax_argc = private global i32 0"));
    assert!(rendered.contains("@.ax_argv = private global ptr null"));
    assert!(rendered.contains("define i32 @main(i32 %argc, ptr %argv)"));
    assert!(rendered.contains("load i32, ptr @.ax_argc"));
    assert!(rendered.contains("load ptr, ptr @.ax_argv"));
    assert!(rendered.contains("getelementptr ptr, ptr"));
}

#[test]
fn renders_string_concat_and_to_string_values() {
    let body = add(
        add(
            add(add(var(2, "label"), text("=")), call("to_string", vec![var(0, "value")])),
            text(", enabled="),
        ),
        call("to_string", vec![var(1, "enabled")]),
    );
    let rendered = render(vec![
        func(
            "describe",
            vec![(0, "value", Type::I32), (1, "enabled", Type::Bool), (2, "label", Type::String)],
            Type::String,
            vec![],
            vec![bb(0, vec![], ret(body))],
        ),
        main_returning(
            vec![(0, "message", Type::String)],
            vec![
                let_(
                    0,
                    "message",
                    Type::String,
                    add(call("describe", vec![num(7), boolean(true), text("count")]), text(" done")),
                ),
                eval(call("println", vec![var(0, "message")])),
            ],
            call("string_len", vec![var(0, "message")]),
        ),
    ]);

    assert!(rendered.contains("declare ptr @malloc(i64)"));
    assert!(rendered.contains("declare ptr @memcpy(ptr, ptr, i64)"));
    assert!(rendered.contains("declare i32 @snprintf(ptr, i64, ptr, ...)"));
    assert!(rendered.contains("define private ptr @ax_string_concat(ptr %left, ptr %right)"));
    assert!(rendered.contains("define private ptr @ax_i32_to_string(i32 %value)"));
    assert!(rendered.contains("call ptr @ax_string_concat(ptr"));
    assert!(rendered.contains("call ptr @ax_i32_to_string(i32"));
    assert!(rendered.contains("select i1"));
}

#[test]
fn renders_string_predicate_builtins() {
    let t = || var(0, "text");
    let rendered = render(vec![func(
        "main",
        vec![],
        Type::I32,
        vec![(0, "text", Type::String)],
        vec![
            bb(
                0,
                vec![let_(0, "text", Type::String, text("AX compiler"))],
                branch(
                    and(
                        and(
                            call("string_contains", vec![t(), text("comp")]),
                            call("string_starts_with", vec![t(), text("AX")]),
                        ),
                        call("string_ends_with", vec![t(), text("iler")]),
                    ),
                    1,
                    2,
                ),
            ),
            bb(1, vec![], ret(num(17))),
            bb(2, vec![], ret(num(1))),
        ],
    )]);

    assert!(rendered.contains("declare ptr @strstr(ptr, ptr)"));
    assert!(rendered.contains("declare i32 @strncmp(ptr, ptr, i64)"));
    assert!(rendered.contains("call ptr @strstr(ptr"));
    assert!(rendered.contains("call i32 @strncmp(ptr"));
    assert!(rendered.contains("string_suffix_compare"));
    assert!(rendered.contains("phi i1"));
}

#[test]
fn renders_string_trim_builtin() {
    let rendered = render(vec![main_returning(
        vec![(0, "text", Type::String)],
        vec![
            let_(0, "text", Type::String, call("string_trim", vec![text("  AX compiler\n")])),
            eval(call("println", vec![var(0, "text")])),
        ],
        call("string_len", vec![var(0, "text")]),
    )]);

    assert!(rendered.contains("define private i1 @ax_is_ascii_trim_space(i8 %byte)"));
    assert!(rendered.contains("define private ptr @ax_string_trim(ptr %text)"));
    assert!(rendered.contains("call ptr @ax_string_trim(ptr"));
    assert!(rendered.contains("call i32 @ax_string_len(ptr"));
}

#[test]
fn renders_string_replace_builtin() {
    let rendered = render(vec![main_returning(
        vec![(0, "text", Type::String)],
        vec![
            let_(
                0,
                "text",
                Type::String,
                call("string_replace", vec![text("AX compiler AX"), text("AX"), text("A")]),
            ),
            eval(call("println", vec![var(0, "text")])),
        ],
        call("string_len", vec![var(0, "text")]),
    )]);

    assert!(
        rendered.contains("define private ptr @ax_string_replace(ptr %text, ptr %from, ptr %to)")
    );
    assert!(
        rendered.contains("define private ptr @ax_string_replace_empty_from(ptr %text, ptr %to)")
    );
    assert!(rendered.contains("call ptr @ax_string_replace(ptr"));
    assert!(rendered.contains("call i32 @ax_string_len(ptr"));
}

#[test]
fn renders_string_split_lines_builtin_as_read_only_string_slice() {
    let rendered = render(vec![main_returning(
        vec![(0, "lines", t_slice(Type::String))],
        vec![
            let_(
                0,
                "lines",
                t_slice(Type::String),
                call("string_split_lines", vec![text("alpha\nbeta\ngamma\n")]),
            ),
            eval(call("println", vec![index(var(0, "lines"), num(1))])),
        ],
        call("len", vec![var(0, "lines")]),
    )]);

    assert!(rendered.contains("define private ptr @ax_string_copy_range(ptr %text"));
    assert!(rendered.contains("define private { ptr, i32 } @ax_string_split_lines(ptr %text)"));
    assert!(rendered.contains("call { ptr, i32 } @ax_string_split_lines(ptr"));
    assert!(rendered.contains("extractvalue { ptr, i32 }"));
    assert!(rendered.contains("load ptr, ptr"));
}

/// `for (let item in <source>) { <body> }` over a read-only slice local
/// `items` (id `items`), with the index in local `at`: blocks `start`
/// (set up), `start + 1` (test), `start + 2` (body) and `start + 3` (after).
fn for_each(
    start: u32,
    items: u32,
    at: u32,
    item: (u32, &str, Type),
    source: Expr,
    body: Vec<Statement>,
) -> Vec<BasicBlock> {
    let element = item.2.clone();
    let mut statements = vec![let_(
        item.0,
        item.1,
        element,
        index(var(items, "__items"), var(at, "__index")),
    )];
    statements.extend(body);
    statements.push(assign(place(at, "__index"), add(var(at, "__index"), num(1))));
    vec![
        bb(
            start,
            vec![
                let_(items, "__items", t_slice(item.2.clone()), source),
                let_(at, "__index", Type::I32, num(0)),
            ],
            goto(start + 1),
        ),
        bb(
            start + 1,
            vec![],
            branch(lt(var(at, "__index"), call("len", vec![var(items, "__items")])), start + 2, start + 3),
        ),
        bb(start + 2, statements, goto(start + 1)),
    ]
}

#[test]
fn renders_for_in_over_runtime_string_slices() {
    let mut blocks = vec![bb(
        0,
        vec![
            let_(
                0,
                "lines",
                t_slice(Type::String),
                call("string_split_lines", vec![text("alpha\nbeta\ngamma\n")]),
            ),
            let_(1, "total", Type::I32, num(0)),
        ],
        goto(1),
    )];
    blocks.extend(for_each(
        1,
        2,
        3,
        (4, "line", Type::String),
        var(0, "lines"),
        vec![assign(
            place(1, "total"),
            add(var(1, "total"), call("string_len", vec![var(4, "line")])),
        )],
    ));
    blocks.push(bb(4, vec![], ret(var(1, "total"))));
    let rendered = render(vec![func(
        "main",
        vec![],
        Type::I32,
        vec![
            (0, "lines", t_slice(Type::String)),
            (1, "total", Type::I32),
            (2, "__items", t_slice(Type::String)),
            (3, "__index", Type::I32),
            (4, "line", Type::String),
        ],
        blocks,
    )]);

    assert!(rendered.contains("call { ptr, i32 } @ax_string_split_lines(ptr"));
    assert!(rendered.contains("extractvalue { ptr, i32 }"));
    assert!(rendered.contains("getelementptr ptr, ptr"));
    assert!(rendered.contains("call i32 @ax_string_len(ptr"));
}

#[test]
fn renders_fixed_array_literals_index_reads_and_len() {
    let four = || t_array(Type::I32, 4);
    let rendered = render(vec![
        func(
            "pick",
            vec![(0, "values", four()), (1, "index", Type::I32)],
            Type::I32,
            vec![],
            vec![bb(0, vec![], ret(index(var(0, "values"), var(1, "index"))))],
        ),
        main_returning(
            vec![(0, "values", four())],
            vec![let_(0, "values", four(), array(vec![num(3), num(5), num(8), num(13)]))],
            add(
                index(var(0, "values"), num(0)),
                call(
                    "pick",
                    vec![var(0, "values"), sub(call("len", vec![var(0, "values")]), num(1))],
                ),
            ),
        ),
    ]);

    assert!(rendered.contains("define i32 @ax_pick([4 x i32] %arg0, i32 %arg1)"));
    assert!(rendered.contains("insertvalue [4 x i32] undef, i32 3, 0"));
    assert!(rendered.contains("store [4 x i32] %t"));
    assert!(rendered.contains("getelementptr [4 x i32], ptr %local"));
    assert!(rendered.contains("icmp slt i32"));
    assert!(rendered.contains("icmp sge i32"));
    assert!(rendered.contains("call i32 @ax_pick([4 x i32]"));
}

#[test]
fn renders_empty_array_literals_from_zero_length_context_v0() {
    let empty = || t_array(Type::I32, 0);
    let rendered = render(vec![
        func(
            "keep",
            vec![(0, "values", empty())],
            empty(),
            vec![],
            vec![bb(0, vec![], ret(var(0, "values")))],
        ),
        main_returning(
            vec![(0, "values", empty()), (1, "copied", empty())],
            vec![
                let_(0, "values", empty(), array(vec![])),
                let_(1, "copied", empty(), call("keep", vec![array(vec![])])),
                eval(call("println", vec![var(0, "values")])),
            ],
            call("len", vec![var(1, "copied")]),
        ),
    ]);

    assert!(rendered.contains("define [0 x i32] @ax_keep([0 x i32] %arg0)"));
    assert!(rendered.contains("store [0 x i32] zeroinitializer"));
    assert!(rendered.contains("call [0 x i32] @ax_keep([0 x i32] zeroinitializer)"));
    assert!(rendered.contains("ret i32 0"));
}

#[test]
fn renders_fixed_array_element_assignments() {
    let three = || t_array(Type::I32, 3);
    let rendered = render(vec![main_returning(
        vec![(0, "values", three())],
        vec![
            let_(0, "values", three(), array(vec![num(1), num(2), num(3)])),
            assign(
                place_index(place(0, "values"), num(1)),
                add(index(var(0, "values"), num(0)), num(8)),
            ),
        ],
        index(var(0, "values"), num(1)),
    )]);

    assert!(rendered.contains("insertvalue [3 x i32] undef, i32 1, 0"));
    assert!(rendered.contains("getelementptr [3 x i32], ptr %local"));
    assert!(rendered.contains("store i32 %t"));
    assert!(rendered.contains("icmp slt i32 1, 0"));
    assert!(rendered.contains("icmp sge i32 1, 3"));
}

#[test]
fn renders_fixed_array_formatter_and_direct_print_v0() {
    let three = || t_array(Type::I32, 3);
    let rendered = render(vec![main_returning(
        vec![(0, "values", three())],
        vec![
            let_(0, "values", three(), array(vec![num(1), num(2), num(3)])),
            eval(call("println", vec![var(0, "values")])),
        ],
        call("string_len", vec![call("to_string", vec![var(0, "values")])]),
    )]);

    assert!(rendered.contains("extractvalue [3 x i32]"));
    assert!(rendered.contains("call ptr @ax_i32_to_string(i32"));
    assert!(rendered.contains("call ptr @ax_string_concat(ptr"));
    assert!(rendered.contains("call i32 (ptr, ...) @printf(ptr @.ax_fmt_str, ptr %"));
}

#[test]
fn renders_slice_formatter_and_direct_print_v0() {
    let four = || t_array(Type::I32, 4);
    let rendered = render(vec![main_returning(
        vec![(0, "values", four()), (1, "middle", t_slice(Type::I32))],
        vec![
            let_(0, "values", four(), array(vec![num(1), num(2), num(3), num(4)])),
            let_(1, "middle", t_slice(Type::I32), range(var(0, "values"), num(1), num(4))),
            eval(call("println", vec![var(1, "middle")])),
            eval(call("println", vec![range(var(0, "values"), num(0), num(2))])),
        ],
        call("string_len", vec![call("to_string", vec![var(1, "middle")])]),
    )]);

    assert!(rendered.contains("slice_to_string_loop"));
    assert!(rendered.contains("slice_to_string_separator"));
    assert!(rendered.contains("getelementptr i32, ptr"));
    assert!(rendered.contains("call ptr @ax_string_concat(ptr"));
    assert!(rendered.contains("call i32 (ptr, ...) @printf(ptr @.ax_fmt_str, ptr %"));
}

#[test]
fn renders_for_in_over_fixed_arrays_with_read_only_slice_v0() {
    let three = || t_array(Type::I32, 3);
    let mut blocks = vec![bb(
        0,
        vec![
            let_(0, "values", three(), array(vec![num(2), num(4), num(6)])),
            let_(1, "total", Type::I32, num(0)),
        ],
        goto(1),
    )];
    blocks.extend(for_each(
        1,
        2,
        3,
        (4, "value", Type::I32),
        var(0, "values"),
        vec![assign(place(1, "total"), add(var(1, "total"), var(4, "value")))],
    ));
    blocks.push(bb(4, vec![], ret(var(1, "total"))));
    let rendered = render(vec![func(
        "main",
        vec![],
        Type::I32,
        vec![
            (0, "values", three()),
            (1, "total", Type::I32),
            (2, "__items", t_slice(Type::I32)),
            (3, "__index", Type::I32),
            (4, "value", Type::I32),
        ],
        blocks,
    )]);

    assert!(rendered.contains("insertvalue { ptr, i32 } undef"));
    assert!(rendered.contains("extractvalue { ptr, i32 }"));
    assert!(rendered.contains("getelementptr i32, ptr"));
    assert!(rendered.contains("ret i32 %"));
}

#[test]
fn renders_for_in_over_slice_ranges_with_read_only_slice_v0() {
    let five = || t_array(Type::I32, 5);
    let mut blocks = vec![bb(
        0,
        vec![
            let_(0, "values", five(), array(vec![num(1), num(2), num(3), num(4), num(5)])),
            let_(1, "total", Type::I32, num(0)),
        ],
        goto(1),
    )];
    blocks.extend(for_each(
        1,
        2,
        3,
        (4, "value", Type::I32),
        range(var(0, "values"), num(1), num(4)),
        vec![assign(place(1, "total"), add(var(1, "total"), var(4, "value")))],
    ));
    blocks.push(bb(4, vec![], ret(var(1, "total"))));
    let rendered = render(vec![func(
        "main",
        vec![],
        Type::I32,
        vec![
            (0, "values", five()),
            (1, "total", Type::I32),
            (2, "__items", t_slice(Type::I32)),
            (3, "__index", Type::I32),
            (4, "value", Type::I32),
        ],
        blocks,
    )]);

    assert!(rendered.contains("slice_order_invalid"));
    assert!(rendered.contains("sub i32"));
    assert!(rendered.contains("extractvalue { ptr, i32 }"));
    assert!(rendered.contains("getelementptr i32, ptr"));
    assert!(rendered.contains("ret i32 %"));
}

#[test]
fn renders_slice_range_reads_with_read_only_slice_v0() {
    let five = || t_array(Type::I32, 5);
    let middle = || var(1, "middle");
    let rendered = render(vec![
        func(
            "sum_pair",
            vec![(0, "values", t_slice(Type::I32))],
            Type::I32,
            vec![],
            vec![bb(
                0,
                vec![],
                ret(add(index(var(0, "values"), num(0)), index(var(0, "values"), num(1)))),
            )],
        ),
        main_returning(
            vec![(0, "values", five()), (1, "middle", t_slice(Type::I32))],
            vec![
                let_(0, "values", five(), array(vec![num(1), num(2), num(3), num(4), num(5)])),
                let_(1, "middle", t_slice(Type::I32), range(var(0, "values"), num(1), num(4))),
            ],
            add(
                add(
                    add(
                        add(call("len", vec![middle()]), index(middle(), num(0))),
                        index(middle(), num(2)),
                    ),
                    call("sum_pair", vec![range(var(0, "values"), num(2), num(4))]),
                ),
                call("sum_pair", vec![var(0, "values")]),
            ),
        ),
    ]);

    assert!(rendered.contains("define i32 @ax_sum_pair({ ptr, i32 } %arg0)"));
    assert!(rendered.contains("icmp sgt i32"));
    assert!(rendered.contains("slice_order_invalid"));
    assert!(rendered.contains("sub i32"));
    assert!(rendered.contains("call i32 @ax_sum_pair({ ptr, i32 }"));
    assert!(rendered.contains("ret i32 %"));
}

#[test]
fn renders_mutable_slice_element_assignment_v0() {
    let three = || t_array(Type::I32, 3);
    let rendered = render(vec![main_returning(
        vec![(0, "values", three()), (1, "view", t_slice(Type::I32))],
        vec![
            let_(0, "values", three(), array(vec![num(1), num(2), num(3)])),
            let_(1, "view", t_slice(Type::I32), range(var(0, "values"), num(0), num(2))),
            assign(place_index(place(1, "view"), num(0)), num(9)),
        ],
        add(index(var(0, "values"), num(0)), index(var(1, "view"), num(0))),
    )]);

    assert!(rendered.contains("call ptr @malloc(i64"));
    assert!(rendered.contains("call ptr @memcpy(ptr"));
    assert!(rendered.contains("store i32 9, ptr"));
    assert!(rendered.contains("extractvalue { ptr, i32 }"));
    assert!(rendered.contains("ret i32 %"));
}

#[test]
fn renders_f32_composites_v0() {
    let three = || t_array(Type::F32, 3);
    let reading = || t_struct("Reading");
    let total = 10;
    let mut sum_blocks = vec![bb(0, vec![let_(1, "total", Type::F32, flt(0.0))], goto(1))];
    sum_blocks.extend(for_each(
        1,
        2,
        3,
        (4, "value", Type::F32),
        var(0, "values"),
        vec![assign(place(1, "total"), add(var(1, "total"), var(4, "value")))],
    ));
    sum_blocks.push(bb(4, vec![], ret(var(1, "total"))));
    let mut blocks = vec![bb(
        0,
        vec![
            let_(0, "values", three(), array(vec![flt(1.5), flt(2.5), flt(3.5)])),
            let_(1, "same", three(), array(vec![flt(1.5), flt(2.5), flt(3.5)])),
            let_(2, "other", three(), array(vec![flt(1.5), flt(2.5), flt(4.5)])),
            let_(3, "left", t_slice(Type::F32), range(var(0, "values"), num(1), num(3))),
            let_(4, "same_slice", t_slice(Type::F32), range(var(1, "same"), num(1), num(3))),
            let_(5, "other_slice", t_slice(Type::F32), range(var(2, "other"), num(1), num(3))),
            let_(
                6,
                "reading",
                reading(),
                struct_lit(
                    "Reading",
                    vec![
                        ("label", text("ok")),
                        ("value", mul(index(var(0, "values"), num(1)), konst("SCALE"))),
                    ],
                ),
            ),
            let_(
                7,
                "same_reading",
                reading(),
                struct_lit("Reading", vec![("label", text("ok")), ("value", flt(5.0))]),
            ),
            let_(
                8,
                "other_reading",
                reading(),
                struct_lit(
                    "Reading",
                    vec![
                        ("label", text("ok")),
                        ("value", mul(index(var(0, "values"), num(2)), konst("SCALE"))),
                    ],
                ),
            ),
            let_(total, "total", Type::I32, num(0)),
        ],
        goto(1),
    )];
    blocks.extend(add_if(1, eq(var(0, "values"), var(1, "same")), total, 1));
    blocks.extend(add_if(3, ne(var(0, "values"), var(2, "other")), total, 2));
    blocks.extend(add_if(5, eq(var(3, "left"), var(4, "same_slice")), total, 4));
    blocks.extend(add_if(7, ne(var(3, "left"), var(5, "other_slice")), total, 8));
    blocks.extend(add_if(9, eq(var(6, "reading"), var(7, "same_reading")), total, 16));
    blocks.extend(add_if(11, ne(var(6, "reading"), var(8, "other_reading")), total, 32));
    blocks.extend(add_if(13, eq(call("slice_sum", vec![var(0, "values")]), flt(7.5)), total, 64));
    blocks.extend(add_if(
        15,
        gt(call("string_len", vec![call("to_string", vec![var(6, "reading")])]), num(0)),
        total,
        128,
    ));
    blocks.push(bb(
        17,
        vec![
            eval(call("println", vec![var(0, "values")])),
            eval(call("println", vec![var(3, "left")])),
            eval(call("println", vec![var(6, "reading")])),
            eval(call("println", vec![call("slice_sum", vec![var(3, "left")])])),
        ],
        ret(var(total, "total")),
    ));
    let rendered = render(vec![
        constant("SCALE", Type::F32, flt(2.0)),
        structure("Reading", vec![], vec![("label", Type::String), ("value", Type::F32)]),
        func(
            "slice_sum",
            vec![(0, "values", t_slice(Type::F32))],
            Type::F32,
            vec![
                (1, "total", Type::F32),
                (2, "__items", t_slice(Type::F32)),
                (3, "__index", Type::I32),
                (4, "value", Type::F32),
            ],
            sum_blocks,
        ),
        func(
            "main",
            vec![],
            Type::I32,
            vec![
                (0, "values", three()),
                (1, "same", three()),
                (2, "other", three()),
                (3, "left", t_slice(Type::F32)),
                (4, "same_slice", t_slice(Type::F32)),
                (5, "other_slice", t_slice(Type::F32)),
                (6, "reading", reading()),
                (7, "same_reading", reading()),
                (8, "other_reading", reading()),
                (total, "total", Type::I32),
            ],
            blocks,
        ),
    ]);

    assert!(rendered.contains("define float @ax_slice_sum({ ptr, i32 } %arg0)"));
    assert!(rendered.contains("[3 x float]"));
    assert!(rendered.contains("%ax_struct_Reading = type { ptr, float }"));
    assert!(rendered.contains("getelementptr float"));
    assert!(rendered.contains("fadd float"));
    assert!(rendered.contains("fcmp oeq float"));
    assert!(rendered.contains("slice_eq_loop"));
    assert!(rendered.contains("call ptr @ax_f32_to_string(float"));
}

fn point() -> Item {
    structure("Point", vec![], vec![("x", Type::I32), ("y", Type::I32)])
}

#[test]
fn renders_struct_literals_params_returns_and_field_reads() {
    let p = || var(0, "point");
    let rendered = render(vec![
        point(),
        func(
            "shift",
            vec![(0, "point", t_struct("Point")), (1, "delta", Type::I32)],
            t_struct("Point"),
            vec![],
            vec![bb(
                0,
                vec![],
                ret(struct_lit(
                    "Point",
                    vec![
                        ("x", add(field(p(), "x"), var(1, "delta"))),
                        ("y", add(field(p(), "y"), var(1, "delta"))),
                    ],
                )),
            )],
        ),
        main_returning(
            vec![(0, "point", t_struct("Point"))],
            vec![let_(
                0,
                "point",
                t_struct("Point"),
                call(
                    "shift",
                    vec![struct_lit("Point", vec![("y", num(5)), ("x", num(2))]), num(3)],
                ),
            )],
            add(field(p(), "x"), field(p(), "y")),
        ),
    ]);

    assert!(rendered.contains("%ax_struct_Point = type { i32, i32 }"));
    assert!(
        rendered.contains("define %ax_struct_Point @ax_shift(%ax_struct_Point %arg0, i32 %arg1)")
    );
    assert!(rendered.contains("insertvalue %ax_struct_Point undef, i32 2, 0"));
    assert!(rendered.contains("insertvalue %ax_struct_Point %t"));
    assert!(rendered.contains("getelementptr %ax_struct_Point, ptr %local"));
    assert!(rendered.contains("ret %ax_struct_Point"));
    assert!(rendered.contains("= call %ax_struct_Point @ax_shift(%ax_struct_Point %t"));
}

#[test]
fn renders_struct_field_assignments() {
    let rendered = render(vec![
        point(),
        main_returning(
            vec![(0, "point", t_struct("Point"))],
            vec![
                let_(
                    0,
                    "point",
                    t_struct("Point"),
                    struct_lit("Point", vec![("x", num(2)), ("y", num(5))]),
                ),
                assign(
                    place_field(place(0, "point"), "y"),
                    add(field(var(0, "point"), "x"), num(10)),
                ),
            ],
            field(var(0, "point"), "y"),
        ),
    ]);

    assert!(rendered.contains("%ax_struct_Point = type { i32, i32 }"));
    assert!(rendered.contains("getelementptr %ax_struct_Point, ptr %local"));
    assert!(rendered.contains("store i32 %t"));
    assert!(rendered.contains("ret i32 %t"));
}

#[test]
fn renders_struct_formatter_and_direct_print_v0() {
    let summary = || t_struct("Summary");
    let rendered = render(vec![
        structure(
            "Summary",
            vec![],
            vec![("count", Type::I32), ("ready", Type::Bool), ("label", Type::String)],
        ),
        main_returning(
            vec![(0, "summary", summary())],
            vec![
                let_(
                    0,
                    "summary",
                    summary(),
                    struct_lit(
                        "Summary",
                        vec![("ready", boolean(true)), ("label", text("ok")), ("count", num(3))],
                    ),
                ),
                eval(call("println", vec![var(0, "summary")])),
            ],
            call("string_len", vec![call("to_string", vec![var(0, "summary")])]),
        ),
    ]);

    assert!(rendered.contains("%ax_struct_Summary = type { i32, i1, ptr }"));
    assert!(rendered.contains("c\"Summary { \\00\""));
    assert!(rendered.contains("c\"count: \\00\""));
    assert!(rendered.contains("c\"label: \\00\""));
    assert!(rendered.contains("c\"ready: \\00\""));
    assert!(rendered.contains("extractvalue %ax_struct_Summary"));
    assert!(rendered.contains("call ptr @ax_string_concat(ptr"));
    assert!(rendered.contains("call i32 (ptr, ...) @printf(ptr @.ax_fmt_str, ptr %"));
}

fn flag_enum() -> Item {
    enumeration("Flag", vec![], vec![("Off", None), ("On", None)])
}

#[test]
fn renders_unit_enum_values_params_returns_and_comparisons() {
    let flag = || t_enum("Flag");
    let rendered = render(vec![
        flag_enum(),
        func(
            "choose",
            vec![(0, "flag", flag())],
            flag(),
            vec![],
            vec![bb(0, vec![], ret(var(0, "flag")))],
        ),
        func(
            "score",
            vec![(0, "flag", flag())],
            Type::I32,
            vec![],
            vec![
                bb(0, vec![], branch(eq(var(0, "flag"), variant("Flag", "On", None)), 1, 2)),
                bb(1, vec![], ret(num(9))),
                bb(2, vec![], ret(num(2))),
            ],
        ),
        main_returning(
            vec![(0, "flag", flag())],
            vec![let_(0, "flag", flag(), call("choose", vec![variant("Flag", "On", None)]))],
            call("score", vec![var(0, "flag")]),
        ),
    ]);

    assert!(rendered.contains("define i32 @ax_choose(i32 %arg0)"));
    assert!(rendered.contains("ret i32 %t"));
    assert!(rendered.contains("call i32 @ax_choose(i32 1)"));
    assert!(rendered.contains("store i32 %t"));
    assert!(rendered.contains("icmp eq i32 %t"));
    assert!(rendered.contains("call i32 @ax_score(i32 %t"));
}

#[test]
fn renders_unit_enum_match_statement_tests() {
    let flag = || var(0, "flag");
    let rendered = render(vec![
        flag_enum(),
        func(
            "score",
            vec![(0, "flag", t_enum("Flag"))],
            Type::I32,
            vec![],
            vec![
                bb(0, vec![], branch(test_pattern(flag(), p_unit("Flag", "On")), 1, 2)),
                bb(1, vec![], ret(num(9))),
                bb(2, vec![], branch(test_pattern(flag(), p_unit("Flag", "Off")), 3, 4)),
                bb(3, vec![], ret(num(2))),
                bb(4, vec![], Terminator::Unreachable),
            ],
        ),
        main_returning(vec![], vec![], call("score", vec![variant("Flag", "On", None)])),
    ]);

    assert!(rendered.contains("define i32 @ax_score(i32 %arg0)"));
    assert!(rendered.contains("icmp eq i32 %t"));
    assert!(rendered.contains("br i1 %t"));
    assert!(rendered.contains("ret i32 9"));
    assert!(rendered.contains("ret i32 2"));
}

fn maybe_enum() -> Item {
    enumeration("Maybe", vec![], vec![("None", None), ("Some", Some(Type::I32))])
}

#[test]
fn renders_payload_enum_constructors_payload_reads_and_match_tests() {
    let value = || var(0, "value");
    let maybe = || t_enum("Maybe");
    let rendered = render(vec![
        maybe_enum(),
        func(
            "score",
            vec![(0, "value", maybe())],
            Type::I32,
            vec![(1, "number", Type::I32)],
            vec![
                bb(
                    0,
                    vec![],
                    branch(test_pattern(value(), p_bind("Maybe", "Some", "number", Type::I32)), 1, 2),
                ),
                bb(1, vec![let_(1, "number", Type::I32, payload(value()))], ret(var(1, "number"))),
                bb(2, vec![], branch(test_pattern(value(), p_unit("Maybe", "None")), 3, 4)),
                bb(3, vec![], ret(num(0))),
                bb(4, vec![], Terminator::Unreachable),
            ],
        ),
        main_returning(
            vec![(0, "value", maybe())],
            vec![let_(0, "value", maybe(), variant("Maybe", "Some", Some(num(7))))],
            call("score", vec![value()]),
        ),
    ]);

    assert!(rendered.contains("%ax_enum_Maybe = type { i32, ptr }"));
    assert!(rendered.contains("define i32 @ax_score(%ax_enum_Maybe %arg0)"));
    assert!(rendered.contains("call ptr @malloc(i64 4)"));
    assert!(rendered.contains("store i32 7, ptr %t"));
    assert!(rendered.contains("insertvalue %ax_enum_Maybe undef, i32 1, 0"));
    assert!(rendered.contains("extractvalue %ax_enum_Maybe %t"));
    assert!(rendered.contains("load i32, ptr %t"));
    assert!(rendered.contains("call i32 @ax_score(%ax_enum_Maybe %t"));
}

#[test]
fn renders_match_expression_with_payload_binding_and_block_arm() {
    let rendered = render(vec![
        maybe_enum(),
        func(
            "score",
            vec![(0, "value", t_enum("Maybe"))],
            Type::I32,
            vec![(1, "number", Type::I32), (2, "bonus", Type::I32)],
            vec![bb(
                0,
                vec![],
                ret(match_expr(
                    var(0, "value"),
                    vec![
                        arm(
                            p_bind("Maybe", "Some", "number", Type::I32),
                            None,
                            block(
                                vec![let_(2, "bonus", Type::I32, num(1))],
                                add(var(1, "number"), var(2, "bonus")),
                            ),
                        ),
                        arm(p_unit("Maybe", "None"), None, num(0)),
                    ],
                )),
            )],
        ),
        main_returning(
            vec![],
            vec![],
            call("score", vec![variant("Maybe", "Some", Some(num(7)))]),
        ),
    ]);

    assert!(rendered.contains("match_arm_"));
    assert!(rendered.contains("match_done_"));
    assert!(rendered.contains("alloca i32"));
    assert!(rendered.contains("extractvalue %ax_enum_Maybe"));
    assert!(rendered.contains("store i32"));
    assert!(rendered.contains("load i32"));
}

#[test]
fn renders_i32_range_match_patterns() {
    let rendered = render(vec![
        func(
            "classify",
            vec![(0, "status", Type::I32)],
            Type::I32,
            vec![],
            vec![bb(
                0,
                vec![],
                ret(match_expr(
                    var(0, "status"),
                    vec![
                        arm(p_range(200, 299), None, num(2)),
                        arm(p_range(400, 499), None, num(4)),
                        arm(p_wild(), None, num(0)),
                    ],
                )),
            )],
        ),
        main_returning(vec![], vec![], call("classify", vec![num(204)])),
    ]);

    assert!(rendered.contains("icmp sge i32"));
    assert!(rendered.contains("icmp sle i32"));
    assert!(rendered.contains("and i1"));
    assert!(rendered.contains("ret i32 %"));
}

#[test]
fn renders_or_match_patterns() {
    let rendered = render(vec![
        enumeration("Mode", vec![], vec![("Check", None), ("Run", None), ("Build", None)]),
        func(
            "score",
            vec![(0, "mode", t_enum("Mode"))],
            Type::I32,
            vec![],
            vec![bb(
                0,
                vec![],
                ret(match_expr(
                    var(0, "mode"),
                    vec![
                        arm(p_or(vec![p_unit("Mode", "Check"), p_unit("Mode", "Run")]), None, num(1)),
                        arm(p_unit("Mode", "Build"), None, num(2)),
                    ],
                )),
            )],
        ),
        main_returning(vec![], vec![], call("score", vec![variant("Mode", "Check", None)])),
    ]);

    assert!(rendered.contains("icmp eq i32"));
    assert!(rendered.contains("or i1"));
    assert!(rendered.contains("ret i32 %"));
}

#[test]
fn renders_guarded_match_arms() {
    let rendered = render(vec![
        enumeration("Token", vec![], vec![("Number", Some(Type::I32)), ("End", None)]),
        func(
            "score",
            vec![(0, "token", t_enum("Token"))],
            Type::I32,
            vec![(1, "value", Type::I32)],
            vec![bb(
                0,
                vec![],
                ret(match_expr(
                    var(0, "token"),
                    vec![
                        arm(
                            p_bind("Token", "Number", "value", Type::I32),
                            Some(gt(var(1, "value"), num(9))),
                            var(1, "value"),
                        ),
                        arm(p_ignore("Token", "Number", Type::I32), None, num(1)),
                        arm(p_unit("Token", "End"), None, num(0)),
                    ],
                )),
            )],
        ),
        main_returning(
            vec![],
            vec![],
            call("score", vec![variant("Token", "Number", Some(num(12)))]),
        ),
    ]);

    assert!(rendered.contains("match_guard_"));
    assert!(rendered.contains("icmp sgt i32"));
    assert!(rendered.contains("ret i32 %"));
}

#[test]
fn renders_payload_enum_equality() {
    let status = || t_enum("Status");
    let total = 6;
    let mut blocks = vec![bb(
        0,
        vec![
            let_(0, "code", status(), variant("Status", "Code", Some(num(7)))),
            let_(1, "same_code", status(), variant("Status", "Code", Some(num(7)))),
            let_(2, "other_code", status(), variant("Status", "Code", Some(num(8)))),
            let_(3, "label", status(), variant("Status", "Label", Some(text("ok")))),
            let_(4, "same_label", status(), variant("Status", "Label", Some(text("ok")))),
            let_(5, "other_label", status(), variant("Status", "Label", Some(text("bad")))),
            let_(total, "total", Type::I32, num(0)),
        ],
        goto(1),
    )];
    blocks.extend(add_if(1, eq(var(0, "code"), var(1, "same_code")), total, 1));
    blocks.extend(add_if(3, ne(var(0, "code"), var(2, "other_code")), total, 2));
    blocks.extend(add_if(5, eq(var(3, "label"), var(4, "same_label")), total, 4));
    blocks.extend(add_if(7, ne(var(3, "label"), var(5, "other_label")), total, 8));
    blocks.extend(add_if(
        9,
        eq(variant("Status", "Done", None), variant("Status", "Done", None)),
        total,
        16,
    ));
    blocks.extend(add_if(11, ne(var(0, "code"), variant("Status", "Done", None)), total, 32));
    blocks.push(bb(13, vec![], ret(var(total, "total"))));
    let rendered = render(vec![
        enumeration(
            "Status",
            vec![],
            vec![("Code", Some(Type::I32)), ("Label", Some(Type::String)), ("Done", None)],
        ),
        func(
            "score",
            vec![],
            Type::I32,
            vec![
                (0, "code", status()),
                (1, "same_code", status()),
                (2, "other_code", status()),
                (3, "label", status()),
                (4, "same_label", status()),
                (5, "other_label", status()),
                (total, "total", Type::I32),
            ],
            blocks,
        ),
        main_returning(vec![], vec![], call("score", vec![])),
    ]);

    assert!(rendered.contains("enum_eq_tags_match"));
    assert!(rendered.contains("call i32 @strcmp(ptr"));
    assert!(rendered.contains("ret i32 %"));
}

#[test]
fn renders_fixed_array_equality_v0() {
    let ints = || t_array(Type::I32, 3);
    let names = || t_array(Type::String, 2);
    let total = 6;
    let mut blocks = vec![bb(
        0,
        vec![
            let_(0, "left", ints(), array(vec![num(1), num(2), num(3)])),
            let_(1, "same", ints(), array(vec![num(1), num(2), num(3)])),
            let_(2, "other", ints(), array(vec![num(1), num(2), num(4)])),
            let_(3, "names", names(), array(vec![text("ax"), text("lang")])),
            let_(4, "same_names", names(), array(vec![text("ax"), text("lang")])),
            let_(5, "other_names", names(), array(vec![text("ax"), text("tool")])),
            let_(total, "total", Type::I32, num(0)),
        ],
        goto(1),
    )];
    blocks.extend(add_if(1, eq(var(0, "left"), var(1, "same")), total, 1));
    blocks.extend(add_if(3, ne(var(0, "left"), var(2, "other")), total, 2));
    blocks.extend(add_if(5, eq(var(3, "names"), var(4, "same_names")), total, 4));
    blocks.extend(add_if(7, ne(var(3, "names"), var(5, "other_names")), total, 8));
    blocks.push(bb(9, vec![], ret(var(total, "total"))));
    let rendered = render(vec![func(
        "main",
        vec![],
        Type::I32,
        vec![
            (0, "left", ints()),
            (1, "same", ints()),
            (2, "other", ints()),
            (3, "names", names()),
            (4, "same_names", names()),
            (5, "other_names", names()),
            (total, "total", Type::I32),
        ],
        blocks,
    )]);

    assert!(rendered.contains("extractvalue [3 x i32]"));
    assert!(rendered.contains("extractvalue [2 x ptr]"));
    assert!(rendered.contains("call i32 @strcmp(ptr"));
    assert!(rendered.contains("and i1"));
    assert!(rendered.contains("or i1"));
}

#[test]
fn renders_struct_and_enum_struct_payload_equality_v0() {
    let summary = || t_struct("Summary");
    let packet = || t_enum("Packet");
    let total = 6;
    let lit = |count: i64| struct_lit("Summary", vec![("count", num(count)), ("label", text("ok"))]);
    let mut blocks = vec![bb(
        0,
        vec![
            let_(0, "left", summary(), lit(3)),
            let_(1, "same", summary(), lit(3)),
            let_(2, "other", summary(), lit(4)),
            let_(3, "packet", packet(), variant("Packet", "Summary", Some(var(0, "left")))),
            let_(4, "same_packet", packet(), variant("Packet", "Summary", Some(var(1, "same")))),
            let_(5, "other_packet", packet(), variant("Packet", "Summary", Some(var(2, "other")))),
            let_(total, "total", Type::I32, num(0)),
        ],
        goto(1),
    )];
    blocks.extend(add_if(1, eq(var(0, "left"), var(1, "same")), total, 1));
    blocks.extend(add_if(3, ne(var(0, "left"), var(2, "other")), total, 2));
    blocks.extend(add_if(5, eq(var(3, "packet"), var(4, "same_packet")), total, 4));
    blocks.extend(add_if(7, ne(var(3, "packet"), var(5, "other_packet")), total, 8));
    blocks.push(bb(9, vec![], ret(var(total, "total"))));
    let rendered = render(vec![
        structure("Summary", vec![], vec![("count", Type::I32), ("label", Type::String)]),
        enumeration("Packet", vec![], vec![("Summary", Some(summary())), ("Empty", None)]),
        func(
            "main",
            vec![],
            Type::I32,
            vec![
                (0, "left", summary()),
                (1, "same", summary()),
                (2, "other", summary()),
                (3, "packet", packet()),
                (4, "same_packet", packet()),
                (5, "other_packet", packet()),
                (total, "total", Type::I32),
            ],
            blocks,
        ),
    ]);

    assert!(rendered.contains("extractvalue %ax_struct_Summary"));
    assert!(rendered.contains("call i32 @strcmp(ptr"));
    assert!(rendered.contains("enum_eq_tags_match"));
    assert!(rendered.contains("and i1"));
    assert!(rendered.contains("or i1"));
}

#[test]
fn renders_non_generic_impl_methods_v0() {
    let pt = || t_struct("Point");
    let this = || var(0, "self");
    let rendered = render(vec![
        point(),
        func(
            "Point.make",
            vec![(0, "x", Type::I32), (1, "y", Type::I32)],
            pt(),
            vec![],
            vec![bb(
                0,
                vec![],
                ret(struct_lit("Point", vec![("x", var(0, "x")), ("y", var(1, "y"))])),
            )],
        ),
        func(
            "Point.sum",
            vec![(0, "self", pt())],
            Type::I32,
            vec![],
            vec![bb(0, vec![], ret(add(field(this(), "x"), field(this(), "y"))))],
        ),
        func(
            "Point.offset_sum",
            vec![(0, "self", pt()), (1, "delta", Type::I32)],
            Type::I32,
            vec![],
            vec![bb(0, vec![], ret(add(method("sum", vec![this()]), var(1, "delta"))))],
        ),
        main_returning(
            vec![(0, "point", pt())],
            vec![
                let_(0, "point", pt(), call("Point.make", vec![num(4), num(5)])),
                eval(call("println", vec![method("sum", vec![var(0, "point")])])),
            ],
            method("offset_sum", vec![var(0, "point"), num(3)]),
        ),
    ]);

    assert!(rendered.contains("define %ax_struct_Point @ax_Point_make(i32 %arg0, i32 %arg1)"));
    assert!(rendered.contains("define i32 @ax_Point_sum(%ax_struct_Point %arg0)"));
    assert!(
        rendered.contains("define i32 @ax_Point_offset_sum(%ax_struct_Point %arg0, i32 %arg1)")
    );
    assert!(rendered.contains("call %ax_struct_Point @ax_Point_make(i32 4, i32 5)"));
    assert!(rendered.contains("call i32 @ax_Point_sum(%ax_struct_Point"));
    assert!(rendered.contains("call i32 @ax_Point_offset_sum(%ax_struct_Point"));
}

fn box_struct() -> Item {
    structure("Box", vec!["T"], vec![("value", t_param("T"))])
}

#[test]
fn renders_generic_struct_instances_v0() {
    let boxed = || t_struct_of("Box", vec![Type::I32]);
    let rendered = render(vec![
        box_struct(),
        main_returning(
            vec![(0, "number", boxed())],
            vec![
                let_(0, "number", boxed(), struct_lit("Box", vec![("value", num(7))])),
                assign(
                    place_field(place(0, "number"), "value"),
                    add(field(var(0, "number"), "value"), num(1)),
                ),
            ],
            field(var(0, "number"), "value"),
        ),
    ]);

    assert!(rendered.contains("%ax_struct_Box_i32_ = type { i32 }"));
    assert!(rendered.contains("alloca %ax_struct_Box_i32_"));
    assert!(rendered.contains("getelementptr %ax_struct_Box_i32_"));
    assert!(rendered.contains("ret i32 %"));
}

#[test]
fn renders_generic_impl_methods_v0() {
    let boxed = || t_struct_of("Box", vec![Type::I32]);
    let rendered = render(vec![
        box_struct(),
        generic_func(
            "Box.get",
            vec!["T"],
            vec![],
            vec![(0, "self", t_struct_of("Box", vec![t_param("T")]))],
            t_param("T"),
            vec![],
            vec![bb(0, vec![], ret(field(var(0, "self"), "value")))],
        ),
        main_returning(
            vec![(0, "number", boxed())],
            vec![
                let_(0, "number", boxed(), struct_lit("Box", vec![("value", num(9))])),
                eval(call("println", vec![method("get", vec![var(0, "number")])])),
            ],
            method("get", vec![var(0, "number")]),
        ),
    ]);

    assert!(rendered.contains("%ax_struct_Box_i32_ = type { i32 }"));
    assert!(rendered.contains("define i32 @ax_Box_get_i32_(%ax_struct_Box_i32_ %arg0)"));
    assert!(rendered.contains("call i32 @ax_Box_get_i32_(%ax_struct_Box_i32_"));
}

#[test]
fn renders_generic_method_type_params_v0() {
    let pair = |l: Type, r: Type| t_struct_of("Pair", vec![l, r]);
    let rendered = render(vec![
        structure("Pair", vec!["T", "U"], vec![("left", t_param("T")), ("right", t_param("U"))]),
        generic_func(
            "Pair.replace_right",
            vec!["T", "U"],
            vec![],
            vec![(0, "self", pair(t_param("T"), Type::I32)), (1, "right", t_param("U"))],
            pair(t_param("T"), t_param("U")),
            vec![],
            vec![bb(
                0,
                vec![],
                ret(struct_lit(
                    "Pair",
                    vec![("left", field(var(0, "self"), "left")), ("right", var(1, "right"))],
                )),
            )],
        ),
        main_returning(
            vec![
                (0, "pair", pair(Type::String, Type::I32)),
                (1, "changed", pair(Type::String, Type::String)),
            ],
            vec![
                let_(
                    0,
                    "pair",
                    pair(Type::String, Type::I32),
                    struct_lit("Pair", vec![("left", text("ax")), ("right", num(1))]),
                ),
                let_(
                    1,
                    "changed",
                    pair(Type::String, Type::String),
                    method("replace_right", vec![var(0, "pair"), text("ok")]),
                ),
                eval(call(
                    "println",
                    vec![add(
                        add(field(var(1, "changed"), "left"), text(":")),
                        field(var(1, "changed"), "right"),
                    )],
                )),
            ],
            num(0),
        ),
    ]);

    assert!(rendered.contains("%ax_struct_Pair_string__i32_ = type { ptr, i32 }"));
    assert!(rendered.contains("%ax_struct_Pair_string__string_ = type { ptr, ptr }"));
    assert!(
        rendered.contains(
            "define %ax_struct_Pair_string__string_ @ax_Pair_replace_right_string__string_"
        )
    );
    assert!(
        rendered.contains(
            "call %ax_struct_Pair_string__string_ @ax_Pair_replace_right_string__string_"
        )
    );
}

#[test]
fn renders_generic_functions_v0() {
    let box_of = |t: Type| t_struct_of("Box", vec![t]);
    let rendered = render(vec![
        box_struct(),
        generic_func(
            "identity",
            vec!["T"],
            vec![],
            vec![(0, "value", t_param("T"))],
            t_param("T"),
            vec![],
            vec![bb(0, vec![], ret(var(0, "value")))],
        ),
        generic_func(
            "unwrap_box",
            vec!["T"],
            vec![],
            vec![(0, "box", box_of(t_param("T")))],
            t_param("T"),
            vec![],
            vec![bb(0, vec![], ret(field(var(0, "box"), "value")))],
        ),
        main_returning(
            vec![(0, "number_box", box_of(Type::I32)), (1, "text_box", box_of(Type::String))],
            vec![
                let_(
                    0,
                    "number_box",
                    box_of(Type::I32),
                    struct_lit("Box", vec![("value", call("identity", vec![num(9)]))]),
                ),
                let_(
                    1,
                    "text_box",
                    box_of(Type::String),
                    struct_lit("Box", vec![("value", call("identity", vec![text("ax")]))]),
                ),
                eval(call("println", vec![call("unwrap_box", vec![var(1, "text_box")])])),
                eval(call("println", vec![call("unwrap_box", vec![var(0, "number_box")])])),
            ],
            call("unwrap_box", vec![var(0, "number_box")]),
        ),
    ]);

    assert!(rendered.contains("define i32 @ax_identity_i32_(i32 %arg0)"));
    assert!(rendered.contains("define ptr @ax_identity_string_(ptr %arg0)"));
    assert!(rendered.contains("define i32 @ax_unwrap_box_i32_(%ax_struct_Box_i32_ %arg0)"));
    assert!(rendered.contains("define ptr @ax_unwrap_box_string_(%ax_struct_Box_string_ %arg0)"));
    assert!(rendered.contains("call i32 @ax_identity_i32_(i32 9)"));
    assert!(rendered.contains("call ptr @ax_identity_string_(ptr"));
    assert!(rendered.contains("call i32 @ax_unwrap_box_i32_(%ax_struct_Box_i32_"));
    assert!(rendered.contains("call ptr @ax_unwrap_box_string_(%ax_struct_Box_string_"));
}

#[test]
fn renders_generic_type_aliases_v0() {
    let text_box = || t_struct_of("Box", vec![Type::String]);
    let rendered = render(vec![
        box_struct(),
        func(
            "unwrap_text",
            vec![(0, "boxed", text_box())],
            Type::String,
            vec![],
            vec![bb(0, vec![], ret(field(var(0, "boxed"), "value")))],
        ),
        main_returning(
            vec![(0, "boxed", text_box())],
            vec![
                let_(0, "boxed", text_box(), struct_lit("Box", vec![("value", text("ax"))])),
                eval(call("println", vec![call("unwrap_text", vec![var(0, "boxed")])])),
            ],
            num(0),
        ),
    ]);

    assert!(rendered.contains("%ax_struct_Box_string_ = type { ptr }"));
    assert!(rendered.contains("define ptr @ax_unwrap_text(%ax_struct_Box_string_ %arg0)"));
    assert!(rendered.contains("call ptr @ax_unwrap_text(%ax_struct_Box_string_"));
}

fn command_struct() -> Item {
    structure("Command", vec![], vec![("name", Type::String)])
}

fn command_label() -> Item {
    func(
        "Command.label",
        vec![(0, "self", t_struct("Command"))],
        Type::String,
        vec![],
        vec![bb(0, vec![], ret(field(var(0, "self"), "name")))],
    )
}

fn render_label() -> Item {
    generic_func(
        "render",
        vec!["T"],
        vec![("T", "Label")],
        vec![(0, "value", t_param("T"))],
        Type::String,
        vec![],
        vec![bb(0, vec![], ret(method("label", vec![var(0, "value")])))],
    )
}

#[test]
fn renders_trait_bound_generic_functions_v0() {
    let rendered = render(vec![
        command_struct(),
        command_label(),
        render_label(),
        main_returning(
            vec![(0, "command", t_struct("Command"))],
            vec![
                let_(
                    0,
                    "command",
                    t_struct("Command"),
                    struct_lit("Command", vec![("name", text("build"))]),
                ),
                eval(call("println", vec![call("render", vec![var(0, "command")])])),
            ],
            num(5),
        ),
    ]);

    assert!(rendered.contains("define ptr @ax_render_Command_(%ax_struct_Command %arg0)"));
    assert!(rendered.contains("call ptr @ax_Command_label(%ax_struct_Command"));
    assert!(rendered.contains("call ptr @ax_render_Command_(%ax_struct_Command"));
}

#[test]
fn renders_generic_trait_impl_bound_dispatch_v0() {
    let boxed = || t_struct_of("Box", vec![Type::I32]);
    let rendered = render(vec![
        box_struct(),
        generic_func(
            "Box.label",
            vec!["T"],
            vec![],
            vec![(0, "self", t_struct_of("Box", vec![t_param("T")]))],
            Type::String,
            vec![],
            vec![bb(0, vec![], ret(call("to_string", vec![field(var(0, "self"), "value")])))],
        ),
        render_label(),
        main_returning(
            vec![(0, "number", boxed())],
            vec![
                let_(0, "number", boxed(), struct_lit("Box", vec![("value", num(42))])),
                eval(call("println", vec![call("render", vec![var(0, "number")])])),
            ],
            num(0),
        ),
    ]);

    assert!(rendered.contains("define ptr @ax_Box_label_i32_(%ax_struct_Box_i32_ %arg0)"));
    assert!(rendered.contains("define ptr @ax_render_Box_i32__(%ax_struct_Box_i32_ %arg0)"));
    assert!(rendered.contains("call ptr @ax_Box_label_i32_(%ax_struct_Box_i32_"));
    assert!(rendered.contains("call ptr @ax_render_Box_i32__(%ax_struct_Box_i32_"));
}

#[test]
fn renders_non_generic_trait_impl_methods_v0() {
    let rendered = render(vec![
        command_struct(),
        command_label(),
        main_returning(
            vec![(0, "command", t_struct("Command"))],
            vec![
                let_(
                    0,
                    "command",
                    t_struct("Command"),
                    struct_lit("Command", vec![("name", text("build"))]),
                ),
                eval(call("println", vec![method("label", vec![var(0, "command")])])),
            ],
            call("string_len", vec![method("label", vec![var(0, "command")])]),
        ),
    ]);

    assert!(rendered.contains("define ptr @ax_Command_label(%ax_struct_Command %arg0)"));
    assert!(rendered.contains("call ptr @ax_Command_label(%ax_struct_Command"));
    assert!(rendered.contains("call i32 @ax_string_len(ptr"));
}

#[test]
fn renders_enum_array_payload_equality_v0() {
    let packet = || t_enum("Packet");
    let values = |last: i64| variant("Packet", "Values", Some(array(vec![num(1), num(2), num(last)])));
    let total = 3;
    let mut blocks = vec![bb(
        0,
        vec![
            let_(0, "left", packet(), values(3)),
            let_(1, "same", packet(), values(3)),
            let_(2, "other", packet(), values(4)),
            let_(total, "total", Type::I32, num(0)),
        ],
        goto(1),
    )];
    blocks.extend(add_if(1, eq(var(0, "left"), var(1, "same")), total, 1));
    blocks.extend(add_if(3, ne(var(0, "left"), var(2, "other")), total, 2));
    blocks.extend(add_if(5, ne(var(0, "left"), variant("Packet", "Empty", None)), total, 4));
    blocks.push(bb(7, vec![], ret(var(total, "total"))));
    let rendered = render(vec![
        enumeration(
            "Packet",
            vec![],
            vec![("Values", Some(t_array(Type::I32, 3))), ("Empty", None)],
        ),
        func(
            "main",
            vec![],
            Type::I32,
            vec![
                (0, "left", packet()),
                (1, "same", packet()),
                (2, "other", packet()),
                (total, "total", Type::I32),
            ],
            blocks,
        ),
    ]);

    assert!(rendered.contains("enum_eq_tags_match"));
    assert!(rendered.contains("extractvalue [3 x i32]"));
    assert!(rendered.contains("and i1"));
    assert!(rendered.contains("or i1"));
    assert!(rendered.contains("ret i32 %"));
}

#[test]
fn renders_slice_equality_v0() {
    let four = || t_array(Type::I32, 4);
    let slice = || t_slice(Type::I32);
    let total = 6;
    let mut blocks = vec![bb(
        0,
        vec![
            let_(0, "left", four(), array(vec![num(1), num(2), num(3), num(4)])),
            let_(1, "same", four(), array(vec![num(0), num(2), num(3), num(9)])),
            let_(2, "other", four(), array(vec![num(0), num(2), num(4), num(9)])),
            let_(3, "a", slice(), range(var(0, "left"), num(1), num(3))),
            let_(4, "b", slice(), range(var(1, "same"), num(1), num(3))),
            let_(5, "c", slice(), range(var(2, "other"), num(1), num(3))),
            let_(total, "total", Type::I32, num(0)),
        ],
        goto(1),
    )];
    blocks.extend(add_if(1, eq(var(3, "a"), var(4, "b")), total, 1));
    blocks.extend(add_if(3, ne(var(3, "a"), var(5, "c")), total, 2));
    blocks.push(bb(5, vec![], ret(var(total, "total"))));
    let rendered = render(vec![func(
        "main",
        vec![],
        Type::I32,
        vec![
            (0, "left", four()),
            (1, "same", four()),
            (2, "other", four()),
            (3, "a", slice()),
            (4, "b", slice()),
            (5, "c", slice()),
            (total, "total", Type::I32),
        ],
        blocks,
    )]);

    assert!(rendered.contains("slice_eq_loop"));
    assert!(rendered.contains("extractvalue { ptr, i32 }"));
    assert!(rendered.contains("getelementptr i32"));
    assert!(rendered.contains("and i1"));
    assert!(rendered.contains("or i1"));
}

#[test]
fn renders_enum_slice_payload_equality_v0() {
    let four = || t_array(Type::I32, 4);
    let packet = || t_enum("Packet");
    let window = |id: u32, name: &str| {
        variant("Packet", "Window", Some(range(var(id, name), num(1), num(3))))
    };
    let total = 6;
    let mut blocks = vec![bb(
        0,
        vec![
            let_(0, "left_values", four(), array(vec![num(1), num(2), num(3), num(4)])),
            let_(1, "same_values", four(), array(vec![num(0), num(2), num(3), num(9)])),
            let_(2, "other_values", four(), array(vec![num(0), num(2), num(4), num(9)])),
            let_(3, "left", packet(), window(0, "left_values")),
            let_(4, "same", packet(), window(1, "same_values")),
            let_(5, "other", packet(), window(2, "other_values")),
            let_(total, "total", Type::I32, num(0)),
        ],
        goto(1),
    )];
    blocks.extend(add_if(1, eq(var(3, "left"), var(4, "same")), total, 1));
    blocks.extend(add_if(3, ne(var(3, "left"), var(5, "other")), total, 2));
    blocks.extend(add_if(5, ne(var(3, "left"), variant("Packet", "Empty", None)), total, 4));
    blocks.push(bb(7, vec![], ret(var(total, "total"))));
    let rendered = render(vec![
        enumeration("Packet", vec![], vec![("Window", Some(t_slice(Type::I32))), ("Empty", None)]),
        func(
            "main",
            vec![],
            Type::I32,
            vec![
                (0, "left_values", four()),
                (1, "same_values", four()),
                (2, "other_values", four()),
                (3, "left", packet()),
                (4, "same", packet()),
                (5, "other", packet()),
                (total, "total", Type::I32),
            ],
            blocks,
        ),
    ]);

    assert!(rendered.contains("enum_eq_tags_match"));
    assert!(rendered.contains("slice_eq_loop"));
    assert!(rendered.contains("extractvalue { ptr, i32 }"));
    assert!(rendered.contains("getelementptr i32"));
    assert!(rendered.contains("ret i32 %"));
}

#[test]
fn renders_enum_f32_payload_v0() {
    let metric = || t_enum("Metric");
    let three = || t_array(Type::F32, 3);
    let m = || var(0, "metric");
    let result = 1;
    let classify = func(
        "classify",
        vec![(0, "metric", metric())],
        Type::I32,
        vec![
            (result, "result", Type::I32),
            (2, "number", Type::F32),
            (3, "values", three()),
            (4, "window", t_slice(Type::F32)),
        ],
        vec![
            bb(0, vec![let_(result, "result", Type::I32, num(0))], goto(1)),
            bb(
                1,
                vec![],
                branch(test_pattern(m(), p_bind("Metric", "Value", "number", Type::F32)), 2, 5),
            ),
            bb(
                2,
                vec![let_(2, "number", Type::F32, payload(m()))],
                branch(eq(mul(var(2, "number"), konst("SCALE")), flt(5.0)), 3, 4),
            ),
            bb(3, vec![assign(place(result, "result"), num(5))], goto(4)),
            bb(4, vec![], goto(11)),
            bb(
                5,
                vec![],
                branch(test_pattern(m(), p_bind("Metric", "Series", "values", three())), 6, 7),
            ),
            bb(
                6,
                vec![
                    let_(3, "values", three(), payload(m())),
                    assign(place(result, "result"), call("len", vec![var(3, "values")])),
                ],
                goto(11),
            ),
            bb(
                7,
                vec![],
                branch(
                    test_pattern(m(), p_bind("Metric", "Window", "window", t_slice(Type::F32))),
                    8,
                    9,
                ),
            ),
            bb(
                8,
                vec![
                    let_(4, "window", t_slice(Type::F32), payload(m())),
                    assign(place(result, "result"), call("len", vec![var(4, "window")])),
                ],
                goto(11),
            ),
            bb(9, vec![], branch(test_pattern(m(), p_unit("Metric", "Empty")), 10, 11)),
            bb(10, vec![assign(place(result, "result"), num(0))], goto(11)),
            bb(11, vec![], ret(var(result, "result"))),
        ],
    );
    let value = |v: f32| variant("Metric", "Value", Some(flt(v)));
    let series =
        |last: f32| variant("Metric", "Series", Some(array(vec![flt(1.5), flt(2.5), flt(last)])));
    let window = |id: u32, name: &str| {
        variant("Metric", "Window", Some(range(var(id, name), num(1), num(3))))
    };
    let total = 11;
    let mut blocks = vec![bb(
        0,
        vec![
            let_(0, "value", metric(), value(2.5)),
            let_(1, "same_value", metric(), value(2.5)),
            let_(2, "other_value", metric(), value(3.5)),
            let_(3, "series", metric(), series(3.5)),
            let_(4, "same_series", metric(), series(3.5)),
            let_(5, "other_series", metric(), series(4.5)),
            let_(6, "base", three(), array(vec![flt(1.5), flt(2.5), flt(3.5)])),
            let_(7, "other_base", three(), array(vec![flt(1.5), flt(2.5), flt(4.5)])),
            let_(8, "window", metric(), window(6, "base")),
            let_(9, "same_window", metric(), window(6, "base")),
            let_(10, "other_window", metric(), window(7, "other_base")),
            let_(total, "total", Type::I32, num(0)),
        ],
        goto(1),
    )];
    blocks.extend(add_if(1, eq(var(0, "value"), var(1, "same_value")), total, 1));
    blocks.extend(add_if(3, ne(var(0, "value"), var(2, "other_value")), total, 2));
    blocks.extend(add_if(5, eq(var(3, "series"), var(4, "same_series")), total, 4));
    blocks.extend(add_if(7, ne(var(3, "series"), var(5, "other_series")), total, 8));
    blocks.extend(add_if(9, eq(var(8, "window"), var(9, "same_window")), total, 16));
    blocks.extend(add_if(11, ne(var(8, "window"), var(10, "other_window")), total, 32));
    blocks.extend(add_if(13, eq(call("classify", vec![var(0, "value")]), num(5)), total, 64));
    blocks.extend(add_if(15, eq(call("classify", vec![var(3, "series")]), num(3)), total, 128));
    blocks.extend(add_if(17, eq(call("classify", vec![var(8, "window")]), num(2)), total, 256));
    blocks.push(bb(
        19,
        vec![
            eval(call("println", vec![var(0, "value")])),
            eval(call("println", vec![var(3, "series")])),
            eval(call("println", vec![var(8, "window")])),
        ],
        ret(var(total, "total")),
    ));
    let rendered = render(vec![
        constant("SCALE", Type::F32, flt(2.0)),
        enumeration(
            "Metric",
            vec![],
            vec![
                ("Value", Some(Type::F32)),
                ("Series", Some(three())),
                ("Window", Some(t_slice(Type::F32))),
                ("Empty", None),
            ],
        ),
        classify,
        func(
            "main",
            vec![],
            Type::I32,
            vec![
                (0, "value", metric()),
                (1, "same_value", metric()),
                (2, "other_value", metric()),
                (3, "series", metric()),
                (4, "same_series", metric()),
                (5, "other_series", metric()),
                (6, "base", three()),
                (7, "other_base", three()),
                (8, "window", metric()),
                (9, "same_window", metric()),
                (10, "other_window", metric()),
                (total, "total", Type::I32),
            ],
            blocks,
        ),
    ]);

    assert!(rendered.contains("%ax_enum_Metric = type { i32, ptr }"));
    assert!(rendered.contains("call ptr @malloc(i64 4)"));
    assert!(rendered.contains("extractvalue [3 x float]"));
    assert!(rendered.contains("getelementptr float"));
    assert!(rendered.contains("fcmp oeq float"));
    assert!(rendered.contains("slice_eq_loop"));
    assert!(rendered.contains("call ptr @ax_f32_to_string(float"));
    assert!(rendered.contains("call i32 (ptr, ...) @printf(ptr @.ax_fmt_str, ptr %t"));
}

fn status_enum() -> Item {
    enumeration(
        "Status",
        vec![],
        vec![
            ("Code", Some(Type::I32)),
            ("Flag", Some(Type::Bool)),
            ("Label", Some(Type::String)),
            ("Done", None),
        ],
    )
}

fn status_lets() -> (Vec<(u32, &'static str, Type)>, Vec<Statement>) {
    let status = || t_enum("Status");
    (
        vec![(0, "code", status()), (1, "flag", status()), (2, "label", status()), (3, "done", status())],
        vec![
            let_(0, "code", status(), variant("Status", "Code", Some(num(7)))),
            let_(1, "flag", status(), variant("Status", "Flag", Some(boolean(true)))),
            let_(2, "label", status(), variant("Status", "Label", Some(text("ok")))),
            let_(3, "done", status(), variant("Status", "Done", None)),
        ],
    )
}

fn status_len(id: u32, name: &str) -> Expr {
    call("string_len", vec![call("to_string", vec![var(id, name)])])
}

#[test]
fn renders_enum_to_string_formatter_v0() {
    let (lets, mut statements) = status_lets();
    for (id, name) in [(0, "code"), (1, "flag"), (2, "label"), (3, "done")] {
        statements.push(eval(call("println", vec![call("to_string", vec![var(id, name)])])));
    }
    let rendered = render(vec![
        status_enum(),
        main_returning(
            lets,
            statements,
            add(
                add(add(status_len(0, "code"), status_len(1, "flag")), status_len(2, "label")),
                status_len(3, "done"),
            ),
        ),
    ]);

    assert!(rendered.contains("c\"Status.Code\\00\""));
    assert!(rendered.contains("c\"Status.Flag\\00\""));
    assert!(rendered.contains("c\"Status.Label\\00\""));
    assert!(rendered.contains("c\"Status.Done\\00\""));
    assert!(rendered.contains("enum_to_string_done"));
    assert!(rendered.contains("call ptr @ax_i32_to_string(i32"));
    assert!(rendered.contains("select i1 %t"));
    assert!(rendered.contains("call ptr @ax_string_concat(ptr"));
    assert!(rendered.contains("alloca ptr"));
    assert!(rendered.contains("load ptr, ptr"));
}

#[test]
fn renders_direct_enum_println_with_formatter_v0() {
    let (lets, mut statements) = status_lets();
    for (id, name) in [(0, "code"), (1, "flag"), (2, "label"), (3, "done")] {
        statements.push(eval(call("println", vec![var(id, name)])));
    }
    let rendered = render(vec![status_enum(), main_returning(lets, statements, num(58))]);

    assert!(rendered.contains("enum_to_string_done"));
    assert!(rendered.contains("call ptr @ax_i32_to_string(i32"));
    assert!(rendered.contains("select i1 %t"));
    assert!(rendered.contains("call ptr @ax_string_concat(ptr"));
    assert!(rendered.contains("call i32 (ptr, ...) @printf(ptr @.ax_fmt_str, ptr %t"));
}

#[test]
fn renders_enum_array_payload_formatter_v0() {
    let packet = || t_enum("Packet");
    let rendered = render(vec![
        enumeration(
            "Packet",
            vec![],
            vec![("Values", Some(t_array(Type::I32, 3))), ("Empty", None)],
        ),
        main_returning(
            vec![(0, "packet", packet())],
            vec![
                let_(
                    0,
                    "packet",
                    packet(),
                    variant("Packet", "Values", Some(array(vec![num(1), num(2), num(3)]))),
                ),
                eval(call("println", vec![var(0, "packet")])),
            ],
            status_len(0, "packet"),
        ),
    ]);

    assert!(rendered.contains("c\"Packet.Values\\00\""));
    assert!(rendered.contains("extractvalue [3 x i32]"));
    assert!(rendered.contains("call ptr @ax_i32_to_string(i32"));
    assert!(rendered.contains("call i32 (ptr, ...) @printf(ptr @.ax_fmt_str, ptr %t"));
}

#[test]
fn renders_enum_struct_and_slice_payload_formatter_v0() {
    let packet = || t_enum("Packet");
    let rendered = render(vec![
        structure("Summary", vec![], vec![("count", Type::I32), ("label", Type::String)]),
        enumeration(
            "Packet",
            vec![],
            vec![
                ("Summary", Some(t_struct("Summary"))),
                ("Lines", Some(t_slice(Type::String))),
                ("Empty", None),
            ],
        ),
        main_returning(
            vec![(0, "summary", packet()), (1, "lines", packet())],
            vec![
                let_(
                    0,
                    "summary",
                    packet(),
                    variant(
                        "Packet",
                        "Summary",
                        Some(struct_lit("Summary", vec![("count", num(3)), ("label", text("ok"))])),
                    ),
                ),
                let_(
                    1,
                    "lines",
                    packet(),
                    variant(
                        "Packet",
                        "Lines",
                        Some(call("string_split_lines", vec![text("alpha\nbeta\n")])),
                    ),
                ),
                eval(call("println", vec![var(0, "summary")])),
                eval(call("println", vec![var(1, "lines")])),
            ],
            add(status_len(0, "summary"), status_len(1, "lines")),
        ),
    ]);

    assert!(rendered.contains("c\"Packet.Summary\\00\""));
    assert!(rendered.contains("c\"Packet.Lines\\00\""));
    assert!(rendered.contains("call ptr @malloc(i64 16)"));
    assert!(rendered.contains("call { ptr, i32 } @ax_string_split_lines(ptr"));
    assert!(rendered.contains("extractvalue %ax_struct_Summary"));
    assert!(rendered.contains("slice_to_string_loop"));
}

#[test]
fn renders_struct_match_patterns() {
    let rendered = render(vec![
        point(),
        func(
            "score",
            vec![(0, "point", t_struct("Point"))],
            Type::I32,
            vec![(1, "x", Type::I32), (2, "y", Type::I32)],
            vec![bb(
                0,
                vec![],
                ret(match_expr(
                    var(0, "point"),
                    vec![arm(
                        p_struct("Point", vec![("x", "x", Type::I32), ("y", "y", Type::I32)]),
                        None,
                        add(var(1, "x"), var(2, "y")),
                    )],
                )),
            )],
        ),
        main_returning(
            vec![],
            vec![],
            call("score", vec![struct_lit("Point", vec![("x", num(20)), ("y", num(22))])]),
        ),
    ]);

    assert!(rendered.contains("extractvalue %ax_struct_Point"));
    assert!(rendered.contains("store i32"));
    assert!(rendered.contains("ret i32 %"));
}

fn option_enum() -> Item {
    enumeration("Option", vec!["T"], vec![("None", None), ("Some", Some(t_param("T")))])
}

fn result_enum() -> Item {
    enumeration("Result", vec!["T", "E"], vec![("Ok", Some(t_param("T"))), ("Err", Some(t_param("E")))])
}

fn result_of(ok: Type, err: Type) -> Type {
    t_enum_of("Result", vec![ok, err])
}

fn result_impl() -> Vec<Item> {
    let generic = || result_of(t_param("T"), t_param("E"));
    vec![
        generic_func(
            "Result.ok",
            vec!["T", "E"],
            vec![],
            vec![(0, "value", t_param("T"))],
            generic(),
            vec![],
            vec![bb(0, vec![], ret(variant("Result", "Ok", Some(var(0, "value")))))],
        ),
        generic_func(
            "Result.err",
            vec!["T", "E"],
            vec![],
            vec![(0, "error", t_param("E"))],
            generic(),
            vec![],
            vec![bb(0, vec![], ret(variant("Result", "Err", Some(var(0, "error")))))],
        ),
    ]
}

/// `match (<scrutinee>) { Result.Ok(value) => <ok>, Result.Err(message) => message }`
/// with `value` in local `value_id` and `message` in local `message_id`.
fn show_result(scrutinee: Expr, ok: Type, value_id: u32, message_id: u32) -> Expr {
    let shown = if matches!(ok, Type::String) {
        var(value_id, "value")
    } else {
        call("to_string", vec![var(value_id, "value")])
    };
    match_expr(
        scrutinee,
        vec![
            arm(p_bind("Result", "Ok", "value", ok), None, shown),
            arm(p_bind("Result", "Err", "message", Type::String), None, var(message_id, "message")),
        ],
    )
}

#[test]
fn renders_concrete_generic_result_and_option_instances() {
    let option_i32 = || t_enum_of("Option", vec![Type::I32]);
    let result = || result_of(Type::I32, Type::String);
    let rendered = render(vec![
        option_enum(),
        result_enum(),
        func(
            "option_or",
            vec![(0, "value", option_i32()), (1, "fallback", Type::I32)],
            Type::I32,
            vec![(2, "found", Type::I32)],
            vec![bb(
                0,
                vec![],
                ret(match_expr(
                    var(0, "value"),
                    vec![
                        arm(p_bind("Option", "Some", "found", Type::I32), None, var(2, "found")),
                        arm(p_unit("Option", "None"), None, var(1, "fallback")),
                    ],
                )),
            )],
        ),
        func(
            "value_or_zero",
            vec![(0, "result", result())],
            Type::I32,
            vec![(1, "value", Type::I32)],
            vec![bb(
                0,
                vec![],
                ret(match_expr(
                    var(0, "result"),
                    vec![
                        arm(p_bind("Result", "Ok", "value", Type::I32), None, var(1, "value")),
                        arm(p_ignore("Result", "Err", Type::String), None, num(0)),
                    ],
                )),
            )],
        ),
        main_returning(
            vec![(0, "present", option_i32()), (1, "ok", result())],
            vec![
                let_(0, "present", option_i32(), variant("Option", "Some", Some(num(5)))),
                let_(1, "ok", result(), variant("Result", "Ok", Some(num(7)))),
            ],
            add(
                call("option_or", vec![var(0, "present"), num(0)]),
                call("value_or_zero", vec![var(1, "ok")]),
            ),
        ),
    ]);

    assert!(rendered.contains("%ax_enum_Option_i32_ = type { i32, ptr }"));
    assert!(rendered.contains("%ax_enum_Result_i32__string_ = type { i32, ptr }"));
    assert!(rendered.contains("define i32 @ax_option_or(%ax_enum_Option_i32_ %arg0"));
    assert!(rendered.contains("define i32 @ax_value_or_zero(%ax_enum_Result_i32__string_ %arg0"));
    assert!(rendered.contains("call ptr @malloc(i64 4)"));
    assert!(rendered.contains("extractvalue %ax_enum_Result_i32__string_"));
}

#[test]
fn renders_concrete_generic_enum_formatter_and_direct_print_v0() {
    let option_i32 = || t_enum_of("Option", vec![Type::I32]);
    let result = || result_of(Type::I32, Type::String);
    let rendered = render(vec![
        option_enum(),
        result_enum(),
        main_returning(
            vec![
                (0, "present", option_i32()),
                (1, "missing", option_i32()),
                (2, "ok", result()),
                (3, "err", result()),
            ],
            vec![
                let_(0, "present", option_i32(), variant("Option", "Some", Some(num(5)))),
                let_(1, "missing", option_i32(), variant("Option", "None", None)),
                let_(2, "ok", result(), variant("Result", "Ok", Some(num(7)))),
                let_(3, "err", result(), variant("Result", "Err", Some(text("bad")))),
                eval(call("println", vec![call("to_string", vec![var(0, "present")])])),
                eval(call("println", vec![var(1, "missing")])),
                eval(call("println", vec![call("to_string", vec![var(2, "ok")])])),
                eval(call("println", vec![var(3, "err")])),
            ],
            add(
                add(add(status_len(0, "present"), status_len(1, "missing")), status_len(2, "ok")),
                status_len(3, "err"),
            ),
        ),
    ]);

    assert!(rendered.contains("%ax_enum_Option_i32_ = type { i32, ptr }"));
    assert!(rendered.contains("%ax_enum_Result_i32__string_ = type { i32, ptr }"));
    assert!(rendered.contains("c\"Option.Some\\00\""));
    assert!(rendered.contains("c\"Option.None\\00\""));
    assert!(rendered.contains("c\"Result.Ok\\00\""));
    assert!(rendered.contains("c\"Result.Err\\00\""));
    assert!(rendered.contains("call ptr @ax_i32_to_string(i32"));
    assert!(rendered.contains("call i32 (ptr, ...) @printf(ptr @.ax_fmt_str, ptr %t"));
}

#[test]
fn renders_generic_static_result_constructors_from_expected_type_v0() {
    let result = || result_of(Type::I32, Type::String);
    let mut items = vec![result_enum()];
    items.extend(result_impl());
    items.push(func(
        "parse_demo",
        vec![(0, "text", Type::String)],
        result(),
        vec![],
        vec![
            bb(0, vec![], branch(eq(var(0, "text"), text("ok")), 1, 2)),
            bb(1, vec![], ret(call("Result.ok", vec![num(7)]))),
            bb(2, vec![], ret(call("Result.err", vec![add(text("bad:"), var(0, "text"))]))),
        ],
    ));
    items.push(main_returning(
        vec![(0, "ok", result()), (1, "err", result()), (2, "value", Type::I32), (3, "message", Type::String)],
        vec![
            let_(0, "ok", result(), call("Result.ok", vec![num(5)])),
            let_(1, "err", result(), call("Result.err", vec![text("missing")])),
            eval(call("println", vec![show_result(var(0, "ok"), Type::I32, 2, 3)])),
            eval(call("println", vec![show_result(var(1, "err"), Type::I32, 2, 3)])),
            eval(call(
                "println",
                vec![show_result(call("parse_demo", vec![text("no")]), Type::I32, 2, 3)],
            )),
        ],
        num(0),
    ));
    let rendered = render(items);

    assert!(rendered.contains("%ax_enum_Result_i32__string_ = type { i32, ptr }"));
    assert!(
        rendered
            .contains("define %ax_enum_Result_i32__string_ @ax_Result_ok_i32__string_(i32 %arg0)")
    );
    assert!(
        rendered
            .contains("define %ax_enum_Result_i32__string_ @ax_Result_err_i32__string_(ptr %arg0)")
    );
    assert!(rendered.contains("call %ax_enum_Result_i32__string_ @ax_Result_ok_i32__string_"));
    assert!(rendered.contains("call %ax_enum_Result_i32__string_ @ax_Result_err_i32__string_"));
}

#[test]
fn renders_generic_result_err_specialization_by_return_type_v0() {
    let text_result = || result_of(Type::String, Type::String);
    let count_result = || result_of(Type::I32, Type::String);
    let parser = |name: &str, ty: Type, ok: Expr, missing: &str| {
        func(
            name,
            vec![(0, "flag", Type::Bool)],
            ty,
            vec![],
            vec![
                bb(0, vec![], branch(var(0, "flag"), 1, 2)),
                bb(1, vec![], ret(call("Result.ok", vec![ok]))),
                bb(2, vec![], ret(call("Result.err", vec![text(missing)]))),
            ],
        )
    };
    let mut items = vec![result_enum()];
    items.extend(result_impl());
    items.push(parser("parse_text", text_result(), text("text"), "text missing"));
    items.push(parser("parse_count", count_result(), num(7), "count missing"));
    items.push(main_returning(
        vec![
            (0, "text", text_result()),
            (1, "count", count_result()),
            (2, "value", Type::String),
            (3, "message", Type::String),
            (4, "number", Type::I32),
        ],
        vec![
            let_(0, "text", text_result(), call("parse_text", vec![boolean(false)])),
            let_(1, "count", count_result(), call("parse_count", vec![boolean(false)])),
            eval(call("println", vec![show_result(var(0, "text"), Type::String, 2, 3)])),
            eval(call(
                "println",
                vec![match_expr(
                    var(1, "count"),
                    vec![
                        arm(
                            p_bind("Result", "Ok", "number", Type::I32),
                            None,
                            call("to_string", vec![var(4, "number")]),
                        ),
                        arm(
                            p_bind("Result", "Err", "message", Type::String),
                            None,
                            var(3, "message"),
                        ),
                    ],
                )],
            )),
        ],
        num(0),
    ));
    let rendered = render(items);

    assert!(rendered.contains(
        "define %ax_enum_Result_string__string_ @ax_Result_err_string__string_(ptr %arg0)"
    ));
    assert!(
        rendered
            .contains("define %ax_enum_Result_i32__string_ @ax_Result_err_i32__string_(ptr %arg0)")
    );
    assert!(
        rendered.contains("call %ax_enum_Result_string__string_ @ax_Result_err_string__string_")
    );
    assert!(rendered.contains("call %ax_enum_Result_i32__string_ @ax_Result_err_i32__string_"));
}

#[test]
fn renders_result_try_early_return_with_error_rewrap() {
    let count_result = || result_of(Type::I32, Type::String);
    let text_result = || result_of(Type::String, Type::String);
    let rendered = render(vec![
        result_enum(),
        func(
            "parse",
            vec![(0, "text", Type::String)],
            count_result(),
            vec![],
            vec![
                bb(0, vec![], branch(eq(var(0, "text"), text("ok")), 1, 2)),
                bb(1, vec![], ret(variant("Result", "Ok", Some(num(7))))),
                bb(2, vec![], ret(variant("Result", "Err", Some(text("bad"))))),
            ],
        ),
        func(
            "render_score",
            vec![(0, "text", Type::String)],
            text_result(),
            vec![(1, "score", Type::I32)],
            vec![bb(
                0,
                vec![let_(1, "score", Type::I32, try_(call("parse", vec![var(0, "text")])))],
                ret(variant(
                    "Result",
                    "Ok",
                    Some(add(text("score="), call("to_string", vec![var(1, "score")]))),
                )),
            )],
        ),
        main_returning(
            vec![(0, "result", text_result()), (1, "text", Type::String), (2, "message", Type::String)],
            vec![let_(0, "result", text_result(), call("render_score", vec![text("ok")]))],
            match_expr(
                var(0, "result"),
                vec![
                    arm(
                        p_bind("Result", "Ok", "text", Type::String),
                        None,
                        call("string_len", vec![var(1, "text")]),
                    ),
                    arm(
                        p_bind("Result", "Err", "message", Type::String),
                        None,
                        call("string_len", vec![var(2, "message")]),
                    ),
                ],
            ),
        ),
    ]);

    assert!(rendered.contains("%ax_enum_Result_i32__string_ = type { i32, ptr }"));
    assert!(rendered.contains("%ax_enum_Result_string__string_ = type { i32, ptr }"));
    assert!(rendered.contains("define %ax_enum_Result_string__string_ @ax_render_score"));
    assert!(rendered.contains("call %ax_enum_Result_i32__string_ @ax_parse"));
    assert!(rendered.contains("try_err_"));
    assert!(rendered.contains("try_ok_"));
    assert!(rendered.contains("ret %ax_enum_Result_string__string_"));
}

#[test]
fn renders_generic_result_adapter_inferred_from_nested_call_argument_v0() {
    let config_error = || t_enum("ConfigError");
    let rendered = render(vec![
        result_enum(),
        enumeration("ConfigError", vec![], vec![("Io", Some(Type::String))]),
        generic_func(
            "from_io",
            vec!["T"],
            vec![],
            vec![(0, "value", result_of(t_param("T"), Type::String))],
            result_of(t_param("T"), config_error()),
            vec![(1, "found", t_param("T")), (2, "message", Type::String)],
            vec![bb(
                0,
                vec![],
                ret(match_expr(
                    var(0, "value"),
                    vec![
                        arm(
                            p_bind("Result", "Ok", "found", t_param("T")),
                            None,
                            variant("Result", "Ok", Some(var(1, "found"))),
                        ),
                        arm(
                            p_bind("Result", "Err", "message", Type::String),
                            None,
                            variant(
                                "Result",
                                "Err",
                                Some(variant("ConfigError", "Io", Some(var(2, "message")))),
                            ),
                        ),
                    ],
                )),
            )],
        ),
        func(
            "read_text",
            vec![],
            result_of(Type::String, Type::String),
            vec![],
            vec![bb(0, vec![], ret(variant("Result", "Ok", Some(text("cfg")))))],
        ),
        func(
            "validate",
            vec![],
            result_of(Type::String, config_error()),
            vec![(0, "contents", Type::String), (1, "__read", result_of(Type::String, Type::String))],
            vec![bb(
                0,
                vec![
                    let_(1, "__read", result_of(Type::String, Type::String), call("read_text", vec![])),
                    let_(0, "contents", Type::String, try_(call("from_io", vec![var(1, "__read")]))),
                ],
                ret(variant("Result", "Ok", Some(var(0, "contents")))),
            )],
        ),
        main_returning(
            vec![(0, "result", result_of(Type::String, config_error())), (1, "text", Type::String)],
            vec![let_(
                0,
                "result",
                result_of(Type::String, config_error()),
                call("validate", vec![]),
            )],
            match_expr(
                var(0, "result"),
                vec![
                    arm(
                        p_bind("Result", "Ok", "text", Type::String),
                        None,
                        call("string_len", vec![var(1, "text")]),
                    ),
                    arm(p_ignore("Result", "Err", config_error()), None, num(1)),
                ],
            ),
        ),
    ]);

    assert!(rendered.contains("%ax_enum_Result_string__string_ = type { i32, ptr }"));
    assert!(rendered.contains("%ax_enum_Result_string__ConfigError_ = type { i32, ptr }"));
    assert!(rendered.contains("define %ax_enum_Result_string__ConfigError_ @ax_from_io_string"));
    assert!(rendered.contains("call %ax_enum_Result_string__string_ @ax_read_text()"));
    assert!(rendered.contains("call %ax_enum_Result_string__ConfigError_ @ax_from_io_string"));
}

#[test]
fn renders_result_statement_match_payload_binding_with_concrete_type_v0() {
    let text_result = || result_of(Type::String, Type::String);
    let result = || var(0, "result");
    let rendered = render(vec![
        result_enum(),
        func(
            "read_text",
            vec![],
            text_result(),
            vec![],
            vec![bb(0, vec![], ret(variant("Result", "Ok", Some(text("cfg")))))],
        ),
        func(
            "main",
            vec![],
            Type::I32,
            vec![
                (0, "result", text_result()),
                (1, "report_path", Type::String),
                (2, "message", Type::String),
            ],
            vec![
                bb(0, vec![let_(0, "result", text_result(), call("read_text", vec![]))], goto(1)),
                bb(
                    1,
                    vec![],
                    branch(
                        test_pattern(result(), p_bind("Result", "Ok", "report_path", Type::String)),
                        2,
                        3,
                    ),
                ),
                bb(
                    2,
                    vec![
                        let_(1, "report_path", Type::String, payload(result())),
                        eval(call("println", vec![add(text("ok="), var(1, "report_path"))])),
                    ],
                    ret(num(0)),
                ),
                bb(
                    3,
                    vec![],
                    branch(
                        test_pattern(result(), p_bind("Result", "Err", "message", Type::String)),
                        4,
                        5,
                    ),
                ),
                bb(
                    4,
                    vec![
                        let_(2, "message", Type::String, payload(result())),
                        eval(call("println", vec![add(text("err="), var(2, "message"))])),
                    ],
                    ret(num(1)),
                ),
                bb(5, vec![], ret(num(2))),
            ],
        ),
    ]);

    assert!(rendered.contains("%ax_enum_Result_string__string_ = type { i32, ptr }"));
    assert!(rendered.contains("call %ax_enum_Result_string__string_ @ax_read_text()"));
    assert!(rendered.contains("call ptr @ax_string_concat(ptr"));
    assert!(rendered.contains("ret i32 0"));
}

#[test]
fn renders_env_builtins_from_native_environment_v0() {
    let rendered = render(vec![func(
        "main",
        vec![],
        Type::I32,
        vec![],
        vec![
            bb(0, vec![], branch(call("env_has", vec![text("PATH")]), 1, 2)),
            bb(1, vec![eval(call("println", vec![call("env_get", vec![text("PATH")])]))], ret(num(0))),
            bb(2, vec![], ret(num(1))),
        ],
    )]);

    assert!(rendered.contains("declare ptr @getenv(ptr)"));
    assert!(rendered.contains("call ptr @getenv(ptr"));
    assert!(rendered.contains("icmp ne ptr"));
    assert!(rendered.contains("icmp eq ptr"));
    assert!(rendered.contains("call void @ax_runtime_error(ptr @.ax_rt_env_missing)"));
}

#[test]
fn renders_process_builtins_from_native_process_abi_v0() {
    let rendered = render(vec![main_returning(
        vec![
            (0, "cwd", Type::String),
            (1, "status", Type::I32),
            (2, "nested", Type::I32),
            (3, "output", Type::String),
            (4, "nested_output", Type::String),
        ],
        vec![
            let_(0, "cwd", Type::String, call("process_cwd", vec![])),
            let_(1, "status", Type::I32, call("process_run", vec![text("exit 0")])),
            let_(2, "nested", Type::I32, call("process_run_in", vec![text("."), text("exit 0")])),
            let_(3, "output", Type::String, call("process_capture", vec![text("echo AX")])),
            let_(
                4,
                "nested_output",
                Type::String,
                call("process_capture_in", vec![text("."), text("echo OK")]),
            ),
            eval(call("println", vec![var(0, "cwd")])),
            eval(call("println", vec![add(var(3, "output"), var(4, "nested_output"))])),
        ],
        add(var(1, "status"), var(2, "nested")),
    )]);

    assert!(rendered.contains("declare i32 @system(ptr)"));
    assert!(rendered.contains("declare i32 @chdir(ptr)"));
    assert!(rendered.contains("declare ptr @popen(ptr, ptr)"));
    assert!(rendered.contains("declare i32 @pclose(ptr)"));
    assert!(rendered.contains("define private i32 @ax_process_run(ptr %command)"));
    assert!(rendered.contains("define private i32 @ax_process_run_in(ptr %dir, ptr %command)"));
    assert!(rendered.contains("define private ptr @ax_process_capture(ptr %command)"));
    assert!(rendered.contains("define private ptr @ax_process_capture_in(ptr %dir, ptr %command)"));
    assert!(rendered.contains("call ptr @ax_process_cwd()"));
    assert!(rendered.contains("call i32 @ax_process_run(ptr"));
    assert!(rendered.contains("call i32 @ax_process_run_in(ptr"));
    assert!(rendered.contains("call ptr @ax_process_capture(ptr"));
    assert!(rendered.contains("call ptr @ax_process_capture_in(ptr"));
}

#[test]
fn renders_fs_read_builtins_from_native_filesystem_v0() {
    let p = || var(0, "path");
    let rendered = render(vec![func(
        "main",
        vec![],
        Type::I32,
        vec![(0, "path", Type::String), (1, "text", Type::String)],
        vec![
            bb(
                0,
                vec![let_(0, "path", Type::String, text("examples/aot_fs_read.ax"))],
                branch(
                    and(
                        and(call("fs_exists", vec![p()]), call("fs_is_file", vec![p()])),
                        not(call("fs_is_dir", vec![p()])),
                    ),
                    1,
                    2,
                ),
            ),
            bb(
                1,
                vec![
                    let_(1, "text", Type::String, call("fs_read_to_string", vec![p()])),
                    eval(call("println", vec![var(1, "text")])),
                ],
                ret(call("fs_file_size", vec![p()])),
            ),
            bb(2, vec![], ret(num(0))),
        ],
    )]);

    assert!(rendered.contains("define private i1 @ax_fs_exists(ptr %path)"));
    assert!(rendered.contains("define private i1 @ax_fs_is_file(ptr %path)"));
    assert!(rendered.contains("define private i1 @ax_fs_is_dir(ptr %path)"));
    assert!(rendered.contains("define private i32 @ax_fs_file_size(ptr %path)"));
    assert!(rendered.contains("define private ptr @ax_fs_read_to_string(ptr %path)"));
    assert!(rendered.contains("declare ptr @fopen(ptr, ptr)"));
    assert!(rendered.contains("declare i32 @fgetc(ptr)"));
    assert!(rendered.contains("declare void @rewind(ptr)"));
    assert!(rendered.contains("declare i32 @access(ptr, i32)"));
    assert!(rendered.contains("declare ptr @opendir(ptr)"));
    assert!(rendered.contains("call i1 @ax_fs_exists(ptr"));
    assert!(rendered.contains("call i1 @ax_fs_is_file(ptr"));
    assert!(rendered.contains("call i1 @ax_fs_is_dir(ptr"));
    assert!(rendered.contains("call ptr @ax_fs_read_to_string(ptr"));
    assert!(rendered.contains("call i32 @ax_fs_file_size(ptr"));
}

#[test]
fn renders_fs_read_dir_as_native_string_slice_v0() {
    let rendered = render(vec![main_returning(
        vec![(0, "entries", t_slice(Type::String))],
        vec![
            let_(0, "entries", t_slice(Type::String), call("fs_read_dir", vec![text("examples")])),
            eval(call("println", vec![index(var(0, "entries"), num(0))])),
        ],
        call("len", vec![var(0, "entries")]),
    )]);

    assert!(rendered.contains("define private { ptr, i32 } @ax_fs_read_dir(ptr %path)"));
    assert!(rendered.contains("define private void @ax_sort_string_ptrs(ptr %data, i32 %len)"));
    assert!(rendered.contains("call { ptr, i32 } @ax_fs_read_dir(ptr"));
    assert!(rendered.contains("extractvalue { ptr, i32 }"));
    assert!(rendered.contains("getelementptr ptr, ptr"));
}

#[test]
fn renders_fs_write_builtins_from_native_filesystem_v0() {
    let source = || var(0, "source");
    let copied = || var(1, "copied");
    let renamed = || var(2, "renamed");
    let rendered = render(vec![func(
        "main",
        vec![],
        Type::I32,
        vec![
            (0, "source", Type::String),
            (1, "copied", Type::String),
            (2, "renamed", Type::String),
            (3, "nested", Type::String),
            (4, "bytes", Type::I32),
        ],
        vec![
            bb(
                0,
                vec![
                    let_(0, "source", Type::String, text("examples/.aot_fs_write_source.tmp")),
                    let_(1, "copied", Type::String, text("examples/.aot_fs_write_copied.tmp")),
                    let_(2, "renamed", Type::String, text("examples/.aot_fs_write_renamed.tmp")),
                    let_(3, "nested", Type::String, text("build/aot_fs_create_dir_all_test/nested")),
                    eval(call("fs_create_dir_all", vec![var(3, "nested")])),
                ],
                branch(call("fs_is_file", vec![source()]), 1, 2),
            ),
            bb(1, vec![eval(call("fs_remove_file", vec![source()]))], goto(2)),
            bb(2, vec![], branch(call("fs_is_file", vec![copied()]), 3, 4)),
            bb(3, vec![eval(call("fs_remove_file", vec![copied()]))], goto(4)),
            bb(
                4,
                vec![
                    eval(call("fs_write_string", vec![source(), text("hello")])),
                    let_(4, "bytes", Type::I32, call("fs_copy_file", vec![source(), copied()])),
                    eval(call("fs_rename", vec![copied(), renamed()])),
                    eval(call("fs_remove_file", vec![renamed()])),
                    eval(call("fs_remove_file", vec![source()])),
                    eval(call("fs_remove_dir_all", vec![text("build/aot_fs_create_dir_all_test")])),
                ],
                ret(num(0)),
            ),
        ],
    )]);

    assert!(rendered.contains("@.ax_fs_mode_write_binary"));
    assert!(rendered.contains("declare i32 @remove(ptr)"));
    assert!(rendered.contains("declare i32 @rename(ptr, ptr)"));
    assert!(rendered.contains("declare i32 @fputc(i32, ptr)"));
    assert!(rendered.contains("declare i32 @mkdir(ptr, i32)"));
    assert!(rendered.contains("declare i32 @nftw(ptr, ptr, i32, i32)"));
    assert!(rendered.contains("define private void @ax_fs_write_string(ptr %path, ptr %text)"));
    assert!(rendered.contains("define private void @ax_fs_remove_file(ptr %path)"));
    assert!(rendered.contains("define private void @ax_fs_rename(ptr %from, ptr %to)"));
    assert!(
        rendered.contains("define private i32 @ax_fs_copy_file(ptr %source, ptr %destination)")
    );
    assert!(rendered.contains("define private void @ax_fs_create_dir_all(ptr %path)"));
    assert!(rendered.contains("define private void @ax_fs_remove_dir_all(ptr %path)"));
    assert!(rendered.contains("call void @ax_fs_write_string(ptr"));
    assert!(rendered.contains("call i32 @ax_fs_copy_file(ptr"));
    assert!(rendered.contains("call void @ax_fs_create_dir_all(ptr"));
    assert!(rendered.contains("call void @ax_fs_remove_dir_all(ptr"));
    assert!(rendered.contains("call void @ax_fs_rename(ptr"));
    assert!(rendered.contains("call void @ax_fs_remove_file(ptr"));
}

#[test]
fn renders_path_runtime_builtins_v0() {
    let joined = || var(0, "joined");
    let rendered = render(vec![func(
        "main",
        vec![],
        Type::I32,
        vec![(0, "joined", Type::String), (1, "parent", Type::String), (2, "resolved", Type::String)],
        vec![
            bb(
                0,
                vec![
                    let_(0, "joined", Type::String, call("path_join", vec![text("build"), text("artifact.txt")])),
                    let_(1, "parent", Type::String, call("path_parent", vec![joined()])),
                    let_(2, "resolved", Type::String, call("path_resolve", vec![var(1, "parent")])),
                    eval(call("println", vec![call("path_file_name", vec![joined()])])),
                    eval(call("println", vec![call("path_stem", vec![joined()])])),
                    eval(call("println", vec![call("path_extension", vec![joined()])])),
                ],
                branch(call("path_is_absolute", vec![var(2, "resolved")]), 1, 2),
            ),
            bb(1, vec![], ret(call("string_len", vec![var(1, "parent")]))),
            bb(2, vec![], ret(num(0))),
        ],
    )]);

    assert!(rendered.contains("define private ptr @ax_path_join(ptr %base, ptr %name)"));
    assert!(rendered.contains("define private ptr @ax_path_parent(ptr %path)"));
    assert!(rendered.contains("define private ptr @ax_path_resolve(ptr %path)"));
    assert!(rendered.contains("define private ptr @ax_path_file_name(ptr %path)"));
    assert!(rendered.contains("define private ptr @ax_path_stem(ptr %path)"));
    assert!(rendered.contains("define private ptr @ax_path_extension(ptr %path)"));
    assert!(rendered.contains("define private i1 @ax_path_is_absolute(ptr %path)"));
    assert!(rendered.contains("store i8 47, ptr %separator"));
    assert!(rendered.contains("call ptr @ax_path_join(ptr"));
    assert!(rendered.contains("call ptr @ax_path_parent(ptr"));
    assert!(rendered.contains("call ptr @ax_path_resolve(ptr"));
    assert!(rendered.contains("call ptr @ax_path_file_name(ptr"));
    assert!(rendered.contains("call i1 @ax_path_is_absolute(ptr"));
}

#[test]
fn renders_string_list_runtime_helpers_v0() {
    let items = || var(0, "items");
    let rendered = render(vec![main_returning(
        vec![(0, "items", Type::StringList)],
        vec![
            let_(0, "items", Type::StringList, call("string_list_new", vec![])),
            assign(place(0, "items"), call("string_list_push", vec![items(), text("alpha")])),
            assign(place(0, "items"), call("string_list_push", vec![items(), text("beta")])),
            eval(call("println", vec![call("string_list_join", vec![items(), text(", ")])])),
            eval(call("println", vec![call("string_list_get", vec![items(), num(1)])])),
        ],
        call("len", vec![items()]),
    )]);

    assert!(rendered.contains("define private ptr @ax_string_list_new()"));
    assert!(rendered.contains("define private i32 @ax_string_list_len(ptr %list)"));
    assert!(rendered.contains("define private ptr @ax_string_list_push(ptr %list, ptr %value)"));
    assert!(rendered.contains("define private ptr @ax_string_list_get(ptr %list, i32 %index)"));
    assert!(
        rendered.contains("define private ptr @ax_string_list_join(ptr %list, ptr %separator)")
    );
    assert!(rendered.contains("call ptr @ax_string_list_new()"));
    assert!(rendered.contains("call ptr @ax_string_list_push(ptr"));
    assert!(rendered.contains("call ptr @ax_string_list_join(ptr"));
    assert!(rendered.contains("call ptr @ax_string_list_get(ptr"));
    assert!(rendered.contains("call i32 @ax_string_list_len(ptr"));
}
