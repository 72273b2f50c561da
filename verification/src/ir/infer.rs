//! Static types of expressions, and the concrete types that generic-typed
//! locals take in a specialized or inferred body.
use vstd::prelude::*;
use crate::id_map::IdMap;
use crate::mir::{
    clone_type, same_type, same_types, type_eq, types_eq, BasicBlock, EnumVariantPayloadPattern,
    Expr, Local, MatchExprArm, MatchPattern, Statement, StructLiteralField, Terminator, Type,
};
use crate::name_map::NameMap;
use vstd::utf8::encode_utf8;
use crate::text::{owned, starts_with, str_eq};
use super::layout::{any_contains_type_param, contains_type_param};
use super::model::{is_first_variant, EnumLayout, FunctionSignature};
use super::support::{arm_reads, ax_name_of, enum_layout_for_static_type, lemma_same_type_same_name, find_local_use_by_name_in_match_arm, first_named};

verus! {

/// The type a local has in a body: its override if one was inferred, its
/// declared type otherwise.
pub fn local_type_of(local: u32, local_types: &IdMap<Type>, overrides: &IdMap<Type>) -> (r: Option<Type>)
    ensures
        overrides.view_map().contains_key(local) ==> (r matches Some(t) && same_type(
            t,
            overrides.view_map()[local],
        )),
        !overrides.view_map().contains_key(local) && local_types.view_map().contains_key(local)
            ==> (r matches Some(t) && same_type(t, local_types.view_map()[local])),
        !overrides.view_map().contains_key(local) && !local_types.view_map().contains_key(local)
            ==> r is None,
{
    match overrides.get(local) {
        Some(t) => Some(clone_type(t)),
        None => match local_types.get(local) {
            Some(t) => Some(clone_type(t)),
            None => None,
        },
    }
}

/// The type of a literal expression.
pub open spec fn literal_type(e: Expr) -> Option<Type> {
    match e {
        Expr::Int { .. } => Some(Type::I32),
        Expr::Float { .. } => Some(Type::F32),
        Expr::Bool { .. } => Some(Type::Bool),
        Expr::String { .. } => Some(Type::String),
        _ => None,
    }
}

/// `statement` is a `let` of local `id` from a literal.
pub open spec fn literal_let_of(statement: Statement, id: u32) -> bool {
    statement matches Statement::Let { local, initializer, .. } && local == id && literal_type(initializer) is Some
}

/// No two locals share an id.
pub open spec fn distinct_local_ids(locals: Seq<Local>) -> bool {
    forall|i: int, j: int| 0 <= i < j < locals.len() ==> locals[i].id != locals[j].id
}

/// The type local `id` has: its override if it has one, else its declared
/// type.
pub open spec fn local_static_type(declared: Map<u32, Type>, overrides: Map<u32, Type>, id: u32) -> Option<Type> {
    if overrides.contains_key(id) {
        Some(overrides[id])
    } else if declared.contains_key(id) {
        Some(declared[id])
    } else {
        None
    }
}

/// The type of an expression that is known without signatures: locals,
/// literals, block values and enum constructors.
pub fn static_expr_type(expr: &Expr, local_types: &IdMap<Type>, overrides: &IdMap<Type>) -> (r:
    Option<Type>)
    ensures
        expr is Int ==> r == Some(Type::I32),
        expr is Float ==> r == Some(Type::F32),
        expr is Bool ==> r == Some(Type::Bool),
        expr is String ==> r == Some(Type::String),
        *expr matches Expr::Local { local, .. } ==> match local_static_type(
            local_types.view_map(),
            overrides.view_map(),
            local,
        ) {
            Some(t) => r matches Some(u) && same_type(u, t),
            None => r is None,
        },
        !(expr is Local || expr is Int || expr is Float || expr is Bool || expr is String
            || expr is Block || expr is EnumVariant) ==> r is None,
    decreases expr,
{
    match expr {
        Expr::Local { local, .. } => local_type_of(*local, local_types, overrides),
        Expr::Int { .. } => Some(Type::I32),
        Expr::Float { .. } => Some(Type::F32),
        Expr::Bool { .. } => Some(Type::Bool),
        Expr::String { .. } => Some(Type::String),
        Expr::Block { value, .. } => static_expr_type(value, local_types, overrides),
        Expr::EnumVariant { enum_name, .. } => Some(Type::Enum { name: enum_name.clone() }),
        _ => None,
    }
}

/// The return type of the builtin `function`, when it is a builtin whose
/// result type does not depend on its arguments.
pub open spec fn builtin_result_type(function: Seq<char>) -> Option<Type> {
    if function == "string_len"@ || function == "len"@ {
        Some(Type::I32)
    } else if function == "string_contains"@ || function == "string_starts_with"@ || function
        == "string_ends_with"@ {
        Some(Type::Bool)
    } else if function == "string_replace"@ || function == "string_trim"@ || function
        == "to_string"@ {
        Some(Type::String)
    } else if function == "string_split_lines"@ || function == "fs_read_dir"@ {
        Some(Type::Slice { element: Box::new(Type::String) })
    } else if function == "path_join"@ || function == "path_parent"@ || function
        == "path_resolve"@ || function == "path_file_name"@ || function == "path_stem"@
        || function == "path_extension"@ {
        Some(Type::String)
    } else if function == "path_is_absolute"@ {
        Some(Type::Bool)
    } else {
        None
    }
}

/// The return type of the builtin `function`, when it is a builtin whose
/// result type does not depend on its arguments.
pub fn builtin_return_type(function: &str) -> (r: Option<Type>)
    ensures
        r == builtin_result_type(function@),
{
    if str_eq(function, "string_len") || str_eq(function, "len") {
        return Some(Type::I32);
    }
    if str_eq(function, "string_contains") || str_eq(function, "string_starts_with") || str_eq(
        function,
        "string_ends_with",
    ) {
        return Some(Type::Bool);
    }
    if str_eq(function, "string_replace") || str_eq(function, "string_trim") || str_eq(
        function,
        "to_string",
    ) {
        return Some(Type::String);
    }
    if str_eq(function, "string_split_lines") || str_eq(function, "fs_read_dir") {
        return Some(Type::Slice { element: Box::new(Type::String) });
    }
    if str_eq(function, "path_join") || str_eq(function, "path_parent") || str_eq(
        function,
        "path_resolve",
    ) || str_eq(function, "path_file_name") || str_eq(function, "path_stem") || str_eq(
        function,
        "path_extension",
    ) {
        return Some(Type::String);
    }
    if str_eq(function, "path_is_absolute") {
        return Some(Type::Bool);
    }
    None
}

/// The (UTF-8) name `name` begins with `function<`.
pub open spec fn names_specialization_of(name: Seq<char>, function: Seq<char>) -> bool {
    let prefix = encode_utf8(function + "<"@);
    let bytes = encode_utf8(name);
    prefix.len() <= bytes.len() && bytes.take(prefix.len() as int) == prefix
}

/// A signature entry is a specialization of `function` taking exactly the
/// types `argument_types`.
pub open spec fn specialization_matches(
    entry: (String, FunctionSignature),
    function: Seq<char>,
    argument_types: Seq<Type>,
) -> bool {
    names_specialization_of(entry.0@, function) && same_types(entry.1.param_ax_types@, argument_types)
}

/// The specialization of `function` whose parameter types are exactly
/// `argument_types`, when exactly one signature `function<...>` has them;
/// `Err` when several have them.
pub fn unique_specialization<'a>(
    function: &str,
    argument_types: &Vec<Type>,
    signatures: &'a NameMap<FunctionSignature>,
) -> (r: Result<Option<(&'a String, &'a FunctionSignature)>, ()>)
    ensures
        r matches Ok(Some(found)) ==> signatures.spec_get(found.0@) == Some(*found.1),
        r matches Ok(Some(found)) ==> exists|i: int|
            0 <= i < signatures.entries().len() && signatures.entries()[i].0 == *found.0
                && signatures.entries()[i].1 == *found.1 && specialization_matches(
                #[trigger] signatures.entries()[i],
                function@,
                argument_types@,
            ) && forall|j: int|
                0 <= j < signatures.entries().len() && j != i ==> !specialization_matches(
                    #[trigger] signatures.entries()[j],
                    function@,
                    argument_types@,
                ),
        r matches Ok(None) ==> forall|j: int|
            0 <= j < signatures.entries().len() ==> !specialization_matches(
                #[trigger] signatures.entries()[j],
                function@,
                argument_types@,
            ),
        r is Err ==> exists|i: int, j: int|
            0 <= i < j < signatures.entries().len() && specialization_matches(
                #[trigger] signatures.entries()[i],
                function@,
                argument_types@,
            ) && specialization_matches(#[trigger] signatures.entries()[j], function@, argument_types@),
{
    let ghost entries = signatures.entries();
    let mut prefix = owned(function);
    prefix.append("<");
    let mut found: Option<(&'a String, &'a FunctionSignature)> = None;
    let ghost mut at: int = -1;
    let mut i: usize = 0;
    while i < signatures.len()
        invariant
            i <= entries.len(),
            entries == signatures.entries(),
            prefix@ == function@ + "<"@,
            found is None <==> at == -1,
            at == -1 ==> forall|j: int|
                0 <= j < i ==> !specialization_matches(#[trigger] entries[j], function@, argument_types@),
            at != -1 ==> 0 <= at < i && specialization_matches(entries[at], function@, argument_types@)
                && (found matches Some(f) && entries[at].0 == *f.0 && entries[at].1 == *f.1
                && signatures.spec_get(f.0@) == Some(*f.1))
                && forall|j: int|
                0 <= j < i && j != at ==> !specialization_matches(
                    #[trigger] entries[j],
                    function@,
                    argument_types@,
                ),
        decreases entries.len() - i,
    {
        let (name, signature) = signatures.entry_at(i);
        if starts_with(name.as_str(), prefix.as_str()) && types_eq(
            &signature.param_ax_types,
            argument_types,
        ) {
            assert(specialization_matches(entries[i as int], function@, argument_types@));
            if found.is_some() {
                assert(specialization_matches(entries[at], function@, argument_types@));
                return Err(());
            }
            found = Some((name, signature));
            proof {
                at = i as int;
            }
        } else {
            assert(!specialization_matches(entries[i as int], function@, argument_types@));
        }
        i += 1;
    }
    Ok(found)
}

/// The static type of an expression, also knowing builtin result types and
/// the signatures of lowered functions and specializations.
pub fn static_expr_type_with_signatures(
    expr: &Expr,
    local_types: &IdMap<Type>,
    overrides: &IdMap<Type>,
    signatures: &NameMap<FunctionSignature>,
) -> (r: Option<Type>)
    ensures
        expr is Int ==> r == Some(Type::I32),
        expr is Float ==> r == Some(Type::F32),
        expr is Bool ==> r == Some(Type::Bool),
        expr is String ==> r == Some(Type::String),
        *expr matches Expr::Local { local, .. } ==> match local_static_type(
            local_types.view_map(),
            overrides.view_map(),
            local,
        ) {
            Some(t) => r matches Some(u) && same_type(u, t),
            None => r is None,
        },
        expr matches Expr::Call { function, .. } ==> (builtin_result_type(function@) matches Some(t)
            ==> r == Some(t)),
        expr matches Expr::Call { function, .. } ==> (builtin_result_type(function@) is None
            ==> (signatures.spec_get(function@) matches Some(signature) ==> (r matches Some(t)
            && same_type(t, signature.return_ax_type)))),
        !(expr is Call || expr is Local || expr is Int || expr is Float || expr is Bool
            || expr is String || expr is Block || expr is EnumVariant) ==> r is None,
    decreases expr, 1nat,
{
    match static_expr_type(expr, local_types, overrides) {
        Some(t) => return Some(t),
        None => {},
    }
    match expr {
        Expr::Call { function, arguments } => {
            match builtin_return_type(function.as_str()) {
                Some(t) => return Some(t),
                None => {},
            }
            match signatures.get(function.as_str()) {
                Some(signature) => return Some(clone_type(&signature.return_ax_type)),
                None => {},
            }
            let argument_types = match static_argument_types(arguments, local_types, overrides, signatures) {
                Some(types) => types,
                None => return None,
            };
            match unique_specialization(function.as_str(), &argument_types, signatures) {
                Ok(Some((_, signature))) => Some(clone_type(&signature.return_ax_type)),
                _ => None,
            }
        },
        _ => None,
    }
}

fn static_argument_types(
    arguments: &Vec<Expr>,
    local_types: &IdMap<Type>,
    overrides: &IdMap<Type>,
    signatures: &NameMap<FunctionSignature>,
) -> (r: Option<Vec<Type>>)
    ensures
        (forall|j: int|
            0 <= j < arguments@.len() ==> (#[trigger] arguments@[j] is Int || arguments@[j] is Float
                || arguments@[j] is Bool || arguments@[j] is String)) ==> r is Some,
        r matches Some(types) ==> types@.len() == arguments@.len() && forall|j: int|
            0 <= j < types@.len() ==> (arguments@[j] is Int ==> #[trigger] types@[j] == Type::I32) && (
            arguments@[j] is Bool ==> types@[j] == Type::Bool) && (arguments@[j] is String
                ==> types@[j] == Type::String),
    decreases arguments, 0nat,
{
    let mut out: Vec<Type> = Vec::new();
    let mut i: usize = 0;
    while i < arguments.len()
        invariant
            i <= arguments@.len(),
            out@.len() == i,
            forall|j: int|
                0 <= j < i ==> (arguments@[j] is Int ==> #[trigger] out@[j] == Type::I32) && (
                arguments@[j] is Bool ==> out@[j] == Type::Bool) && (arguments@[j] is String
                    ==> out@[j] == Type::String),
        decreases arguments@.len() - i,
    {
        assert(decreases_to!(arguments => arguments@[i as int]));
        match static_expr_type_with_signatures(&arguments[i], local_types, overrides, signatures) {
            Some(t) => out.push(t),
            None => return None,
        }
        i += 1;
    }
    Some(out)
}

/// Whether an inferred type should replace a local's declared type: a type
/// parameter always gives way, and a struct or enum gives way to an instance
/// of itself (an instance only when it still mentions a type parameter).
pub open spec fn overrides_declared(declared: Type, inferred: Type) -> bool {
    !same_type(declared, inferred) && match (declared, inferred) {
        (Type::TypeParam { .. }, _) => true,
        (Type::Struct { name }, Type::StructInstance { name: inferred_name, .. }) => name@
            == inferred_name@,
        (Type::Enum { name }, Type::EnumInstance { name: inferred_name, .. }) => name@
            == inferred_name@,
        (Type::StructInstance { name, args }, Type::StructInstance { name: inferred_name, .. }) =>
            name@ == inferred_name@ && exists|i: int|
            0 <= i < args@.len() && contains_type_param(#[trigger] args@[i]),
        (Type::EnumInstance { name, args }, Type::EnumInstance { name: inferred_name, .. }) =>
            name@ == inferred_name@ && exists|i: int|
            0 <= i < args@.len() && contains_type_param(#[trigger] args@[i]),
        _ => false,
    }
}

/// A declared local type that inference may replace with a more concrete
/// one: a type parameter, a struct or enum named without arguments, a struct
/// instance that still mentions a type parameter, or an enum instance.
pub open spec fn inference_may_replace(declared: Type) -> bool {
    match declared {
        Type::TypeParam { .. } | Type::Struct { .. } | Type::Enum { .. } | Type::EnumInstance { .. } => true,
        Type::StructInstance { args, .. } => exists|i: int|
            0 <= i < args@.len() && contains_type_param(#[trigger] args@[i]),
        _ => false,
    }
}

/// Every overridden local is declared, with a type that inference may replace.
pub open spec fn overrides_respect(declared: Map<u32, Type>, overrides: Map<u32, Type>) -> bool {
    forall|id: u32|
        #[trigger] overrides.contains_key(id) ==> declared.contains_key(id) && inference_may_replace(
            declared[id],
        )
}

/// Every local that `earlier` overrides, `later` still overrides.
pub open spec fn keeps_override_keys(earlier: Map<u32, Type>, later: Map<u32, Type>) -> bool {
    forall|id: u32| #[trigger] earlier.contains_key(id) ==> later.contains_key(id)
}

/// Two types that are the same mention a type parameter alike.
pub proof fn lemma_same_type_contains_type_param(a: Type, b: Type)
    requires
        same_type(a, b),
    ensures
        contains_type_param(a) == contains_type_param(b),
    decreases a,
{
    match (a, b) {
        (Type::Slice { element: x }, Type::Slice { element: y }) => {
            lemma_same_type_contains_type_param(*x, *y);
        },
        (Type::Array { element: x, .. }, Type::Array { element: y, .. }) => {
            lemma_same_type_contains_type_param(*x, *y);
        },
        (Type::StructInstance { args: xs, .. }, Type::StructInstance { args: ys, .. }) => {
            assert(same_types(xs@, ys@));
            assert forall|i: int| 0 <= i < xs@.len() implies contains_type_param(xs@[i])
                == contains_type_param(ys@[i]) by {
                assert(same_type(xs@[i], ys@[i]));
                assert(decreases_to!(xs => xs@[i]));
                lemma_same_type_contains_type_param(xs@[i], ys@[i]);
            }
        },
        (Type::EnumInstance { args: xs, .. }, Type::EnumInstance { args: ys, .. }) => {
            assert(same_types(xs@, ys@));
            assert forall|i: int| 0 <= i < xs@.len() implies contains_type_param(xs@[i])
                == contains_type_param(ys@[i]) by {
                assert(same_type(xs@[i], ys@[i]));
                assert(decreases_to!(xs => xs@[i]));
                lemma_same_type_contains_type_param(xs@[i], ys@[i]);
            }
        },
        _ => {},
    }
}

/// Two types that are the same leave inference the same room.
pub proof fn lemma_same_type_may_replace(a: Type, b: Type)
    requires
        same_type(a, b),
    ensures
        inference_may_replace(a) == inference_may_replace(b),
{
    match (a, b) {
        (Type::StructInstance { args: xs, .. }, Type::StructInstance { args: ys, .. }) => {
            assert(same_types(xs@, ys@));
            assert forall|i: int| 0 <= i < xs@.len() implies contains_type_param(xs@[i])
                == contains_type_param(ys@[i]) by {
                assert(same_type(xs@[i], ys@[i]));
                lemma_same_type_contains_type_param(xs@[i], ys@[i]);
            }
        },
        _ => {},
    }
}

/// Whether an inferred type should replace a local's declared type.
pub fn should_override_local_type(declared: &Type, inferred: &Type) -> (r: bool)
    ensures
        r == overrides_declared(*declared, *inferred),
{
    if type_eq(declared, inferred) {
        return false;
    }
    match (declared, inferred) {
        (Type::TypeParam { .. }, _) => true,
        (Type::Struct { name }, Type::StructInstance { name: inferred_name, .. }) => str_eq(
            name.as_str(),
            inferred_name.as_str(),
        ),
        (Type::Enum { name }, Type::EnumInstance { name: inferred_name, .. }) => str_eq(
            name.as_str(),
            inferred_name.as_str(),
        ),
        (Type::StructInstance { name, args }, Type::StructInstance { name: inferred_name, .. }) => {
            str_eq(name.as_str(), inferred_name.as_str()) && any_contains_type_param(args)
        },
        (Type::EnumInstance { name, args }, Type::EnumInstance { name: inferred_name, .. }) => {
            str_eq(name.as_str(), inferred_name.as_str()) && any_contains_type_param(args)
        },
        _ => false,
    }
}

/// The concrete types of locals whose declared types are generic, inferred
/// from what the body assigns to them and from the enum payloads it binds.
pub fn infer_concrete_local_types(
    locals: &Vec<Local>,
    blocks: &Vec<BasicBlock>,
    signatures: &NameMap<FunctionSignature>,
    enum_layouts: &NameMap<EnumLayout>,
) -> (r: IdMap<Type>)
    ensures
        forall|id: u32|
            #[trigger] r.view_map().contains_key(id) ==> exists|i: int|
                0 <= i < locals@.len() && locals@[i].id == id && inference_may_replace(locals@[i].ty),
        distinct_local_ids(locals@) ==> forall|b: int, j: int, i: int|
            0 <= b < blocks@.len() && 0 <= j < blocks@[b].statements@.len() && 0 <= i < locals@.len()
                && locals@[i].ty is TypeParam && #[trigger] literal_let_of(blocks@[b].statements@[j], locals@[i].id)
                ==> r.view_map().contains_key(locals@[i].id),
{
    let mut local_types: IdMap<Type> = IdMap::new();
    let mut l: usize = 0;
    while l < locals.len()
        invariant
            l <= locals@.len(),
            forall|id: u32|
                #[trigger] local_types.view_map().contains_key(id) ==> exists|i: int|
                    0 <= i < l && locals@[i].id == id && same_type(local_types.view_map()[id], locals@[i].ty),
            distinct_local_ids(locals@) ==> forall|i: int|
                0 <= i < l ==> local_types.view_map().contains_key(#[trigger] locals@[i].id) && same_type(
                    local_types.view_map()[locals@[i].id],
                    locals@[i].ty,
                ),
        decreases locals@.len() - l,
    {
        let ty = clone_type(&locals[l].ty);
        local_types.insert(locals[l].id, ty);
        l += 1;
    }
    let mut overrides: IdMap<Type> = IdMap::new();
    let ctx = InferContext { local_types: &local_types, signatures, enum_layouts };
    let mut b: usize = 0;
    while b < blocks.len()
        invariant
            b <= blocks@.len(),
            ctx.local_types == &local_types,
            overrides_respect(local_types.view_map(), overrides.view_map()),
            forall|bb: int, j: int, id: u32|
                0 <= bb < b && 0 <= j < blocks@[bb].statements@.len() && #[trigger] literal_let_of(
                    blocks@[bb].statements@[j],
                    id,
                ) && local_types.view_map().contains_key(id) && local_types.view_map()[id] is TypeParam
                    ==> overrides.view_map().contains_key(id),
        decreases blocks@.len() - b,
    {
        let block = &blocks[b];
        let ghost before = overrides.view_map();
        infer_statements_concrete_local_types(&ctx, &block.statements, &mut overrides);
        let ghost after_statements = overrides.view_map();
        infer_terminator_concrete_local_types(&ctx, &block.terminator, &mut overrides);
        infer_match_test_branch_payload_types(&ctx, &block.terminator, blocks, &mut overrides);
        proof {
            assert forall|bb: int, j: int, id: u32|
                0 <= bb < b + 1 && 0 <= j < blocks@[bb].statements@.len() && #[trigger] literal_let_of(
                    blocks@[bb].statements@[j],
                    id,
                ) && local_types.view_map().contains_key(id) && local_types.view_map()[id] is TypeParam
                    implies overrides.view_map().contains_key(id) by {
                if bb < b {
                    assert(before.contains_key(id));
                } else {
                    assert(blocks@[bb] == *block);
                    assert(after_statements.contains_key(id));
                }
            }
        }
        b += 1;
    }
    proof {
        if distinct_local_ids(locals@) {
            assert forall|bb: int, j: int, i: int|
                0 <= bb < blocks@.len() && 0 <= j < blocks@[bb].statements@.len() && 0 <= i < locals@.len()
                    && locals@[i].ty is TypeParam && #[trigger] literal_let_of(blocks@[bb].statements@[j], locals@[i].id)
                    implies overrides.view_map().contains_key(locals@[i].id) by {
                assert(local_types.view_map().contains_key(locals@[i].id));
                assert(same_type(local_types.view_map()[locals@[i].id], locals@[i].ty));
            }
        }
        assert forall|id: u32| #[trigger] overrides.view_map().contains_key(id) implies exists|i: int|
            0 <= i < locals@.len() && locals@[i].id == id && inference_may_replace(locals@[i].ty) by {
            let i = choose|i: int|
                0 <= i < locals@.len() && locals@[i].id == id && same_type(local_types.view_map()[id], locals@[i].ty);
            lemma_same_type_may_replace(local_types.view_map()[id], locals@[i].ty);
        }
    }
    overrides
}

/// What local type inference reads: the declared local types, the signatures
/// and the enum layouts.
pub struct InferContext<'a> {
    pub local_types: &'a IdMap<Type>,
    pub signatures: &'a NameMap<FunctionSignature>,
    pub enum_layouts: &'a NameMap<EnumLayout>,
}

fn infer_statements_concrete_local_types(
    ctx: &InferContext,
    statements: &Vec<Statement>,
    overrides: &mut IdMap<Type>,
)
    requires
        overrides_respect(ctx.local_types.view_map(), old(overrides).view_map()),
    ensures
        overrides_respect(ctx.local_types.view_map(), final(overrides).view_map()),
        keeps_override_keys(old(overrides).view_map(), final(overrides).view_map()),
        forall|j: int, id: u32|
            0 <= j < statements@.len() && #[trigger] literal_let_of(statements@[j], id)
                && ctx.local_types.view_map().contains_key(id) && ctx.local_types.view_map()[id] is TypeParam
                ==> final(overrides).view_map().contains_key(id),
    decreases statements, 0nat,
{
    let mut i: usize = 0;
    while i < statements.len()
        invariant
            i <= statements@.len(),
            overrides_respect(ctx.local_types.view_map(), overrides.view_map()),
            keeps_override_keys(old(overrides).view_map(), overrides.view_map()),
            forall|j: int, id: u32|
                0 <= j < i && #[trigger] literal_let_of(statements@[j], id)
                    && ctx.local_types.view_map().contains_key(id) && ctx.local_types.view_map()[id] is TypeParam
                    ==> overrides.view_map().contains_key(id),
        decreases statements@.len() - i,
    {
        assert(decreases_to!(statements => statements@[i as int]));
        let ghost before = overrides.view_map();
        infer_statement_concrete_local_types(ctx, &statements[i], overrides);
        proof {
            assert forall|j: int, id: u32|
                0 <= j < i + 1 && #[trigger] literal_let_of(statements@[j], id)
                    && ctx.local_types.view_map().contains_key(id) && ctx.local_types.view_map()[id] is TypeParam
                    implies overrides.view_map().contains_key(id) by {
                if j < i {
                    assert(before.contains_key(id));
                }
            }
        }
        i += 1;
    }
}

fn infer_statement_concrete_local_types(
    ctx: &InferContext,
    statement: &Statement,
    overrides: &mut IdMap<Type>,
)
    requires
        overrides_respect(ctx.local_types.view_map(), old(overrides).view_map()),
    ensures
        overrides_respect(ctx.local_types.view_map(), final(overrides).view_map()),
        keeps_override_keys(old(overrides).view_map(), final(overrides).view_map()),
        *statement matches Statement::Let { local, initializer, .. } ==> (literal_type(initializer) matches Some(t) ==> (
        ctx.local_types.view_map().contains_key(local) && ctx.local_types.view_map()[local] is TypeParam
            ==> final(overrides).view_map().contains_key(local) && same_type(final(overrides).view_map()[local], t))),
    decreases statement, 1nat,
{
    match statement {
        Statement::Let { local, initializer, .. } => {
            infer_expr_concrete_local_types(ctx, initializer, overrides);
            match static_expr_type_with_signatures(initializer, ctx.local_types, overrides, ctx.signatures) {
                Some(inferred) => match ctx.local_types.get(*local) {
                    Some(declared) => {
                        if should_override_local_type(declared, &inferred) {
                            overrides.insert(*local, inferred);
                        }
                    },
                    None => {},
                },
                None => {},
            }
        },
        Statement::Eval { expr } => infer_expr_concrete_local_types(ctx, expr, overrides),
        Statement::Assign { value, .. } => infer_expr_concrete_local_types(ctx, value, overrides),
    }
}

fn infer_terminator_concrete_local_types(
    ctx: &InferContext,
    terminator: &Terminator,
    overrides: &mut IdMap<Type>,
)
    requires
        overrides_respect(ctx.local_types.view_map(), old(overrides).view_map()),
    ensures
        overrides_respect(ctx.local_types.view_map(), final(overrides).view_map()),
        keeps_override_keys(old(overrides).view_map(), final(overrides).view_map()),
{
    match terminator {
        Terminator::Branch { condition, .. } => infer_expr_concrete_local_types(ctx, condition, overrides),
        Terminator::Return { value } => infer_expr_concrete_local_types(ctx, value, overrides),
        Terminator::Goto { .. } | Terminator::Unreachable => {},
    }
}

/// The payload type of variant `variant` of an enum layout, if it carries one.
pub fn variant_payload_type(layout: &EnumLayout, variant: &str) -> (r: Option<Type>)
    ensures
        r is Some <==> exists|i: int|
            is_first_variant(layout.variants@, variant@, i) && layout.variants@[i].payload_ax_ty is Some,
        r matches Some(t) ==> exists|i: int|
            is_first_variant(layout.variants@, variant@, i) && (
            layout.variants@[i].payload_ax_ty matches Some(p) && same_type(t, p)),
{
    let mut i: usize = 0;
    while i < layout.variants.len()
        invariant
            i <= layout.variants@.len(),
            forall|j: int| 0 <= j < i ==> layout.variants@[j].name@ != variant@,
        decreases layout.variants@.len() - i,
    {
        if str_eq(layout.variants[i].name.as_str(), variant) {
            assert(is_first_variant(layout.variants@, variant@, i as int));
            return match &layout.variants[i].payload_ax_ty {
                Some(t) => Some(clone_type(t)),
                None => None,
            };
        }
        i += 1;
    }
    None
}

fn infer_match_test_branch_payload_types(
    ctx: &InferContext,
    terminator: &Terminator,
    blocks: &Vec<BasicBlock>,
    overrides: &mut IdMap<Type>,
)
    requires
        overrides_respect(ctx.local_types.view_map(), old(overrides).view_map()),
    ensures
        overrides_respect(ctx.local_types.view_map(), final(overrides).view_map()),
        keeps_override_keys(old(overrides).view_map(), final(overrides).view_map()),
{
    let (condition, then_block) = match terminator {
        Terminator::Branch { condition, then_block, .. } => (condition, *then_block),
        _ => return ,
    };
    let (scrutinee, pattern) = match condition {
        Expr::MatchTest { scrutinee, pattern } => (scrutinee, pattern),
        _ => return ,
    };
    let (variant, name) = match pattern {
        MatchPattern::EnumVariant {
            variant,
            payload: Some(EnumVariantPayloadPattern::Binding { name }),
            ..
        } => (variant, name),
        _ => return ,
    };
    let scrutinee_ty = match static_expr_type_with_signatures(
        scrutinee,
        ctx.local_types,
        overrides,
        ctx.signatures,
    ) {
        Some(t) => t,
        None => return ,
    };
    let layout = match enum_layout_for_static_type(&scrutinee_ty, ctx.enum_layouts) {
        Some(layout) => layout,
        None => return ,
    };
    let payload_ty = match variant_payload_type(layout, variant.as_str()) {
        Some(t) => t,
        None => return ,
    };
    let mut target: Option<&BasicBlock> = None;
    let mut i: usize = 0;
    while i < blocks.len()
        invariant
            i <= blocks@.len(),
        decreases blocks@.len() - i,
    {
        if blocks[i].id == then_block {
            target = Some(&blocks[i]);
            break;
        }
        i += 1;
    }
    let target_block = match target {
        Some(block) => block,
        None => return ,
    };
    let local = match find_local_declaration_by_name(target_block, name.as_str()) {
        Some(local) => local,
        None => return ,
    };
    match ctx.local_types.get(local) {
        Some(declared) => {
            if should_override_local_type(declared, &payload_ty) {
                overrides.insert(local, payload_ty);
            }
        },
        None => {},
    }
}

/// `statement` is a `let` that declares `name`.
pub open spec fn declares(statement: Statement, name: Seq<char>) -> bool {
    statement matches Statement::Let { name: n, .. } && n@ == name
}

/// Statement `i` is the first `let` of `statements` that declares `name`.
pub open spec fn is_first_declaration(statements: Seq<Statement>, name: Seq<char>, i: int) -> bool {
    &&& 0 <= i < statements.len()
    &&& declares(statements[i], name)
    &&& forall|j: int| 0 <= j < i ==> !declares(#[trigger] statements[j], name)
}

/// The local that the first `let name` of a block declares.
pub fn find_local_declaration_by_name(block: &BasicBlock, name: &str) -> (r: Option<u32>)
    ensures
        r matches Some(local) ==> exists|i: int|
            is_first_declaration(block.statements@, name@, i) && (
            block.statements@[i] matches Statement::Let { local: l, .. } && l == local),
        r is None ==> forall|j: int|
            0 <= j < block.statements@.len() ==> !declares(#[trigger] block.statements@[j], name@),
{
    let mut i: usize = 0;
    while i < block.statements.len()
        invariant
            i <= block.statements@.len(),
            forall|j: int| 0 <= j < i ==> !declares(#[trigger] block.statements@[j], name@),
        decreases block.statements@.len() - i,
    {
        match &block.statements[i] {
            Statement::Let { local, name: local_name, .. } => {
                if str_eq(local_name.as_str(), name) {
                    assert(is_first_declaration(block.statements@, name@, i as int));
                    return Some(*local);
                }
            },
            _ => {},
        }
        i += 1;
    }
    None
}

fn infer_exprs_concrete_local_types(ctx: &InferContext, exprs: &Vec<Expr>, overrides: &mut IdMap<Type>)
    requires
        overrides_respect(ctx.local_types.view_map(), old(overrides).view_map()),
    ensures
        overrides_respect(ctx.local_types.view_map(), final(overrides).view_map()),
        keeps_override_keys(old(overrides).view_map(), final(overrides).view_map()),
    decreases exprs, 0nat,
{
    let mut i: usize = 0;
    while i < exprs.len()
        invariant
            i <= exprs@.len(),
            overrides_respect(ctx.local_types.view_map(), overrides.view_map()),
            keeps_override_keys(old(overrides).view_map(), overrides.view_map()),
        decreases exprs@.len() - i,
    {
        assert(decreases_to!(exprs => exprs@[i as int]));
        infer_expr_concrete_local_types(ctx, &exprs[i], overrides);
        i += 1;
    }
}

fn infer_fields_concrete_local_types(
    ctx: &InferContext,
    fields: &Vec<StructLiteralField>,
    overrides: &mut IdMap<Type>,
)
    requires
        overrides_respect(ctx.local_types.view_map(), old(overrides).view_map()),
    ensures
        overrides_respect(ctx.local_types.view_map(), final(overrides).view_map()),
        keeps_override_keys(old(overrides).view_map(), final(overrides).view_map()),
    decreases fields, 0nat,
{
    let mut i: usize = 0;
    while i < fields.len()
        invariant
            i <= fields@.len(),
            overrides_respect(ctx.local_types.view_map(), overrides.view_map()),
            keeps_override_keys(old(overrides).view_map(), overrides.view_map()),
        decreases fields@.len() - i,
    {
        assert(decreases_to!(fields => fields@[i as int]));
        assert(decreases_to!(fields@[i as int] => fields@[i as int].value));
        infer_expr_concrete_local_types(ctx, &fields[i].value, overrides);
        i += 1;
    }
}

/// Arm `arm` of a match over an enum laid out as `layout` binds the payload
/// of a variant that carries one to the local `id`, the first local the arm
/// reads under that name, whose declared type is a type parameter or a
/// generic enum instance.
pub open spec fn binds_payload_local(local_types: Map<u32, Type>, layout: EnumLayout, arm: MatchExprArm, id: u32) -> bool {
    &&& arm.pattern matches MatchPattern::EnumVariant {
        variant,
        payload: Some(EnumVariantPayloadPattern::Binding { name }),
        ..
    } && (exists|i: int| is_first_variant(layout.variants@, variant@, i) && layout.variants@[i].payload_ax_ty is Some)
        && first_named(arm_reads(arm), name@) == Some(id)
    &&& local_types.contains_key(id)
    &&& (local_types[id] is TypeParam || local_types[id] is EnumInstance)
}

fn infer_arms_concrete_local_types(
    ctx: &InferContext,
    arms: &Vec<MatchExprArm>,
    layout: Option<&EnumLayout>,
    overrides: &mut IdMap<Type>,
)
    requires
        overrides_respect(ctx.local_types.view_map(), old(overrides).view_map()),
    ensures
        overrides_respect(ctx.local_types.view_map(), final(overrides).view_map()),
        keeps_override_keys(old(overrides).view_map(), final(overrides).view_map()),
        layout matches Some(l) ==> forall|i: int, id: u32|
            0 <= i < arms@.len() && #[trigger] binds_payload_local(ctx.local_types.view_map(), *l, arms@[i], id)
                ==> final(overrides).view_map().contains_key(id),
    decreases arms, 0nat,
{
    let mut i: usize = 0;
    while i < arms.len()
        invariant
            i <= arms@.len(),
            overrides_respect(ctx.local_types.view_map(), overrides.view_map()),
            keeps_override_keys(old(overrides).view_map(), overrides.view_map()),
            layout matches Some(l) ==> forall|j: int, id: u32|
                0 <= j < i && #[trigger] binds_payload_local(ctx.local_types.view_map(), *l, arms@[j], id)
                    ==> overrides.view_map().contains_key(id),
        decreases arms@.len() - i,
    {
        assert(decreases_to!(arms => arms@[i as int]));
        let arm = &arms[i];
        let ghost start = overrides.view_map();
        match layout {
            Some(layout) => match &arm.pattern {
                MatchPattern::EnumVariant {
                    variant,
                    payload: Some(EnumVariantPayloadPattern::Binding { name }),
                    ..
                } => match variant_payload_type(layout, variant.as_str()) {
                    Some(payload_ty) => match find_local_use_by_name_in_match_arm(arm, name.as_str()) {
                        Some(local) => {
                            let generic = match ctx.local_types.get(local) {
                                Some(Type::TypeParam { .. }) | Some(Type::EnumInstance { .. }) => true,
                                _ => false,
                            };
                            if generic {
                                overrides.insert(local, payload_ty);
                            }
                            proof {
                                assert forall|id: u32| binds_payload_local(ctx.local_types.view_map(), *layout, *arm, id) implies overrides.view_map().contains_key(id) by {
                                    assert(id == local);
                                }
                            }
                        },
                        None => {},
                    },
                    None => {},
                },
                _ => {},
            },
            None => {},
        }
        proof {
            assert(keeps_override_keys(start, overrides.view_map()));
        }
        let ghost after_pattern = overrides.view_map();
        match &arm.guard {
            Some(guard) => infer_expr_concrete_local_types(ctx, guard, overrides),
            None => {},
        }
        infer_expr_concrete_local_types(ctx, &arm.value, overrides);
        proof {
            assert(keeps_override_keys(after_pattern, overrides.view_map()));
            if let Some(l) = layout {
                assert forall|j: int, id: u32|
                    0 <= j < i + 1 && #[trigger] binds_payload_local(ctx.local_types.view_map(), *l, arms@[j], id)
                        implies overrides.view_map().contains_key(id) by {
                    if j < i {
                        assert(start.contains_key(id));
                    } else {
                        assert(arms@[j] == *arm);
                        assert(after_pattern.contains_key(id));
                    }
                }
            }
        }
        i += 1;
    }
}

fn infer_expr_concrete_local_types(ctx: &InferContext, expr: &Expr, overrides: &mut IdMap<Type>)
    requires
        overrides_respect(ctx.local_types.view_map(), old(overrides).view_map()),
    ensures
        overrides_respect(ctx.local_types.view_map(), final(overrides).view_map()),
        keeps_override_keys(old(overrides).view_map(), final(overrides).view_map()),
        *expr is Local || literal_type(*expr) is Some ==> final(overrides).view_map() == old(overrides).view_map(),
        *expr matches Expr::Match { scrutinee, arms } ==> (*scrutinee matches Expr::Local { local: s, .. } ==> (
        local_static_type(ctx.local_types.view_map(), old(overrides).view_map(), s) matches Some(t) ==> ((t is Enum
            || t is EnumInstance) ==> (ctx.enum_layouts.spec_get(ax_name_of(t)) matches Some(layout) ==> forall|
            i: int,
            id: u32,
        |
            0 <= i < arms@.len() && #[trigger] binds_payload_local(ctx.local_types.view_map(), layout, arms@[i], id)
                ==> final(overrides).view_map().contains_key(id))))),
    decreases expr, 1nat,
{
    match expr {
        Expr::Match { scrutinee, arms } => {
            infer_expr_concrete_local_types(ctx, scrutinee, overrides);
            let scrutinee_ty = static_expr_type_with_signatures(
                scrutinee,
                ctx.local_types,
                overrides,
                ctx.signatures,
            );
            let layout = match &scrutinee_ty {
                Some(t) => enum_layout_for_static_type(t, ctx.enum_layouts),
                None => None,
            };
            proof {
                if let Expr::Local { local: s, .. } = **scrutinee {
                    if let (Some(t), Some(u)) = (
                        local_static_type(ctx.local_types.view_map(), old(overrides).view_map(), s),
                        scrutinee_ty,
                    ) {
                        lemma_same_type_same_name(u, t);
                    }
                }
            }
            infer_arms_concrete_local_types(ctx, arms, layout, overrides);
        },
        Expr::Unary { expr: inner, .. } => infer_expr_concrete_local_types(ctx, inner, overrides),
        Expr::Try { expr: inner } => infer_expr_concrete_local_types(ctx, inner, overrides),
        Expr::EnumPayload { value } => infer_expr_concrete_local_types(ctx, value, overrides),
        Expr::Field { base, .. } => infer_expr_concrete_local_types(ctx, base, overrides),
        Expr::Binary { left, right, .. } => {
            infer_expr_concrete_local_types(ctx, left, overrides);
            infer_expr_concrete_local_types(ctx, right, overrides);
        },
        Expr::Call { arguments, .. } => infer_exprs_concrete_local_types(ctx, arguments, overrides),
        Expr::ArrayLiteral { elements } => infer_exprs_concrete_local_types(ctx, elements, overrides),
        Expr::StructLiteral { fields, .. } => infer_fields_concrete_local_types(ctx, fields, overrides),
        Expr::Block { statements, value } => {
            infer_statements_concrete_local_types(ctx, statements, overrides);
            infer_expr_concrete_local_types(ctx, value, overrides);
        },
        Expr::EnumVariant { payload, .. } => match payload {
            Some(payload) => infer_expr_concrete_local_types(ctx, payload, overrides),
            None => {},
        },
        Expr::MatchTest { scrutinee, .. } => infer_expr_concrete_local_types(ctx, scrutinee, overrides),
        Expr::Index { base, index } => {
            infer_expr_concrete_local_types(ctx, base, overrides);
            infer_expr_concrete_local_types(ctx, index, overrides);
        },
        Expr::Slice { base, start, end } => {
            infer_expr_concrete_local_types(ctx, base, overrides);
            infer_expr_concrete_local_types(ctx, start, overrides);
            infer_expr_concrete_local_types(ctx, end, overrides);
        },
        Expr::Int { .. } | Expr::Float { .. } | Expr::Bool { .. } | Expr::String { .. }
        | Expr::Local { .. } | Expr::Const { .. } => {},
    }
}

} // verus!
