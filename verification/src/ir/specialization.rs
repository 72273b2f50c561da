//! Reachability from `main` and the concrete instances of generic functions
//! and methods that reachable code calls.
use vstd::prelude::*;
use crate::id_map::IdMap;
use crate::mir::{
    clone_type, BasicBlock, same_type, same_types, type_eq, Expr, Function, Item, Local, MatchExprArm, Param, Place,
    Program, Statement, StructLiteralField, Terminator, Type,
};
use crate::name_map::{lemma_lookup_absent, NameMap};
use crate::text::{chars_of, concat, concat_all, decimal, joined, owned, push_char, str_eq, usize_to_decimal};
use super::infer::static_expr_type;
use super::layout::{
    contains_type_param, extends, instance_of, instances_of, lemma_instance_of_binds_params, lemma_instance_of_extends,
    lemma_instance_of_unique, params_bound, substitute_type_params, substituted,
};
use super::support::{ax_name_of, ax_type_name};

verus! {

/// A concrete instance of a generic function: its key `name<A, B>`, the
/// generic function it instantiates and the type arguments.
#[derive(Debug, Clone)]
pub struct FunctionSpecialization {
    pub key: String,
    pub source_name: String,
    pub substitutions: NameMap<Type>,
}

/// The non-generic functions and the specializations reachable from `main`.
pub struct ReachableFunctions {
    pub functions: NameMap<()>,
    pub specializations: NameMap<()>,
}

/// `later` still holds every function and specialization that `earlier` holds.
pub open spec fn keeps_reachable(earlier: ReachableFunctions, later: ReachableFunctions) -> bool {
    &&& forall|k: Seq<char>|
        #[trigger] earlier.functions.spec_get(k) is Some ==> later.functions.spec_get(k) is Some
    &&& forall|k: Seq<char>|
        #[trigger] earlier.specializations.spec_get(k) is Some ==> later.specializations.spec_get(k) is Some
}

/// `s`, stored under `key`, instantiates function `i` of `program`: a
/// generic function whose every type parameter `s` binds, under the key
/// `name<A, B>` that names those bindings.
pub open spec fn instantiates(program: Program, key: Seq<char>, s: FunctionSpecialization, i: int) -> bool {
    &&& 0 <= i < program.items@.len()
    &&& program.items@[i] matches Item::Function(f) && {
        &&& f.name@ == s.source_name@
        &&& f.type_params@.len() > 0
        &&& forall|p: int|
            0 <= p < f.type_params@.len() ==> (#[trigger] s.substitutions.spec_get(f.type_params@[p]@)) is Some
        &&& key == specialization_key(f.name@, f.type_params@, s.substitutions)
    }
}

/// Every specialization is stored under its own key and instantiates a
/// generic function of `program`.
pub open spec fn specializations_valid(program: Program, m: NameMap<FunctionSpecialization>) -> bool {
    forall|k: Seq<char>|
        #[trigger] m.spec_get(k) matches Some(s) ==> s.key@ == k && exists|i: int|
            instantiates(program, k, s, i)
}

/// `later` keeps every specialization of `earlier` unchanged.
pub open spec fn keeps_specializations(
    earlier: NameMap<FunctionSpecialization>,
    later: NameMap<FunctionSpecialization>,
) -> bool {
    forall|k: Seq<char>| #[trigger] earlier.spec_get(k) is Some ==> later.spec_get(k) == earlier.spec_get(k)
}

/// Every reachable function is `main` or a non-generic function of `program`.
pub open spec fn reachable_defined(program: Program, reachable: ReachableFunctions) -> bool {
    forall|k: Seq<char>|
        #[trigger] reachable.functions.spec_get(k) is Some ==> k == "main"@ || exists|i: int|
            0 <= i < program.items@.len() && #[trigger] defines_plain_function(program.items@[i], k)
}

/// `item` is a function without type parameters named `name`.
pub open spec fn defines_plain_function(item: Item, name: Seq<char>) -> bool {
    item matches Item::Function(f) && f.name@ == name && f.type_params@.len() == 0
}

/// The first function of `program` named `name` exists and has no type
/// parameters: a call to `name` makes it reachable.
pub open spec fn first_definition_plain(program: Program, name: Seq<char>) -> bool {
    exists|i: int|
        0 <= i < program.items@.len() && #[trigger] defines_plain_function(program.items@[i], name) && forall|j: int|
            0 <= j < i ==> !defines_function(#[trigger] program.items@[j], name)
}

/// The first function of `program` named `name` exists and is generic.
pub open spec fn first_definition_generic(program: Program, name: Seq<char>) -> bool {
    exists|i: int|
        0 <= i < program.items@.len() && (#[trigger] program.items@[i] matches Item::Function(f) && f.name@ == name
            && f.type_params@.len() > 0) && forall|j: int|
            0 <= j < i ==> !defines_function(#[trigger] program.items@[j], name)
}

/// `function` names a function directly rather than a method.
pub open spec fn direct_call(function: Seq<char>) -> bool {
    !(function.len() >= 9 && function.take(9) == method_prefix())
}

/// Every callee in `calls` whose first definition is a plain function is
/// reachable.
pub open spec fn calls_reached(program: Program, reachable: ReachableFunctions, calls: Seq<Seq<char>>) -> bool {
    forall|i: int|
        0 <= i < calls.len() && direct_call(#[trigger] calls[i]) && first_definition_plain(program, calls[i])
            ==> reachable.functions.spec_get(calls[i]) is Some
}

/// The callees an expression names, left to right: function names of direct
/// calls, and `<method>.m` for method calls.
pub open spec fn expr_calls(expr: Expr) -> Seq<Seq<char>>
    decreases expr, 1nat,
{
    match expr {
        Expr::Call { function, arguments } => seq![function@] + exprs_calls(arguments@),
        Expr::Unary { expr: inner, .. } => expr_calls(*inner),
        Expr::Try { expr: inner } => expr_calls(*inner),
        Expr::EnumPayload { value } => expr_calls(*value),
        Expr::Field { base, .. } => expr_calls(*base),
        Expr::Binary { left, right, .. } => expr_calls(*left) + expr_calls(*right),
        Expr::ArrayLiteral { elements } => exprs_calls(elements@),
        Expr::StructLiteral { fields, .. } => fields_calls(fields@),
        Expr::Block { statements, value } => statements_calls(statements@) + expr_calls(*value),
        Expr::Match { scrutinee, arms } => expr_calls(*scrutinee) + arms_calls(arms@),
        Expr::EnumVariant { payload, .. } => match payload {
            Some(inner) => expr_calls(*inner),
            None => Seq::empty(),
        },
        Expr::MatchTest { scrutinee, .. } => expr_calls(*scrutinee),
        Expr::Index { base, index } => expr_calls(*base) + expr_calls(*index),
        Expr::Slice { base, start, end } => expr_calls(*base) + expr_calls(*start) + expr_calls(*end),
        _ => Seq::empty(),
    }
}

/// The functions a list of expressions calls directly.
pub open spec fn exprs_calls(items: Seq<Expr>) -> Seq<Seq<char>>
    decreases items, 0nat,
{
    if items.len() == 0 {
        Seq::empty()
    } else {
        exprs_calls(items.drop_last()) + expr_calls(items.last())
    }
}

/// The functions the values of struct literal fields call directly.
pub open spec fn fields_calls(items: Seq<StructLiteralField>) -> Seq<Seq<char>>
    decreases items, 0nat,
{
    if items.len() == 0 {
        Seq::empty()
    } else {
        fields_calls(items.drop_last()) + expr_calls(items.last().value)
    }
}

/// The functions a match arm's guard calls directly, if it has one.
pub open spec fn guard_calls(guard: Option<Expr>) -> Seq<Seq<char>>
    decreases guard, 0nat,
{
    match guard {
        Some(guard) => expr_calls(guard),
        None => Seq::empty(),
    }
}

/// The functions a list of match arms calls directly: guards, then values.
pub open spec fn arms_calls(items: Seq<MatchExprArm>) -> Seq<Seq<char>>
    decreases items, 0nat,
{
    if items.len() == 0 {
        Seq::empty()
    } else {
        arms_calls(items.drop_last()) + guard_calls(items.last().guard) + expr_calls(items.last().value)
    }
}

/// The functions an assignment target calls directly.
pub open spec fn place_calls(place: Place) -> Seq<Seq<char>>
    decreases place, 1nat,
{
    match place {
        Place::Local { .. } => Seq::empty(),
        Place::Field { base, .. } => place_calls(*base),
        Place::Index { base, index } => place_calls(*base) + expr_calls(*index),
    }
}

/// The functions a statement calls directly.
pub open spec fn statement_calls(statement: Statement) -> Seq<Seq<char>>
    decreases statement, 1nat,
{
    match statement {
        Statement::Let { initializer, .. } => expr_calls(initializer),
        Statement::Eval { expr } => expr_calls(expr),
        Statement::Assign { target, value } => place_calls(target) + expr_calls(value),
    }
}

/// The functions a list of statements calls directly.
pub open spec fn statements_calls(items: Seq<Statement>) -> Seq<Seq<char>>
    decreases items, 0nat,
{
    if items.len() == 0 {
        Seq::empty()
    } else {
        statements_calls(items.drop_last()) + statement_calls(items.last())
    }
}

/// The functions a block's terminator calls directly.
pub open spec fn terminator_calls(terminator: Terminator) -> Seq<Seq<char>> {
    match terminator {
        Terminator::Branch { condition, .. } => expr_calls(condition),
        Terminator::Return { value } => expr_calls(value),
        _ => Seq::empty(),
    }
}

/// The functions the blocks of a function body call directly, block by block:
/// statements, then terminator.
pub open spec fn blocks_calls(items: Seq<BasicBlock>) -> Seq<Seq<char>>
    decreases items.len(),
{
    if items.len() == 0 {
        Seq::empty()
    } else {
        blocks_calls(items.drop_last()) + statements_calls(items.last().statements@) + terminator_calls(
            items.last().terminator,
        )
    }
}

/// Item `i` is the first definition named `name`, a function without type
/// parameters.
pub open spec fn first_plain_at(program: Program, name: Seq<char>, i: int) -> bool {
    0 <= i < program.items@.len() && defines_plain_function(program.items@[i], name) && forall|j: int|
        0 <= j < i ==> !defines_function(#[trigger] program.items@[j], name)
}

/// The functions that the body of item `i` calls directly.
pub open spec fn item_calls(program: Program, i: int) -> Seq<Seq<char>> {
    match program.items@[i] {
        Item::Function(f) => blocks_calls(f.blocks@),
        _ => Seq::empty(),
    }
}

/// When `name` is a plain function (not a specialization), every function
/// its body calls directly, whose first definition is plain, is reachable.
pub open spec fn callees_reached(
    program: Program,
    reachable: ReachableFunctions,
    specializations: NameMap<FunctionSpecialization>,
    name: Seq<char>,
) -> bool {
    specializations.spec_get(name) is None ==> forall|i: int|
        #[trigger] first_plain_at(program, name, i) ==> calls_reached(program, reachable, item_calls(program, i))
}

/// Callee coverage survives reachability and specializations growing.
pub proof fn lemma_callees_reached_kept(
    program: Program,
    r1: ReachableFunctions,
    r2: ReachableFunctions,
    s1: NameMap<FunctionSpecialization>,
    s2: NameMap<FunctionSpecialization>,
    name: Seq<char>,
)
    requires
        callees_reached(program, r1, s1, name),
        keeps_reachable(r1, r2),
        keeps_specializations(s1, s2),
    ensures
        callees_reached(program, r2, s2, name),
{
    if s2.spec_get(name) is None {
        assert(s1.spec_get(name) is None);
        assert forall|i: int| #[trigger] first_plain_at(program, name, i) implies calls_reached(
            program,
            r2,
            item_calls(program, i),
        ) by {
            lemma_calls_reached_kept(program, r1, r2, item_calls(program, i));
        }
    }
}

/// Every function that `reachable` holds has been queued in `pending`.
pub open spec fn pending_covers(reachable: ReachableFunctions, pending: Seq<String>) -> bool {
    forall|k: Seq<char>|
        #[trigger] reachable.functions.spec_get(k) is Some ==> exists|j: int| 0 <= j < pending.len() && pending[j]@ == k
}

/// `after` keeps `before` as its first names.
pub open spec fn queue_extends(before: Seq<String>, after: Seq<String>) -> bool {
    before.len() <= after.len() && forall|j: int| 0 <= j < before.len() ==> #[trigger] after[j] == before[j]
}

/// Queueing more names keeps every queued function covered.
pub proof fn lemma_pending_covers_extends(reachable: ReachableFunctions, before: Seq<String>, after: Seq<String>)
    requires
        pending_covers(reachable, before),
        queue_extends(before, after),
    ensures
        pending_covers(reachable, after),
{
    assert forall|k: Seq<char>| #[trigger] reachable.functions.spec_get(k) is Some implies exists|j: int|
        0 <= j < after.len() && after[j]@ == k by {
        let j = choose|j: int| 0 <= j < before.len() && before[j]@ == k;
        assert(after[j] == before[j]);
    }
}

/// Coverage of `a` and of `b` is coverage of `a + b`.
pub proof fn lemma_calls_reached_concat(
    program: Program,
    reachable: ReachableFunctions,
    a: Seq<Seq<char>>,
    b: Seq<Seq<char>>,
)
    requires
        calls_reached(program, reachable, a),
        calls_reached(program, reachable, b),
    ensures
        calls_reached(program, reachable, a + b),
{
    assert forall|i: int| 0 <= i < (a + b).len() && direct_call(#[trigger] (a + b)[i]) && first_definition_plain(program, (a + b)[i]) implies reachable.functions.spec_get(
        (a + b)[i],
    ) is Some by {
        if i < a.len() {
            assert((a + b)[i] == a[i]);
        } else {
            assert((a + b)[i] == b[i - a.len()]);
        }
    }
}

/// `message` names `name` between backticks.
pub open spec fn names_function(message: Seq<char>, name: Seq<char>) -> bool {
    exists|before: Seq<char>, after: Seq<char>| message == before + "`"@ + name + "`"@ + after
}

/// The generic function `name` has a specialization in `specializations`, or
/// a message of `messages` from index `from` on names it.
pub open spec fn call_settled(
    specializations: NameMap<FunctionSpecialization>,
    messages: Seq<String>,
    from: int,
    name: Seq<char>,
) -> bool {
    ||| exists|type_params: Seq<String>, subs: NameMap<Type>|
        #[trigger] specializations.spec_get(specialization_key(name, type_params, subs)) is Some
    ||| exists|j: int| from <= j < messages.len() && names_function(#[trigger] messages[j]@, name)
}

/// Every callee in `calls` whose first definition is generic is settled:
/// specialized, or named by a message from index `from` on.
pub open spec fn generic_calls_settled(
    program: Program,
    specializations: NameMap<FunctionSpecialization>,
    messages: Seq<String>,
    from: int,
    calls: Seq<Seq<char>>,
) -> bool {
    forall|i: int|
        0 <= i < calls.len() && direct_call(#[trigger] calls[i]) && first_definition_generic(program, calls[i])
            ==> call_settled(specializations, messages, from, calls[i])
}

/// Settled calls stay settled as specializations and messages grow, and
/// when fewer old messages count.
pub proof fn lemma_generic_calls_settled_kept(
    program: Program,
    s1: NameMap<FunctionSpecialization>,
    s2: NameMap<FunctionSpecialization>,
    m1: Seq<String>,
    m2: Seq<String>,
    from1: int,
    from2: int,
    calls: Seq<Seq<char>>,
)
    requires
        generic_calls_settled(program, s1, m1, from1, calls),
        keeps_specializations(s1, s2),
        queue_extends(m1, m2),
        0 <= from2 <= from1,
    ensures
        generic_calls_settled(program, s2, m2, from2, calls),
{
    assert forall|i: int| 0 <= i < calls.len() && direct_call(#[trigger] calls[i]) && first_definition_generic(program, calls[i]) implies call_settled(
        s2,
        m2,
        from2,
        calls[i],
    ) by {
        let name = calls[i];
        assert(call_settled(s1, m1, from1, name));
        if exists|type_params: Seq<String>, subs: NameMap<Type>|
            #[trigger] s1.spec_get(specialization_key(name, type_params, subs)) is Some {
            let (tp, subs) = choose|type_params: Seq<String>, subs: NameMap<Type>|
                #[trigger] s1.spec_get(specialization_key(name, type_params, subs)) is Some;
            assert(s2.spec_get(specialization_key(name, tp, subs)) is Some);
        } else {
            let j = choose|j: int| from1 <= j < m1.len() && names_function(#[trigger] m1[j]@, name);
            assert(m2[j] == m1[j]);
            assert(from2 <= j < m2.len() && names_function(m2[j]@, name));
        }
    }
}

/// Settled calls of two lists are settled together.
pub proof fn lemma_generic_calls_settled_concat(
    program: Program,
    specializations: NameMap<FunctionSpecialization>,
    messages: Seq<String>,
    from: int,
    a: Seq<Seq<char>>,
    b: Seq<Seq<char>>,
)
    requires
        generic_calls_settled(program, specializations, messages, from, a),
        generic_calls_settled(program, specializations, messages, from, b),
    ensures
        generic_calls_settled(program, specializations, messages, from, a + b),
{
    assert forall|i: int| 0 <= i < (a + b).len() && direct_call(#[trigger] (a + b)[i]) && first_definition_generic(program, (a + b)[i]) implies call_settled(
        specializations,
        messages,
        from,
        (a + b)[i],
    ) by {
        if i < a.len() {
            assert((a + b)[i] == a[i]);
        } else {
            assert((a + b)[i] == b[i - a.len()]);
        }
    }
}

/// Calls settled before a later walk, and the calls that walk settled, are
/// settled together at its end.
pub proof fn lemma_generic_calls_settled_then(
    program: Program,
    s1: NameMap<FunctionSpecialization>,
    s2: NameMap<FunctionSpecialization>,
    m1: Seq<String>,
    m2: Seq<String>,
    from: int,
    a: Seq<Seq<char>>,
    b: Seq<Seq<char>>,
)
    requires
        generic_calls_settled(program, s1, m1, from, a),
        generic_calls_settled(program, s2, m2, m1.len() as int, b),
        keeps_specializations(s1, s2),
        queue_extends(m1, m2),
        0 <= from <= m1.len(),
    ensures
        generic_calls_settled(program, s2, m2, from, a + b),
{
    lemma_generic_calls_settled_kept(program, s1, s2, m1, m2, from, from, a);
    lemma_generic_calls_settled_kept(program, s2, s2, m2, m2, m1.len() as int, from, b);
    lemma_generic_calls_settled_concat(program, s2, m2, from, a, b);
}

/// A message that names `function` between backticks, with `before` ahead
/// of it and `after` behind it.
fn quoted_message(before: &str, function: &str, after: &str) -> (r: String)
    ensures
        r@ == before@ + "`"@ + function@ + "`"@ + after@,
        names_function(r@, function@),
{
    let r = concat(&[before, "`", function, "`", after]);
    proof {
        reveal_with_fuel(concat_all, 6);
        assert(r@ =~= before@ + "`"@ + function@ + "`"@ + after@);
    }
    r
}

/// Coverage survives reachability growing.
pub proof fn lemma_calls_reached_kept(
    program: Program,
    earlier: ReachableFunctions,
    later: ReachableFunctions,
    calls: Seq<Seq<char>>,
)
    requires
        calls_reached(program, earlier, calls),
        keeps_reachable(earlier, later),
    ensures
        calls_reached(program, later, calls),
{
    assert forall|i: int| 0 <= i < calls.len() && direct_call(#[trigger] calls[i]) && first_definition_plain(program, calls[i]) implies later.functions.spec_get(
        calls[i],
    ) is Some by {
        assert(earlier.functions.spec_get(calls[i]) is Some);
    }
}

/// A call named `function` can reach the function `name`: a direct call
/// reaches the function it names, a method call `<method>.m` reaches a
/// method `T.m` of some type `T`.
pub open spec fn call_reaches(function: Seq<char>, name: Seq<char>) -> bool {
    if direct_call(function) {
        name == function
    } else {
        exists|t: Seq<char>| name == t + "."@ + function.skip(9)
    }
}

/// Some call among `calls` can reach `name`.
pub open spec fn reached_by(calls: Seq<Seq<char>>, name: Seq<char>) -> bool {
    exists|i: int| 0 <= i < calls.len() && call_reaches(#[trigger] calls[i], name)
}

/// Every function that `later` holds and `earlier` does not is reached by a
/// call among `calls`.
pub open spec fn adds_only_callees(earlier: ReachableFunctions, later: ReachableFunctions, calls: Seq<Seq<char>>) -> bool {
    forall|k: Seq<char>|
        #[trigger] later.functions.spec_get(k) is Some ==> earlier.functions.spec_get(k) is Some || reached_by(calls, k)
}

/// Functions added by two walks in a row are reached by the calls of the
/// first walk or of the second.
pub proof fn lemma_adds_only_callees_then(
    r0: ReachableFunctions,
    r1: ReachableFunctions,
    r2: ReachableFunctions,
    a: Seq<Seq<char>>,
    b: Seq<Seq<char>>,
)
    requires
        adds_only_callees(r0, r1, a),
        adds_only_callees(r1, r2, b),
    ensures
        adds_only_callees(r0, r2, a + b),
{
    assert forall|k: Seq<char>| #[trigger] r2.functions.spec_get(k) is Some implies r0.functions.spec_get(k) is Some
        || reached_by(a + b, k) by {
        if reached_by(b, k) {
            let i = choose|i: int| 0 <= i < b.len() && call_reaches(#[trigger] b[i], k);
            assert((a + b)[a.len() + i] == b[i]);
        } else if r1.functions.spec_get(k) is Some && reached_by(a, k) {
            let i = choose|i: int| 0 <= i < a.len() && call_reaches(#[trigger] a[i], k);
            assert((a + b)[i] == a[i]);
        }
    }
}

/// Item `i` is a function whose body reachability walks: a reachable
/// function of that name, or the source of a reachable specialization.
pub open spec fn walked_item(
    program: Program,
    reachable: ReachableFunctions,
    specializations: NameMap<FunctionSpecialization>,
    i: int,
) -> bool {
    &&& 0 <= i < program.items@.len()
    &&& program.items@[i] matches Item::Function(f) && (reachable.functions.spec_get(f.name@) is Some || exists|
        key: Seq<char>,
    |
        (reachable.functions.spec_get(key) is Some || reachable.specializations.spec_get(key) is Some)
            && (#[trigger] specializations.spec_get(key) matches Some(s) && s.source_name@ == f.name@))
}

/// A walked item stays walked as reachability and specializations grow.
pub proof fn lemma_walked_item_kept(
    program: Program,
    r1: ReachableFunctions,
    r2: ReachableFunctions,
    s1: NameMap<FunctionSpecialization>,
    s2: NameMap<FunctionSpecialization>,
    i: int,
)
    requires
        walked_item(program, r1, s1, i),
        keeps_reachable(r1, r2),
        keeps_specializations(s1, s2),
    ensures
        walked_item(program, r2, s2, i),
{
    let f = program.items@[i]->Function_0;
    if !(r1.functions.spec_get(f.name@) is Some) {
        let key = choose|key: Seq<char>|
            (r1.functions.spec_get(key) is Some || r1.specializations.spec_get(key) is Some)
                && (#[trigger] s1.spec_get(key) matches Some(s) && s.source_name@ == f.name@);
        assert(s2.spec_get(key) == s1.spec_get(key));
        assert(r2.functions.spec_get(key) is Some || r2.specializations.spec_get(key) is Some);
    }
}

/// Every reachable function other than `main` is reached by a call in the
/// body of a walked function: reachability adds nothing that `main` does
/// not lead to.
pub open spec fn reached_from_walked(
    program: Program,
    reachable: ReachableFunctions,
    specializations: NameMap<FunctionSpecialization>,
) -> bool {
    forall|k: Seq<char>|
        #[trigger] reachable.functions.spec_get(k) is Some ==> k == "main"@ || exists|i: int|
            walked_item(program, reachable, specializations, i) && reached_by(item_calls(program, i), k)
}

/// Every reachable specialization key has a specialization.
pub open spec fn specializations_known(
    reachable: ReachableFunctions,
    specializations: NameMap<FunctionSpecialization>,
) -> bool {
    forall|k: Seq<char>| #[trigger] reachable.specializations.spec_get(k) is Some ==> specializations.spec_get(k) is Some
}

/// Every queued name is a reachable function or a reachable specialization.
pub open spec fn queue_in(reachable: ReachableFunctions, pending: Seq<String>) -> bool {
    forall|j: int|
        0 <= j < pending.len() ==> reachable.functions.spec_get(#[trigger] pending[j]@) is Some
            || reachable.specializations.spec_get(pending[j]@) is Some
}

/// The number of functions and specializations whose bodies reachability
/// walks before it gives up on a program whose generic instances never stop
/// growing.
pub const REACHABILITY_BUDGET: usize = 100000;

/// `item` is a function named `name`.
pub open spec fn defines_function(item: Item, name: Seq<char>) -> bool {
    item matches Item::Function(f) && f.name@ == name
}

/// The first function named `target`.
pub fn find_function_source<'a>(program: &'a Program, target: &str) -> (r: Option<&'a Function>)
    ensures
        r matches Some(f) ==> f.name@ == target@ && exists|i: int|
            0 <= i < program.items@.len() && program.items@[i] == Item::Function(*f) && forall|j: int|
                0 <= j < i ==> !defines_function(#[trigger] program.items@[j], target@),
        r is None ==> forall|j: int|
            0 <= j < program.items@.len() ==> !defines_function(#[trigger] program.items@[j], target@),
{
    let mut i: usize = 0;
    while i < program.items.len()
        invariant
            i <= program.items@.len(),
            forall|j: int| 0 <= j < i ==> !defines_function(#[trigger] program.items@[j], target@),
        decreases program.items@.len() - i,
    {
        match &program.items[i] {
            Item::Function(function) => {
                if str_eq(function.name.as_str(), target) {
                    return Some(function);
                }
            },
            _ => {},
        }
        i += 1;
    }
    None
}

/// When `name` is a plain function, every generic function its body calls
/// directly is settled against `messages`.
pub open spec fn generic_callees_settled(
    program: Program,
    specializations: NameMap<FunctionSpecialization>,
    messages: Seq<String>,
    name: Seq<char>,
) -> bool {
    specializations.spec_get(name) is None ==> forall|i: int|
        #[trigger] first_plain_at(program, name, i) ==> generic_calls_settled(
            program,
            specializations,
            messages,
            0,
            item_calls(program, i),
        )
}

/// When `name` is a plain function, every generic function its body calls
/// directly has a specialization.
pub open spec fn generic_callees_specialized(
    program: Program,
    specializations: NameMap<FunctionSpecialization>,
    name: Seq<char>,
) -> bool {
    specializations.spec_get(name) is None ==> forall|i: int, c: int|
        #[trigger] first_plain_at(program, name, i) && 0 <= c < item_calls(program, i).len()
            && direct_call(#[trigger] item_calls(program, i)[c]) && first_definition_generic(program, item_calls(program, i)[c]) ==> exists|
            type_params: Seq<String>,
            subs: NameMap<Type>,
        | #[trigger] specializations.spec_get(specialization_key(item_calls(program, i)[c], type_params, subs)) is Some
}

/// Settled callees stay settled as specializations and messages grow.
pub proof fn lemma_generic_callees_settled_kept(
    program: Program,
    s1: NameMap<FunctionSpecialization>,
    s2: NameMap<FunctionSpecialization>,
    m1: Seq<String>,
    m2: Seq<String>,
    name: Seq<char>,
)
    requires
        generic_callees_settled(program, s1, m1, name),
        keeps_specializations(s1, s2),
        queue_extends(m1, m2),
    ensures
        generic_callees_settled(program, s2, m2, name),
{
    if s2.spec_get(name) is None {
        assert(s1.spec_get(name) is None);
        assert forall|i: int| #[trigger] first_plain_at(program, name, i) implies generic_calls_settled(
            program,
            s2,
            m2,
            0,
            item_calls(program, i),
        ) by {
            lemma_generic_calls_settled_kept(program, s1, s2, m1, m2, 0, 0, item_calls(program, i));
        }
    }
}

/// With no messages at all, settled callees are specialized.
pub proof fn lemma_generic_callees_specialized(
    program: Program,
    specializations: NameMap<FunctionSpecialization>,
    messages: Seq<String>,
    name: Seq<char>,
)
    requires
        generic_callees_settled(program, specializations, messages, name),
        messages.len() == 0,
    ensures
        generic_callees_specialized(program, specializations, name),
{
    if specializations.spec_get(name) is None {
        assert forall|i: int, c: int|
            #[trigger] first_plain_at(program, name, i) && 0 <= c < item_calls(program, i).len()
                && direct_call(#[trigger] item_calls(program, i)[c]) && first_definition_generic(program, item_calls(program, i)[c]) implies exists|
                type_params: Seq<String>,
                subs: NameMap<Type>,
            | #[trigger] specializations.spec_get(specialization_key(item_calls(program, i)[c], type_params, subs))
                is Some by {
            assert(call_settled(specializations, messages, 0, item_calls(program, i)[c]));
        }
    }
}

/// Walks the program from `main`: the non-generic functions it calls, and the
/// generic specializations it needs, with the specializations themselves.
pub fn collect_reachable_functions(program: &Program) -> (r: Result<
    (ReachableFunctions, NameMap<FunctionSpecialization>),
    Vec<String>,
>)
    ensures
        r matches Ok((reachable, _)) ==> reachable.functions.spec_get("main"@) is Some,
        r matches Ok((reachable, _)) ==> reachable_defined(*program, reachable),
        r matches Ok((_, specializations)) ==> specializations_valid(*program, specializations),
        r matches Ok((reachable, specializations)) ==> forall|k: Seq<char>|
            #[trigger] specializations.spec_get(k) is Some ==> reachable.specializations.spec_get(k) is Some,
        r matches Ok((reachable, specializations)) ==> forall|name: Seq<char>|
            #[trigger] reachable.functions.spec_get(name) is Some ==> callees_reached(
                *program,
                reachable,
                specializations,
                name,
            ),
        r matches Ok((reachable, specializations)) ==> forall|name: Seq<char>|
            #[trigger] reachable.functions.spec_get(name) is Some ==> generic_callees_specialized(
                *program,
                specializations,
                name,
            ),
        r matches Ok((reachable, specializations)) ==> reached_from_walked(*program, reachable, specializations),
        r matches Err(reasons) ==> reasons@.len() > 0,
{
    let mut reachable = ReachableFunctions { functions: NameMap::new(), specializations: NameMap::new() };
    let mut specializations: NameMap<FunctionSpecialization> = NameMap::new();
    let mut unsupported: Vec<String> = Vec::new();
    let mut pending: Vec<String> = Vec::new();
    let mut head: usize = 0;

    reachable.functions.insert(owned("main"), ());
    pending.push(owned("main"));
    proof {
        assert(pending@[0]@ == "main"@);
        assert forall|k: Seq<char>| #[trigger] reachable.functions.spec_get(k) is Some implies exists|j: int|
            0 <= j < pending@.len() && pending@[j]@ == k by {
            assert(k == "main"@);
            assert(pending@[0]@ == k);
        }
        assert(queue_in(reachable, pending@));
        assert(reached_from_walked(*program, reachable, specializations));
    }

    while head < pending.len()
        invariant
            head <= REACHABILITY_BUDGET,
            head <= pending@.len(),
            reachable.functions.spec_get("main"@) is Some,
            reachable_defined(*program, reachable),
            specializations_valid(*program, specializations),
            forall|k: Seq<char>|
                #[trigger] specializations.spec_get(k) is Some ==> reachable.specializations.spec_get(k) is Some,
            pending_covers(reachable, pending@),
            queue_in(reachable, pending@),
            specializations_known(reachable, specializations),
            reached_from_walked(*program, reachable, specializations),
            forall|j: int| 0 <= j < head ==> callees_reached(*program, reachable, specializations, #[trigger] pending@[j]@),
            forall|j: int|
                0 <= j < head ==> generic_callees_settled(*program, specializations, unsupported@, #[trigger] pending@[j]@),
        decreases REACHABILITY_BUDGET - head,
    {
        if head >= REACHABILITY_BUDGET {
            return Err(
                vec![
                    owned(
                        "generic specialization does not terminate: reachable instances keep growing",
                    ),
                ],
            );
        }
        let ghost reachable0 = reachable;
        let ghost specializations0 = specializations;
        let ghost pending0 = pending@;
        let ghost head0 = head;
        let signature_name = pending[head].clone();
        head += 1;
        let (source_name, substitutions) = match specializations.get(signature_name.as_str()) {
            Some(specialization) => (
                specialization.source_name.clone(),
                Some(specialization.substitutions.clone()),
            ),
            None => (signature_name, None),
        };
        let source = match find_function_source(program, source_name.as_str()) {
            Some(source) => source,
            None => {
                proof {
                    if specializations.spec_get(pending@[head0 as int]@) is None {
                        assert forall|i: int| #[trigger] first_plain_at(*program, pending@[head0 as int]@, i) implies calls_reached(
                            *program,
                            reachable,
                            item_calls(*program, i),
                        ) by {
                            assert(defines_function(program.items@[i], pending@[head0 as int]@));
                        }
                        assert forall|i: int| #[trigger] first_plain_at(*program, pending@[head0 as int]@, i) implies generic_calls_settled(
                            *program,
                            specializations,
                            unsupported@,
                            0,
                            item_calls(*program, i),
                        ) by {
                            assert(defines_function(program.items@[i], pending@[head0 as int]@));
                        }
                    }
                }
                continue;
            },
        };

        let ghost before = specializations;
        let ghost messages0 = unsupported@;
        collect_function_body_specializations(
            program,
            source,
            &substitutions,
            &mut specializations,
            &mut unsupported,
        );
        let mut k: usize = 0;
        while k < specializations.len()
            invariant
                k <= specializations.entries().len(),
                head <= REACHABILITY_BUDGET,
                head <= pending@.len(),
                reachable.functions.spec_get("main"@) is Some,
                reachable_defined(*program, reachable),
                specializations_valid(*program, specializations),
                forall|j: int|
                    0 <= j < k ==> (#[trigger] reachable.specializations.spec_get(
                        specializations.entries()[j].0@,
                    )) is Some,
                forall|key: Seq<char>|
                    #[trigger] before.spec_get(key) is Some ==> reachable.specializations.spec_get(key) is Some,
                keeps_specializations(before, specializations),
                reachable.functions == reachable0.functions,
                keeps_reachable(reachable0, reachable),
                queue_extends(pending0, pending@),
                pending_covers(reachable, pending@),
                queue_in(reachable, pending@),
                specializations_known(reachable, specializations),
            decreases specializations.entries().len() - k,
        {
            let (key, _) = specializations.entry_at(k);
            if !reachable.specializations.contains_key(key.as_str()) {
                let ghost p1 = pending@;
                let ghost r1 = reachable;
                reachable.specializations.insert(key.clone(), ());
                pending.push(key.clone());
                proof {
                    assert(queue_extends(p1, pending@));
                    lemma_pending_covers_extends(reachable, p1, pending@);
                    assert forall|j: int| 0 <= j < pending@.len() implies reachable.functions.spec_get(#[trigger] pending@[j]@)
                        is Some || reachable.specializations.spec_get(pending@[j]@) is Some by {
                        if j < p1.len() {
                            assert(pending@[j] == p1[j]);
                            if r1.specializations.spec_get(p1[j]@) is Some {
                                assert(reachable.specializations.spec_get(p1[j]@) is Some);
                            }
                        }
                    }
                    assert forall|kk: Seq<char>| #[trigger] reachable.specializations.spec_get(kk) is Some implies specializations.spec_get(kk) is Some by {
                        if kk != key@ {
                            assert(r1.specializations.spec_get(kk) is Some);
                        }
                    }
                }
            }
            k += 1;
        }
        proof {
            let entries = specializations.entries();
            assert forall|key: Seq<char>| #[trigger] specializations.spec_get(key) is Some implies reachable.specializations.spec_get(
                key,
            ) is Some by {
                if forall|j: int| 0 <= j < entries.len() ==> entries[j].0@ != key {
                    lemma_lookup_absent(entries, key);
                }
                let j = choose|j: int| 0 <= j < entries.len() && entries[j].0@ == key;
                assert(reachable.specializations.spec_get(entries[j].0@) is Some);
            }
        }
        let ghost reachable1 = reachable;
        collect_function_body_reachable_calls(
            program,
            source,
            &substitutions,
            &mut reachable,
            &mut pending,
        );
        proof {
            let name = pending0[head0 as int]@;
            assert(pending@[head0 as int] == pending0[head0 as int]);
            assert(keeps_reachable(reachable0, reachable));
            assert(specializations_known(reachable, specializations));
            let i0 = choose|i0: int|
                0 <= i0 < program.items@.len() && program.items@[i0] == Item::Function(*source) && forall|jj: int|
                    0 <= jj < i0 ==> !defines_function(#[trigger] program.items@[jj], source_name@);
            assert(item_calls(*program, i0) == blocks_calls(source.blocks@));
            assert(reachable0.functions.spec_get(name) is Some || reachable0.specializations.spec_get(name) is Some);
            if specializations0.spec_get(name) matches Some(sp) {
                assert(specializations.spec_get(name) == specializations0.spec_get(name));
                assert(reachable.functions.spec_get(name) is Some || reachable.specializations.spec_get(name) is Some);
                assert(walked_item(*program, reachable, specializations, i0));
            } else {
                assert(source_name@ == name);
                assert(reachable0.functions.spec_get(name) is Some);
                assert(reachable.functions.spec_get(name) is Some);
                assert(walked_item(*program, reachable, specializations, i0));
            }
            assert forall|kk: Seq<char>| #[trigger] reachable.functions.spec_get(kk) is Some implies kk == "main"@ || exists|i: int|
                walked_item(*program, reachable, specializations, i) && reached_by(item_calls(*program, i), kk) by {
                if reachable1.functions.spec_get(kk) is Some {
                    assert(reachable0.functions.spec_get(kk) is Some);
                    if kk != "main"@ {
                        let i = choose|i: int|
                            walked_item(*program, reachable0, specializations0, i) && reached_by(item_calls(*program, i), kk);
                        lemma_walked_item_kept(*program, reachable0, reachable, specializations0, specializations, i);
                    }
                } else {
                    assert(reached_by(blocks_calls(source.blocks@), kk));
                }
            }
            assert forall|j: int| 0 <= j < head implies callees_reached(*program, reachable, specializations, #[trigger] pending@[j]@) by {
                assert(pending@[j] == pending0[j]);
                if j < head0 {
                    lemma_callees_reached_kept(*program, reachable0, reachable, specializations0, specializations, pending0[j]@);
                } else {
                    if specializations.spec_get(name) is None {
                        assert(specializations0.spec_get(name) is None);
                        assert(source_name@ == name);
                        assert forall|i: int| #[trigger] first_plain_at(*program, name, i) implies calls_reached(
                            *program,
                            reachable,
                            item_calls(*program, i),
                        ) by {
                            let i0 = choose|i0: int|
                                0 <= i0 < program.items@.len() && program.items@[i0] == Item::Function(*source) && forall|jj: int|
                                    0 <= jj < i0 ==> !defines_function(#[trigger] program.items@[jj], name);
                            assert(defines_function(program.items@[i0], name));
                            assert(defines_function(program.items@[i], name));
                            assert(i == i0);
                        }
                    }
                }
            }
            assert forall|j: int| 0 <= j < head implies generic_callees_settled(*program, specializations, unsupported@, #[trigger] pending@[j]@) by {
                assert(pending@[j] == pending0[j]);
                if j < head0 {
                    lemma_generic_callees_settled_kept(*program, specializations0, specializations, messages0, unsupported@, pending0[j]@);
                } else if specializations.spec_get(name) is None {
                    assert(specializations0.spec_get(name) is None);
                    assert(source_name@ == name);
                    assert forall|i: int| #[trigger] first_plain_at(*program, name, i) implies generic_calls_settled(
                        *program,
                        specializations,
                        unsupported@,
                        0,
                        item_calls(*program, i),
                    ) by {
                        let i0 = choose|i0: int|
                            0 <= i0 < program.items@.len() && program.items@[i0] == Item::Function(*source) && forall|jj: int|
                                0 <= jj < i0 ==> !defines_function(#[trigger] program.items@[jj], name);
                        assert(defines_function(program.items@[i0], name));
                        assert(defines_function(program.items@[i], name));
                        assert(i == i0);
                        lemma_generic_calls_settled_kept(
                            *program,
                            specializations,
                            specializations,
                            unsupported@,
                            unsupported@,
                            messages0.len() as int,
                            0,
                            blocks_calls(source.blocks@),
                        );
                    }
                }
            }
        }
    }

    proof {
        assert forall|name: Seq<char>| #[trigger] reachable.functions.spec_get(name) is Some implies callees_reached(
            *program,
            reachable,
            specializations,
            name,
        ) by {
            let j = choose|j: int| 0 <= j < pending@.len() && pending@[j]@ == name;
            assert(callees_reached(*program, reachable, specializations, pending@[j]@));
        }
    }
    if unsupported.len() == 0 {
        proof {
            assert forall|name: Seq<char>| #[trigger] reachable.functions.spec_get(name) is Some implies generic_callees_specialized(
                *program,
                specializations,
                name,
            ) by {
                let j = choose|j: int| 0 <= j < pending@.len() && pending@[j]@ == name;
                assert(generic_callees_settled(*program, specializations, unsupported@, pending@[j]@));
                lemma_generic_callees_specialized(*program, specializations, unsupported@, name);
            }
        }
        Ok((reachable, specializations))
    } else {
        Err(unsupported)
    }
}

/// The parameters with the substitution applied to their types.
pub fn substitute_params(params: &Vec<Param>, substitutions: &NameMap<Type>) -> (r: Vec<Param>)
    ensures
        r@.len() == params@.len(),
        forall|i: int|
            0 <= i < r@.len() ==> (#[trigger] r@[i]).local == params@[i].local && r@[i].name
                == params@[i].name && substituted(params@[i].ty, r@[i].ty, *substitutions),
{
    let mut out: Vec<Param> = Vec::new();
    let mut i: usize = 0;
    while i < params.len()
        invariant
            i <= params@.len(),
            out@.len() == i,
            forall|j: int|
                0 <= j < i ==> (#[trigger] out@[j]).local == params@[j].local && out@[j].name
                    == params@[j].name && substituted(params@[j].ty, out@[j].ty, *substitutions),
        decreases params@.len() - i,
    {
        let param = &params[i];
        out.push(
            Param {
                local: param.local,
                name: param.name.clone(),
                ty: substitute_type_params(&param.ty, substitutions),
            },
        );
        i += 1;
    }
    out
}

/// The locals with the substitution applied to their types.
pub fn substitute_locals(locals: &Vec<Local>, substitutions: &NameMap<Type>) -> (r: Vec<Local>)
    ensures
        r@.len() == locals@.len(),
        forall|i: int|
            0 <= i < r@.len() ==> (#[trigger] r@[i]).id == locals@[i].id && r@[i].name
                == locals@[i].name && r@[i].mutable == locals@[i].mutable,
{
    let mut out: Vec<Local> = Vec::new();
    let mut i: usize = 0;
    while i < locals.len()
        invariant
            i <= locals@.len(),
            out@.len() == i,
            forall|j: int|
                0 <= j < i ==> (#[trigger] out@[j]).id == locals@[j].id && out@[j].name
                    == locals@[j].name && out@[j].mutable == locals@[j].mutable,
        decreases locals@.len() - i,
    {
        let local = &locals[i];
        out.push(
            Local {
                id: local.id,
                name: local.name.clone(),
                ty: substitute_type_params(&local.ty, substitutions),
                mutable: local.mutable,
            },
        );
        i += 1;
    }
    out
}

fn copy_params(params: &Vec<Param>) -> (r: Vec<Param>)
    ensures
        r@.len() == params@.len(),
        forall|i: int|
            0 <= i < r@.len() ==> (#[trigger] r@[i]).local == params@[i].local && r@[i].name
                == params@[i].name && same_type(r@[i].ty, params@[i].ty),
{
    let mut out: Vec<Param> = Vec::new();
    let mut i: usize = 0;
    while i < params.len()
        invariant
            i <= params@.len(),
            out@.len() == i,
            forall|j: int|
                0 <= j < i ==> (#[trigger] out@[j]).local == params@[j].local && out@[j].name
                    == params@[j].name && same_type(out@[j].ty, params@[j].ty),
        decreases params@.len() - i,
    {
        out.push(Param { local: params[i].local, name: params[i].name.clone(), ty: clone_type(&params[i].ty) });
        i += 1;
    }
    out
}

fn copy_locals(locals: &Vec<Local>) -> (r: Vec<Local>)
    ensures
        r@.len() == locals@.len(),
{
    let mut out: Vec<Local> = Vec::new();
    let mut i: usize = 0;
    while i < locals.len()
        invariant
            i <= locals@.len(),
            out@.len() == i,
        decreases locals@.len() - i,
    {
        out.push(
            Local {
                id: locals[i].id,
                name: locals[i].name.clone(),
                ty: clone_type(&locals[i].ty),
                mutable: locals[i].mutable,
            },
        );
        i += 1;
    }
    out
}

/// The parameters of a function, specialized when a substitution is given.
pub fn specialized_params(params: &Vec<Param>, substitutions: &Option<NameMap<Type>>) -> (r: Vec<Param>)
    ensures
        r@.len() == params@.len(),
        forall|i: int|
            0 <= i < r@.len() ==> (#[trigger] r@[i]).local == params@[i].local && r@[i].name == params@[i].name
                && match *substitutions {
                Some(s) => substituted(params@[i].ty, r@[i].ty, s),
                None => same_type(r@[i].ty, params@[i].ty),
            },
{
    match substitutions {
        Some(substitutions) => substitute_params(params, substitutions),
        None => copy_params(params),
    }
}

/// The locals of a function, specialized when a substitution is given.
pub fn specialized_locals(locals: &Vec<Local>, substitutions: &Option<NameMap<Type>>) -> (r: Vec<Local>)
    ensures
        r@.len() == locals@.len(),
{
    match substitutions {
        Some(substitutions) => substitute_locals(locals, substitutions),
        None => copy_locals(locals),
    }
}

/// A type, specialized when a substitution is given.
pub fn specialized_type(ty: &Type, substitutions: &Option<NameMap<Type>>) -> (r: Type)
    ensures
        substitutions is None ==> same_type(r, *ty),
        *substitutions matches Some(s) ==> (params_bound(*ty, s) ==> instance_of(*ty, r, s)),
        *substitutions matches Some(s) ==> (!(ty is TypeParam || ty is Slice || ty is Array
            || ty is StructInstance || ty is EnumInstance) ==> same_type(r, *ty)),
{
    match substitutions {
        Some(substitutions) => substitute_type_params(ty, substitutions),
        None => clone_type(ty),
    }
}

fn collect_function_body_specializations(
    program: &Program,
    source: &Function,
    substitutions: &Option<NameMap<Type>>,
    specializations: &mut NameMap<FunctionSpecialization>,
    unsupported: &mut Vec<String>,
)
    requires
        specializations_valid(*program, *old(specializations)),
    ensures
        specializations_valid(*program, *final(specializations)),
        keeps_specializations(*old(specializations), *final(specializations)),
        queue_extends(old(unsupported)@, final(unsupported)@),
        generic_calls_settled(
            *program,
            *final(specializations),
            final(unsupported)@,
            old(unsupported)@.len() as int,
            blocks_calls(source.blocks@),
        ),
{
    let params = specialized_params(&source.params, substitutions);
    let locals = specialized_locals(&source.locals, substitutions);
    let return_type = specialized_type(&source.return_type, substitutions);
    let local_types = function_static_local_types(&params, &locals);
    let overrides: IdMap<Type> = IdMap::new();
    let ctx = SpecializationContext { program, local_types: &local_types, overrides: &overrides };
    let ghost from = old(unsupported)@.len() as int;
    let mut b: usize = 0;
    assert(blocks_calls(source.blocks@.take(0)) =~= Seq::<Seq<char>>::empty());
    while b < source.blocks.len()
        invariant
            ctx.program == program,
            specializations_valid(*program, *specializations),
            keeps_specializations(*old(specializations), *specializations),
            queue_extends(old(unsupported)@, unsupported@),
            from == old(unsupported)@.len(),
            b <= source.blocks@.len(),
            generic_calls_settled(
                *program,
                *specializations,
                unsupported@,
                from,
                blocks_calls(source.blocks@.take(b as int)),
            ),
        decreases source.blocks@.len() - b,
    {
        let block = &source.blocks[b];
        let ghost prefix = blocks_calls(source.blocks@.take(b as int));
        let mut i: usize = 0;
        assert(block.statements@.take(0) =~= Seq::<Statement>::empty());
        assert(prefix + statements_calls(block.statements@.take(0)) =~= prefix);
        while i < block.statements.len()
            invariant
                ctx.program == program,
                specializations_valid(*program, *specializations),
                keeps_specializations(*old(specializations), *specializations),
                queue_extends(old(unsupported)@, unsupported@),
                from == old(unsupported)@.len(),
                i <= block.statements@.len(),
                generic_calls_settled(
                    *program,
                    *specializations,
                    unsupported@,
                    from,
                    prefix + statements_calls(block.statements@.take(i as int)),
                ),
            decreases block.statements@.len() - i,
        {
            let ghost s1 = *specializations;
            let ghost m1 = unsupported@;
            collect_statement_function_specializations(
                &ctx,
                &block.statements[i],
                specializations,
                unsupported,
            );
            proof {
                lemma_generic_calls_settled_then(
                    *program,
                    s1,
                    *specializations,
                    m1,
                    unsupported@,
                    from,
                    prefix + statements_calls(block.statements@.take(i as int)),
                    statement_calls(block.statements@[i as int]),
                );
                assert(block.statements@.take(i + 1).drop_last() =~= block.statements@.take(i as int));
                assert(prefix + statements_calls(block.statements@.take(i + 1)) =~= prefix + statements_calls(
                    block.statements@.take(i as int),
                ) + statement_calls(block.statements@[i as int]));
            }
            i += 1;
        }
        assert(block.statements@.take(block.statements@.len() as int) =~= block.statements@);
        let ghost s1 = *specializations;
        let ghost m1 = unsupported@;
        match &block.terminator {
            Terminator::Branch { condition, .. } => {
                let bool_ty = Type::Bool;
                collect_expr_function_specializations(
                    &ctx,
                    condition,
                    Some(&bool_ty),
                    specializations,
                    unsupported,
                );
            },
            Terminator::Return { value } => {
                collect_expr_function_specializations(
                    &ctx,
                    value,
                    Some(&return_type),
                    specializations,
                    unsupported,
                );
            },
            Terminator::Goto { .. } | Terminator::Unreachable => {
                assert(terminator_calls(block.terminator) =~= Seq::<Seq<char>>::empty());
            },
        }
        proof {
            lemma_generic_calls_settled_then(
                *program,
                s1,
                *specializations,
                m1,
                unsupported@,
                from,
                prefix + statements_calls(block.statements@),
                terminator_calls(block.terminator),
            );
            assert(source.blocks@.take(b + 1).drop_last() =~= source.blocks@.take(b as int));
            assert(source.blocks@.take(b + 1).last() == *block);
        }
        b += 1;
    }
    assert(source.blocks@.take(source.blocks@.len() as int) =~= source.blocks@);
}

fn collect_function_body_reachable_calls(
    program: &Program,
    source: &Function,
    substitutions: &Option<NameMap<Type>>,
    reachable: &mut ReachableFunctions,
    pending: &mut Vec<String>,
)
    requires
        reachable_defined(*program, *old(reachable)),
    ensures
        queue_extends(old(pending)@, final(pending)@),
        pending_covers(*old(reachable), old(pending)@) ==> pending_covers(*final(reachable), final(pending)@),
        queue_in(*old(reachable), old(pending)@) ==> queue_in(*final(reachable), final(pending)@),
        keeps_reachable(*old(reachable), *final(reachable)),
        final(reachable).specializations == old(reachable).specializations,
        reachable_defined(*program, *final(reachable)),
        calls_reached(*program, *final(reachable), blocks_calls(source.blocks@)),
        adds_only_callees(*old(reachable), *final(reachable), blocks_calls(source.blocks@)),
{
    let params = specialized_params(&source.params, substitutions);
    let locals = specialized_locals(&source.locals, substitutions);
    let local_types = function_static_local_types(&params, &locals);
    let overrides: IdMap<Type> = IdMap::new();
    let ctx = SpecializationContext { program, local_types: &local_types, overrides: &overrides };
    let mut b: usize = 0;
    while b < source.blocks.len()
        invariant
            keeps_reachable(*old(reachable), *reachable),
            reachable.specializations == old(reachable).specializations,
            queue_extends(old(pending)@, pending@),
            pending_covers(*old(reachable), old(pending)@) ==> pending_covers(*reachable, pending@),
            queue_in(*old(reachable), old(pending)@) ==> queue_in(*reachable, pending@),
            reachable_defined(*program, *reachable),
            ctx.program == program,
            b <= source.blocks@.len(),
            calls_reached(*program, *reachable, blocks_calls(source.blocks@.take(b as int))),
            adds_only_callees(*old(reachable), *reachable, blocks_calls(source.blocks@.take(b as int))),
        decreases source.blocks@.len() - b,
    {
        let block = &source.blocks[b];
        let ghost before = *reachable;
        assert(source.blocks@.take(b + 1).drop_last() =~= source.blocks@.take(b as int));
        collect_statements_reachable_calls(&ctx, &block.statements, reachable, pending);
        let ghost mid = *reachable;
        match &block.terminator {
            Terminator::Branch { condition, .. } => collect_expr_reachable_calls(
                &ctx,
                condition,
                reachable,
                pending,
            ),
            Terminator::Return { value } => collect_expr_reachable_calls(
                &ctx,
                value,
                reachable,
                pending,
            ),
            Terminator::Goto { .. } | Terminator::Unreachable => {},
        }
        proof {
            let prefix = blocks_calls(source.blocks@.take(b as int));
            let stmts = statements_calls(block.statements@);
            let term = terminator_calls(block.terminator);
            lemma_calls_reached_kept(*program, before, mid, prefix);
            lemma_calls_reached_kept(*program, mid, *reachable, prefix);
            lemma_calls_reached_kept(*program, mid, *reachable, stmts);
            lemma_calls_reached_concat(*program, *reachable, prefix, stmts);
            lemma_calls_reached_concat(*program, *reachable, prefix + stmts, term);
            lemma_adds_only_callees_then(*old(reachable), before, mid, prefix, stmts);
            lemma_adds_only_callees_then(*old(reachable), mid, *reachable, prefix + stmts, term);
        }
        b += 1;
    }
    assert(source.blocks@.take(source.blocks@.len() as int) =~= source.blocks@);
}

/// The type of the last parameter bound to local `id`.
pub open spec fn last_param_type(params: Seq<Param>, id: u32) -> Option<Type>
    decreases params.len(),
{
    if params.len() == 0 {
        None
    } else if params.last().local == id {
        Some(params.last().ty)
    } else {
        last_param_type(params.drop_last(), id)
    }
}

/// The type of the last local declared with id `id`.
pub open spec fn last_local_type(locals: Seq<Local>, id: u32) -> Option<Type>
    decreases locals.len(),
{
    if locals.len() == 0 {
        None
    } else if locals.last().id == id {
        Some(locals.last().ty)
    } else {
        last_local_type(locals.drop_last(), id)
    }
}

/// The declared type of local `id` in a function: the last local declaration
/// with that id, or else the last parameter bound to it.
pub open spec fn declared_local_type(params: Seq<Param>, locals: Seq<Local>, id: u32) -> Option<Type> {
    match last_local_type(locals, id) {
        Some(t) => Some(t),
        None => last_param_type(params, id),
    }
}

/// The declared types of the parameters and locals of a function, by local id
/// (a local declared again replaces the earlier type).
pub fn function_static_local_types(params: &Vec<Param>, locals: &Vec<Local>) -> (r: IdMap<Type>)
    ensures
        forall|id: u32|
            #[trigger] r.view_map().contains_key(id) == declared_local_type(params@, locals@, id) is Some,
        forall|id: u32|
            #[trigger] r.view_map().contains_key(id) ==> same_type(
                r.view_map()[id],
                declared_local_type(params@, locals@, id)->0,
            ),
{
    let mut local_types: IdMap<Type> = IdMap::new();
    let mut i: usize = 0;
    while i < params.len()
        invariant
            i <= params@.len(),
            forall|id: u32|
                #[trigger] local_types.view_map().contains_key(id) == last_param_type(params@.take(i as int), id) is Some,
            forall|id: u32|
                #[trigger] local_types.view_map().contains_key(id) ==> same_type(
                    local_types.view_map()[id],
                    last_param_type(params@.take(i as int), id)->0,
                ),
        decreases params@.len() - i,
    {
        assert(params@.take(i + 1).drop_last() =~= params@.take(i as int));
        let ty = clone_type(&params[i].ty);
        local_types.insert(params[i].local, ty);
        i += 1;
    }
    assert(params@.take(params@.len() as int) =~= params@);
    let mut j: usize = 0;
    while j < locals.len()
        invariant
            j <= locals@.len(),
            forall|id: u32|
                #[trigger] local_types.view_map().contains_key(id) == declared_local_type(
                    params@,
                    locals@.take(j as int),
                    id,
                ) is Some,
            forall|id: u32|
                #[trigger] local_types.view_map().contains_key(id) ==> same_type(
                    local_types.view_map()[id],
                    declared_local_type(params@, locals@.take(j as int), id)->0,
                ),
        decreases locals@.len() - j,
    {
        assert(locals@.take(j + 1).drop_last() =~= locals@.take(j as int));
        let ty = clone_type(&locals[j].ty);
        local_types.insert(locals[j].id, ty);
        j += 1;
    }
    assert(locals@.take(locals@.len() as int) =~= locals@);
    local_types
}

/// What the walks over one function body read: the program and the static
/// types of the function's locals.
pub struct SpecializationContext<'a> {
    pub program: &'a Program,
    pub local_types: &'a IdMap<Type>,
    pub overrides: &'a IdMap<Type>,
}

fn collect_statements_reachable_calls(
    ctx: &SpecializationContext,
    statements: &Vec<Statement>,
    reachable: &mut ReachableFunctions,
    pending: &mut Vec<String>,
)
    requires
        reachable_defined(*ctx.program, *old(reachable)),
    ensures
        queue_extends(old(pending)@, final(pending)@),
        pending_covers(*old(reachable), old(pending)@) ==> pending_covers(*final(reachable), final(pending)@),
        queue_in(*old(reachable), old(pending)@) ==> queue_in(*final(reachable), final(pending)@),
        keeps_reachable(*old(reachable), *final(reachable)),
        final(reachable).specializations == old(reachable).specializations,
        reachable_defined(*ctx.program, *final(reachable)),
        calls_reached(*ctx.program, *final(reachable), statements_calls(statements@)),
        adds_only_callees(*old(reachable), *final(reachable), statements_calls(statements@)),
    decreases statements, 0nat,
{
    let mut i: usize = 0;
    assert(calls_reached(*ctx.program, *reachable, statements_calls(statements@.take(0))));
    while i < statements.len()
        invariant
            keeps_reachable(*old(reachable), *reachable),
            reachable.specializations == old(reachable).specializations,
            queue_extends(old(pending)@, pending@),
            pending_covers(*old(reachable), old(pending)@) ==> pending_covers(*reachable, pending@),
            queue_in(*old(reachable), old(pending)@) ==> queue_in(*reachable, pending@),
            reachable_defined(*ctx.program, *reachable),
            i <= statements@.len(),
            calls_reached(*ctx.program, *reachable, statements_calls(statements@.take(i as int))),
            adds_only_callees(*old(reachable), *reachable, statements_calls(statements@.take(i as int))),
        decreases statements@.len() - i,
    {
        let ghost before = *reachable;
        assert(decreases_to!(statements => statements@[i as int]));
        collect_statement_reachable_calls(ctx, &statements[i], reachable, pending);
        proof {
            lemma_calls_reached_kept(*ctx.program, before, *reachable, statements_calls(statements@.take(i as int)));
            assert(statements@.take(i + 1).drop_last() =~= statements@.take(i as int));
            lemma_calls_reached_concat(*ctx.program, *reachable, statements_calls(statements@.take(i as int)), statement_calls(statements@[i as int]));

            lemma_adds_only_callees_then(*old(reachable), before, *reachable, statements_calls(statements@.take(i as int)), statement_calls(statements@[i as int]));
            assert(statements_calls(statements@.take(i + 1)) =~= statements_calls(statements@.take(i as int)) + statement_calls(statements@[i as int]));
        }
        i += 1;
    }
    assert(statements@.take(statements@.len() as int) =~= statements@);
}

fn collect_statement_reachable_calls(
    ctx: &SpecializationContext,
    statement: &Statement,
    reachable: &mut ReachableFunctions,
    pending: &mut Vec<String>,
)
    requires
        reachable_defined(*ctx.program, *old(reachable)),
    ensures
        queue_extends(old(pending)@, final(pending)@),
        pending_covers(*old(reachable), old(pending)@) ==> pending_covers(*final(reachable), final(pending)@),
        queue_in(*old(reachable), old(pending)@) ==> queue_in(*final(reachable), final(pending)@),
        keeps_reachable(*old(reachable), *final(reachable)),
        final(reachable).specializations == old(reachable).specializations,
        reachable_defined(*ctx.program, *final(reachable)),
        calls_reached(*ctx.program, *final(reachable), statement_calls(*statement)),
        adds_only_callees(*old(reachable), *final(reachable), statement_calls(*statement)),
    decreases statement, 1nat,
{
    match statement {
        Statement::Let { initializer, .. } => collect_expr_reachable_calls(ctx, initializer, reachable, pending),
        Statement::Eval { expr } => collect_expr_reachable_calls(ctx, expr, reachable, pending),
        Statement::Assign { target, value } => {
            collect_place_reachable_calls(ctx, target, reachable, pending);
            let ghost mid = *reachable;
            collect_expr_reachable_calls(ctx, value, reachable, pending);
            proof {
                lemma_calls_reached_kept(*ctx.program, mid, *reachable, place_calls(*target));
                lemma_calls_reached_concat(*ctx.program, *reachable, place_calls(*target), expr_calls(*value));

                lemma_adds_only_callees_then(*old(reachable), mid, *reachable, place_calls(*target), expr_calls(*value));
            }
        },
    }
}

fn collect_place_reachable_calls(
    ctx: &SpecializationContext,
    place: &Place,
    reachable: &mut ReachableFunctions,
    pending: &mut Vec<String>,
)
    requires
        reachable_defined(*ctx.program, *old(reachable)),
    ensures
        queue_extends(old(pending)@, final(pending)@),
        pending_covers(*old(reachable), old(pending)@) ==> pending_covers(*final(reachable), final(pending)@),
        queue_in(*old(reachable), old(pending)@) ==> queue_in(*final(reachable), final(pending)@),
        keeps_reachable(*old(reachable), *final(reachable)),
        final(reachable).specializations == old(reachable).specializations,
        reachable_defined(*ctx.program, *final(reachable)),
        calls_reached(*ctx.program, *final(reachable), place_calls(*place)),
        adds_only_callees(*old(reachable), *final(reachable), place_calls(*place)),
    decreases place, 1nat,
{
    match place {
        Place::Local { .. } => {
            assert(place_calls(*place) =~= Seq::<Seq<char>>::empty());
        },
        Place::Field { base, .. } => collect_place_reachable_calls(ctx, base, reachable, pending),
        Place::Index { base, index } => {
            collect_place_reachable_calls(ctx, base, reachable, pending);
            let ghost mid = *reachable;
            collect_expr_reachable_calls(ctx, index, reachable, pending);
            proof {
                lemma_calls_reached_kept(*ctx.program, mid, *reachable, place_calls(**base));
                lemma_calls_reached_concat(*ctx.program, *reachable, place_calls(**base), expr_calls(**index));

                lemma_adds_only_callees_then(*old(reachable), mid, *reachable, place_calls(**base), expr_calls(**index));
            }
        },
    }
}

fn collect_exprs_reachable_calls(
    ctx: &SpecializationContext,
    exprs: &Vec<Expr>,
    reachable: &mut ReachableFunctions,
    pending: &mut Vec<String>,
)
    requires
        reachable_defined(*ctx.program, *old(reachable)),
    ensures
        queue_extends(old(pending)@, final(pending)@),
        pending_covers(*old(reachable), old(pending)@) ==> pending_covers(*final(reachable), final(pending)@),
        queue_in(*old(reachable), old(pending)@) ==> queue_in(*final(reachable), final(pending)@),
        keeps_reachable(*old(reachable), *final(reachable)),
        final(reachable).specializations == old(reachable).specializations,
        reachable_defined(*ctx.program, *final(reachable)),
        calls_reached(*ctx.program, *final(reachable), exprs_calls(exprs@)),
        adds_only_callees(*old(reachable), *final(reachable), exprs_calls(exprs@)),
    decreases exprs, 0nat,
{
    let mut i: usize = 0;
    assert(calls_reached(*ctx.program, *reachable, exprs_calls(exprs@.take(0))));
    while i < exprs.len()
        invariant
            keeps_reachable(*old(reachable), *reachable),
            reachable.specializations == old(reachable).specializations,
            queue_extends(old(pending)@, pending@),
            pending_covers(*old(reachable), old(pending)@) ==> pending_covers(*reachable, pending@),
            queue_in(*old(reachable), old(pending)@) ==> queue_in(*reachable, pending@),
            reachable_defined(*ctx.program, *reachable),
            i <= exprs@.len(),
            calls_reached(*ctx.program, *reachable, exprs_calls(exprs@.take(i as int))),
            adds_only_callees(*old(reachable), *reachable, exprs_calls(exprs@.take(i as int))),
        decreases exprs@.len() - i,
    {
        let ghost before = *reachable;
        assert(decreases_to!(exprs => exprs@[i as int]));
        collect_expr_reachable_calls(ctx, &exprs[i], reachable, pending);
        proof {
            lemma_calls_reached_kept(*ctx.program, before, *reachable, exprs_calls(exprs@.take(i as int)));
            assert(exprs@.take(i + 1).drop_last() =~= exprs@.take(i as int));
            lemma_calls_reached_concat(*ctx.program, *reachable, exprs_calls(exprs@.take(i as int)), expr_calls(exprs@[i as int]));

            lemma_adds_only_callees_then(*old(reachable), before, *reachable, exprs_calls(exprs@.take(i as int)), expr_calls(exprs@[i as int]));
            assert(exprs_calls(exprs@.take(i + 1)) =~= exprs_calls(exprs@.take(i as int)) + expr_calls(exprs@[i as int]));
        }
        i += 1;
    }
    assert(exprs@.take(exprs@.len() as int) =~= exprs@);
}

fn collect_fields_reachable_calls(
    ctx: &SpecializationContext,
    fields: &Vec<StructLiteralField>,
    reachable: &mut ReachableFunctions,
    pending: &mut Vec<String>,
)
    requires
        reachable_defined(*ctx.program, *old(reachable)),
    ensures
        queue_extends(old(pending)@, final(pending)@),
        pending_covers(*old(reachable), old(pending)@) ==> pending_covers(*final(reachable), final(pending)@),
        queue_in(*old(reachable), old(pending)@) ==> queue_in(*final(reachable), final(pending)@),
        keeps_reachable(*old(reachable), *final(reachable)),
        final(reachable).specializations == old(reachable).specializations,
        reachable_defined(*ctx.program, *final(reachable)),
        calls_reached(*ctx.program, *final(reachable), fields_calls(fields@)),
        adds_only_callees(*old(reachable), *final(reachable), fields_calls(fields@)),
    decreases fields, 0nat,
{
    let mut i: usize = 0;
    assert(calls_reached(*ctx.program, *reachable, fields_calls(fields@.take(0))));
    while i < fields.len()
        invariant
            keeps_reachable(*old(reachable), *reachable),
            reachable.specializations == old(reachable).specializations,
            queue_extends(old(pending)@, pending@),
            pending_covers(*old(reachable), old(pending)@) ==> pending_covers(*reachable, pending@),
            queue_in(*old(reachable), old(pending)@) ==> queue_in(*reachable, pending@),
            reachable_defined(*ctx.program, *reachable),
            i <= fields@.len(),
            calls_reached(*ctx.program, *reachable, fields_calls(fields@.take(i as int))),
            adds_only_callees(*old(reachable), *reachable, fields_calls(fields@.take(i as int))),
        decreases fields@.len() - i,
    {
        let ghost before = *reachable;
        assert(decreases_to!(fields => fields@[i as int]));
        assert(decreases_to!(fields@[i as int] => fields@[i as int].value));
        collect_expr_reachable_calls(ctx, &fields[i].value, reachable, pending);
        proof {
            lemma_calls_reached_kept(*ctx.program, before, *reachable, fields_calls(fields@.take(i as int)));
            assert(fields@.take(i + 1).drop_last() =~= fields@.take(i as int));
            lemma_calls_reached_concat(*ctx.program, *reachable, fields_calls(fields@.take(i as int)), expr_calls(fields@[i as int].value));

            lemma_adds_only_callees_then(*old(reachable), before, *reachable, fields_calls(fields@.take(i as int)), expr_calls(fields@[i as int].value));
            assert(fields_calls(fields@.take(i + 1)) =~= fields_calls(fields@.take(i as int)) + expr_calls(fields@[i as int].value));
        }
        i += 1;
    }
    assert(fields@.take(fields@.len() as int) =~= fields@);
}

fn collect_arms_reachable_calls(
    ctx: &SpecializationContext,
    arms: &Vec<MatchExprArm>,
    reachable: &mut ReachableFunctions,
    pending: &mut Vec<String>,
)
    requires
        reachable_defined(*ctx.program, *old(reachable)),
    ensures
        queue_extends(old(pending)@, final(pending)@),
        pending_covers(*old(reachable), old(pending)@) ==> pending_covers(*final(reachable), final(pending)@),
        queue_in(*old(reachable), old(pending)@) ==> queue_in(*final(reachable), final(pending)@),
        keeps_reachable(*old(reachable), *final(reachable)),
        final(reachable).specializations == old(reachable).specializations,
        reachable_defined(*ctx.program, *final(reachable)),
        calls_reached(*ctx.program, *final(reachable), arms_calls(arms@)),
        adds_only_callees(*old(reachable), *final(reachable), arms_calls(arms@)),
    decreases arms, 0nat,
{
    let mut i: usize = 0;
    assert(calls_reached(*ctx.program, *reachable, arms_calls(arms@.take(0))));
    while i < arms.len()
        invariant
            keeps_reachable(*old(reachable), *reachable),
            reachable.specializations == old(reachable).specializations,
            queue_extends(old(pending)@, pending@),
            pending_covers(*old(reachable), old(pending)@) ==> pending_covers(*reachable, pending@),
            queue_in(*old(reachable), old(pending)@) ==> queue_in(*reachable, pending@),
            reachable_defined(*ctx.program, *reachable),
            i <= arms@.len(),
            calls_reached(*ctx.program, *reachable, arms_calls(arms@.take(i as int))),
            adds_only_callees(*old(reachable), *reachable, arms_calls(arms@.take(i as int))),
        decreases arms@.len() - i,
    {
        let ghost before = *reachable;
        assert(decreases_to!(arms => arms@[i as int]));
        let arm = &arms[i];
        match &arm.guard {
            Some(guard) => collect_expr_reachable_calls(ctx, guard, reachable, pending),
            None => {},
        }
        let ghost mid = *reachable;
        collect_expr_reachable_calls(ctx, &arm.value, reachable, pending);
        proof {
            lemma_adds_only_callees_then(before, mid, *reachable, guard_calls(arms@[i as int].guard), expr_calls(arms@[i as int].value));
            assert(arm.guard == arms@[i as int].guard);
            lemma_adds_only_callees_then(*old(reachable), before, *reachable, arms_calls(arms@.take(i as int)), guard_calls(arms@[i as int].guard) + expr_calls(arms@[i as int].value));
            assert(arms_calls(arms@.take(i as int)) + (guard_calls(arms@[i as int].guard) + expr_calls(arms@[i as int].value))
                =~= arms_calls(arms@.take(i as int)) + guard_calls(arms@[i as int].guard) + expr_calls(arms@[i as int].value));
            lemma_calls_reached_kept(*ctx.program, before, *reachable, arms_calls(arms@.take(i as int)));
            assert(arms@.take(i + 1).drop_last() =~= arms@.take(i as int));
            lemma_calls_reached_concat(*ctx.program, *reachable, arms_calls(arms@.take(i as int)), guard_calls(arms@[i as int].guard) + expr_calls(arms@[i as int].value));
            assert(arms_calls(arms@.take(i + 1)) =~= arms_calls(arms@.take(i as int)) + guard_calls(arms@[i as int].guard) + expr_calls(arms@[i as int].value));
        }
        i += 1;
    }
    assert(arms@.take(arms@.len() as int) =~= arms@);
}

fn collect_expr_reachable_calls(
    ctx: &SpecializationContext,
    expr: &Expr,
    reachable: &mut ReachableFunctions,
    pending: &mut Vec<String>,
)
    requires
        reachable_defined(*ctx.program, *old(reachable)),
    ensures
        queue_extends(old(pending)@, final(pending)@),
        pending_covers(*old(reachable), old(pending)@) ==> pending_covers(*final(reachable), final(pending)@),
        queue_in(*old(reachable), old(pending)@) ==> queue_in(*final(reachable), final(pending)@),
        keeps_reachable(*old(reachable), *final(reachable)),
        final(reachable).specializations == old(reachable).specializations,
        reachable_defined(*ctx.program, *final(reachable)),
        calls_reached(*ctx.program, *final(reachable), expr_calls(*expr)),
        adds_only_callees(*old(reachable), *final(reachable), expr_calls(*expr)),
    decreases expr, 1nat,
{
    match expr {
        Expr::Call { function, arguments } => {
            collect_call_reachable_function(ctx, function.as_str(), arguments, reachable, pending);
            let ghost mid = *reachable;
            collect_exprs_reachable_calls(ctx, arguments, reachable, pending);
            proof {
                lemma_calls_reached_kept(*ctx.program, mid, *reachable, seq![function@]);
                lemma_calls_reached_concat(*ctx.program, *reachable, seq![function@], exprs_calls(arguments@));

                lemma_adds_only_callees_then(*old(reachable), mid, *reachable, seq![function@], exprs_calls(arguments@));
            }
        },
        Expr::Unary { expr: inner, .. } => collect_expr_reachable_calls(ctx, inner, reachable, pending),
        Expr::Try { expr: inner } => collect_expr_reachable_calls(ctx, inner, reachable, pending),
        Expr::EnumPayload { value } => collect_expr_reachable_calls(ctx, value, reachable, pending),
        Expr::Field { base, .. } => collect_expr_reachable_calls(ctx, base, reachable, pending),
        Expr::Binary { left, right, .. } => {
            collect_expr_reachable_calls(ctx, left, reachable, pending);
            let ghost mid = *reachable;
            collect_expr_reachable_calls(ctx, right, reachable, pending);
            proof {
                lemma_calls_reached_kept(*ctx.program, mid, *reachable, expr_calls(**left));
                lemma_calls_reached_concat(*ctx.program, *reachable, expr_calls(**left), expr_calls(**right));

                lemma_adds_only_callees_then(*old(reachable), mid, *reachable, expr_calls(**left), expr_calls(**right));
            }
        },
        Expr::ArrayLiteral { elements } => collect_exprs_reachable_calls(ctx, elements, reachable, pending),
        Expr::StructLiteral { fields, .. } => collect_fields_reachable_calls(ctx, fields, reachable, pending),
        Expr::Block { statements, value } => {
            collect_statements_reachable_calls(ctx, statements, reachable, pending);
            let ghost mid = *reachable;
            collect_expr_reachable_calls(ctx, value, reachable, pending);
            proof {
                lemma_calls_reached_kept(*ctx.program, mid, *reachable, statements_calls(statements@));
                lemma_calls_reached_concat(*ctx.program, *reachable, statements_calls(statements@), expr_calls(**value));

                lemma_adds_only_callees_then(*old(reachable), mid, *reachable, statements_calls(statements@), expr_calls(**value));
            }
        },
        Expr::Match { scrutinee, arms } => {
            collect_expr_reachable_calls(ctx, scrutinee, reachable, pending);
            let ghost mid = *reachable;
            collect_arms_reachable_calls(ctx, arms, reachable, pending);
            proof {
                lemma_calls_reached_kept(*ctx.program, mid, *reachable, expr_calls(**scrutinee));
                lemma_calls_reached_concat(*ctx.program, *reachable, expr_calls(**scrutinee), arms_calls(arms@));

                lemma_adds_only_callees_then(*old(reachable), mid, *reachable, expr_calls(**scrutinee), arms_calls(arms@));
            }
        },
        Expr::EnumVariant { payload, .. } => match payload {
            Some(payload) => collect_expr_reachable_calls(ctx, payload, reachable, pending),
            None => {
                assert(expr_calls(*expr) =~= Seq::<Seq<char>>::empty());
            },
        },
        Expr::MatchTest { scrutinee, .. } => collect_expr_reachable_calls(ctx, scrutinee, reachable, pending),
        Expr::Index { base, index } => {
            collect_expr_reachable_calls(ctx, base, reachable, pending);
            let ghost mid = *reachable;
            collect_expr_reachable_calls(ctx, index, reachable, pending);
            proof {
                lemma_calls_reached_kept(*ctx.program, mid, *reachable, expr_calls(**base));
                lemma_calls_reached_concat(*ctx.program, *reachable, expr_calls(**base), expr_calls(**index));

                lemma_adds_only_callees_then(*old(reachable), mid, *reachable, expr_calls(**base), expr_calls(**index));
            }
        },
        Expr::Slice { base, start, end } => {
            collect_expr_reachable_calls(ctx, base, reachable, pending);
            let ghost first = *reachable;
            collect_expr_reachable_calls(ctx, start, reachable, pending);
            let ghost second = *reachable;
            collect_expr_reachable_calls(ctx, end, reachable, pending);
            proof {
                lemma_calls_reached_kept(*ctx.program, first, second, expr_calls(**base));
                lemma_calls_reached_kept(*ctx.program, second, *reachable, expr_calls(**base));
                lemma_calls_reached_kept(*ctx.program, second, *reachable, expr_calls(**start));
                lemma_calls_reached_concat(*ctx.program, *reachable, expr_calls(**base), expr_calls(**start));
                lemma_calls_reached_concat(*ctx.program, *reachable, expr_calls(**base) + expr_calls(**start), expr_calls(**end));
                lemma_adds_only_callees_then(*old(reachable), first, second, expr_calls(**base), expr_calls(**start));
                lemma_adds_only_callees_then(*old(reachable), second, *reachable, expr_calls(**base) + expr_calls(**start), expr_calls(**end));
            }
        },
        Expr::Int { .. } | Expr::Float { .. } | Expr::Bool { .. } | Expr::String { .. }
        | Expr::Local { .. } | Expr::Const { .. } => {
            assert(expr_calls(*expr) =~= Seq::<Seq<char>>::empty());
        },
    }
}

/// The prefix that marks a call as a method call on its first argument.
pub open spec fn method_prefix() -> Seq<char> {
    seq!['<', 'm', 'e', 't', 'h', 'o', 'd', '>', '.']
}

/// The text after the `<method>.` prefix of a method call, if `function` has it.
pub fn method_call_name(function: &str) -> (r: Option<String>)
    ensures
        r is Some <==> (function@.len() >= 9 && function@.take(9) == method_prefix()),
        r matches Some(rest) ==> function@ == method_prefix() + rest@,
{
    let chars = chars_of(function);
    let prefix: [char; 9] = ['<', 'm', 'e', 't', 'h', 'o', 'd', '>', '.'];
    if chars.len() < 9 {
        return None;
    }
    let mut i: usize = 0;
    while i < 9
        invariant
            i <= 9,
            chars@ == function@,
            chars@.len() >= 9,
            prefix@ == method_prefix(),
            forall|j: int| 0 <= j < i ==> chars@[j] == prefix@[j],
        decreases 9 - i,
    {
        if chars[i] != prefix[i] {
            assert(function@.take(9)[i as int] != method_prefix()[i as int]);
            return None;
        }
        i += 1;
    }
    assert(function@.take(9) =~= method_prefix());
    let mut rest = String::new();
    let mut k: usize = 9;
    while k < chars.len()
        invariant
            9 <= k <= chars@.len(),
            chars@ == function@,
            rest@ == function@.subrange(9, k as int),
        decreases chars@.len() - k,
    {
        push_char(&mut rest, chars[k]);
        assert(function@.subrange(9, k + 1) =~= function@.subrange(9, k as int).push(chars@[k as int]));
        k += 1;
    }
    assert(function@ =~= method_prefix() + function@.subrange(9, function@.len() as int));
    Some(rest)
}

fn collect_call_reachable_function(
    ctx: &SpecializationContext,
    function: &str,
    arguments: &Vec<Expr>,
    reachable: &mut ReachableFunctions,
    pending: &mut Vec<String>,
)
    requires
        reachable_defined(*ctx.program, *old(reachable)),
    ensures
        queue_extends(old(pending)@, final(pending)@),
        pending_covers(*old(reachable), old(pending)@) ==> pending_covers(*final(reachable), final(pending)@),
        queue_in(*old(reachable), old(pending)@) ==> queue_in(*final(reachable), final(pending)@),
        keeps_reachable(*old(reachable), *final(reachable)),
        final(reachable).specializations == old(reachable).specializations,
        reachable_defined(*ctx.program, *final(reachable)),
        calls_reached(*ctx.program, *final(reachable), seq![function@]),
        adds_only_callees(*old(reachable), *final(reachable), seq![function@]),
{
    match method_call_name(function) {
        Some(method) => {
            if arguments.len() == 0 {
                return ;
            }
            let receiver_ty = match static_expr_type(&arguments[0], ctx.local_types, ctx.overrides) {
                Some(t) => t,
                None => return ,
            };
            let method_function = match method_function_name(method.as_str(), &receiver_ty) {
                Some(name) => name,
                None => return ,
            };
            enqueue_non_generic_function(ctx.program, method_function.as_str(), reachable, pending);
            proof {
                let t = choose|t: Seq<char>| method_function@ == t + "."@ + method@;
                assert(function@.skip(9) =~= method@);
                assert(call_reaches(seq![function@][0], method_function@));
            }
        },
        None => {
            enqueue_non_generic_function(ctx.program, function, reachable, pending);
            proof {
                assert(call_reaches(seq![function@][0], function@));
            }
        },
    }
}

fn enqueue_non_generic_function(
    program: &Program,
    function: &str,
    reachable: &mut ReachableFunctions,
    pending: &mut Vec<String>,
)
    requires
        reachable_defined(*program, *old(reachable)),
    ensures
        queue_extends(old(pending)@, final(pending)@),
        pending_covers(*old(reachable), old(pending)@) ==> pending_covers(*final(reachable), final(pending)@),
        queue_in(*old(reachable), old(pending)@) ==> queue_in(*final(reachable), final(pending)@),
        keeps_reachable(*old(reachable), *final(reachable)),
        final(reachable).specializations == old(reachable).specializations,
        reachable_defined(*program, *final(reachable)),
        first_definition_plain(*program, function@) ==> final(reachable).functions.spec_get(function@) is Some,
        forall|k: Seq<char>|
            k != function@ ==> #[trigger] final(reachable).functions.spec_get(k) == old(reachable).functions.spec_get(k),
{
    let source = match find_function_source(program, function) {
        Some(source) => source,
        None => {
            proof {
                if first_definition_plain(*program, function@) {
                    let i = choose|i: int|
                        0 <= i < program.items@.len() && #[trigger] defines_plain_function(program.items@[i], function@)
                            && forall|j: int| 0 <= j < i ==> !defines_function(#[trigger] program.items@[j], function@);
                    assert(defines_function(program.items@[i], function@));
                }
            }
            return ;
        },
    };
    if source.type_params.len() > 0 {
        proof {
            if first_definition_plain(*program, function@) {
                let i = choose|i: int|
                    0 <= i < program.items@.len() && #[trigger] defines_plain_function(program.items@[i], function@)
                        && forall|j: int| 0 <= j < i ==> !defines_function(#[trigger] program.items@[j], function@);
                let k = choose|k: int|
                    0 <= k < program.items@.len() && program.items@[k] == Item::Function(*source) && forall|j: int|
                        0 <= j < k ==> !defines_function(#[trigger] program.items@[j], function@);
                assert(defines_function(program.items@[k], function@));
                assert(defines_function(program.items@[i], function@));
                assert(i == k);
            }
        }
        return ;
    }
    if !reachable.functions.contains_key(function) {
        proof {
            let i = choose|i: int|
                0 <= i < program.items@.len() && program.items@[i] == Item::Function(*source) && forall|j: int|
                    0 <= j < i ==> !defines_function(#[trigger] program.items@[j], function@);
            assert(defines_plain_function(program.items@[i], function@));
        }
        reachable.functions.insert(owned(function), ());
        pending.push(owned(function));
        proof {
            if queue_in(*old(reachable), old(pending)@) {
                assert forall|j: int| 0 <= j < pending@.len() implies reachable.functions.spec_get(#[trigger] pending@[j]@) is Some
                    || reachable.specializations.spec_get(pending@[j]@) is Some by {
                    if j < old(pending)@.len() {
                        assert(pending@[j] == old(pending)@[j]);
                        if old(reachable).functions.spec_get(pending@[j]@) is Some {
                            assert(reachable.functions.spec_get(pending@[j]@) is Some);
                        }
                    }
                }
            }
            if pending_covers(*old(reachable), old(pending)@) {
                lemma_pending_covers_extends(*old(reachable), old(pending)@, pending@);
                assert(pending@[old(pending)@.len() as int]@ == function@);
                assert forall|k: Seq<char>| #[trigger] reachable.functions.spec_get(k) is Some implies exists|j: int|
                    0 <= j < pending@.len() && pending@[j]@ == k by {
                    if k == function@ {
                        assert(pending@[old(pending)@.len() as int]@ == k);
                    } else {
                        assert(old(reachable).functions.spec_get(k) is Some);
                    }
                }
            }
        }
    }
}

fn collect_statement_function_specializations(
    ctx: &SpecializationContext,
    statement: &Statement,
    specializations: &mut NameMap<FunctionSpecialization>,
    unsupported: &mut Vec<String>,
)
    requires
        specializations_valid(*ctx.program, *old(specializations)),
    ensures
        specializations_valid(*ctx.program, *final(specializations)),
        keeps_specializations(*old(specializations), *final(specializations)),
        queue_extends(old(unsupported)@, final(unsupported)@),
        generic_calls_settled(
            *ctx.program,
            *final(specializations),
            final(unsupported)@,
            old(unsupported)@.len() as int,
            statement_calls(*statement),
        ),
    decreases statement, 1nat,
{
    match statement {
        Statement::Let { local, initializer, .. } => {
            let expected = ctx.local_types.get(*local);
            collect_expr_function_specializations(ctx, initializer, expected, specializations, unsupported);
        },
        Statement::Eval { expr } => {
            collect_expr_function_specializations(ctx, expr, None, specializations, unsupported);
        },
        Statement::Assign { target, value } => {
            collect_place_function_specializations(ctx, target, specializations, unsupported);
            let ghost s1 = *specializations;
            let ghost m1 = unsupported@;
            collect_expr_function_specializations(ctx, value, None, specializations, unsupported);
            proof {
                lemma_generic_calls_settled_then(
                    *ctx.program,
                    s1,
                    *specializations,
                    m1,
                    unsupported@,
                    old(unsupported)@.len() as int,
                    place_calls(*target),
                    expr_calls(*value),
                );
            }
        },
    }
}

fn collect_statements_function_specializations(
    ctx: &SpecializationContext,
    statements: &Vec<Statement>,
    specializations: &mut NameMap<FunctionSpecialization>,
    unsupported: &mut Vec<String>,
)
    requires
        specializations_valid(*ctx.program, *old(specializations)),
    ensures
        specializations_valid(*ctx.program, *final(specializations)),
        keeps_specializations(*old(specializations), *final(specializations)),
        queue_extends(old(unsupported)@, final(unsupported)@),
        generic_calls_settled(
            *ctx.program,
            *final(specializations),
            final(unsupported)@,
            old(unsupported)@.len() as int,
            statements_calls(statements@),
        ),
    decreases statements, 0nat,
{
    let mut i: usize = 0;
    assert(statements_calls(statements@.take(0)) =~= Seq::<Seq<char>>::empty());
    while i < statements.len()
        invariant
            specializations_valid(*ctx.program, *specializations),
            keeps_specializations(*old(specializations), *specializations),
            queue_extends(old(unsupported)@, unsupported@),
            i <= statements@.len(),
            generic_calls_settled(
                *ctx.program,
                *specializations,
                unsupported@,
                old(unsupported)@.len() as int,
                statements_calls(statements@.take(i as int)),
            ),
        decreases statements@.len() - i,
    {
        assert(decreases_to!(statements => statements@[i as int]));
        let ghost s1 = *specializations;
        let ghost m1 = unsupported@;
        collect_statement_function_specializations(ctx, &statements[i], specializations, unsupported);
        proof {
            lemma_generic_calls_settled_then(
                *ctx.program,
                s1,
                *specializations,
                m1,
                unsupported@,
                old(unsupported)@.len() as int,
                statements_calls(statements@.take(i as int)),
                statement_calls(statements@[i as int]),
            );
            assert(statements@.take(i + 1).drop_last() =~= statements@.take(i as int));
        }
        i += 1;
    }
    assert(statements@.take(statements@.len() as int) =~= statements@);
}

fn collect_place_function_specializations(
    ctx: &SpecializationContext,
    place: &Place,
    specializations: &mut NameMap<FunctionSpecialization>,
    unsupported: &mut Vec<String>,
)
    requires
        specializations_valid(*ctx.program, *old(specializations)),
    ensures
        specializations_valid(*ctx.program, *final(specializations)),
        keeps_specializations(*old(specializations), *final(specializations)),
        queue_extends(old(unsupported)@, final(unsupported)@),
        generic_calls_settled(
            *ctx.program,
            *final(specializations),
            final(unsupported)@,
            old(unsupported)@.len() as int,
            place_calls(*place),
        ),
    decreases place, 1nat,
{
    match place {
        Place::Local { .. } => {
            assert(place_calls(*place) =~= Seq::<Seq<char>>::empty());
        },
        Place::Field { base, .. } => collect_place_function_specializations(ctx, base, specializations, unsupported),
        Place::Index { base, index } => {
            collect_place_function_specializations(ctx, base, specializations, unsupported);
            let ghost s1 = *specializations;
            let ghost m1 = unsupported@;
            collect_expr_function_specializations(ctx, index, None, specializations, unsupported);
            proof {
                lemma_generic_calls_settled_then(
                    *ctx.program,
                    s1,
                    *specializations,
                    m1,
                    unsupported@,
                    old(unsupported)@.len() as int,
                    place_calls(**base),
                    expr_calls(**index),
                );
            }
        },
    }
}

fn collect_exprs_function_specializations(
    ctx: &SpecializationContext,
    exprs: &Vec<Expr>,
    specializations: &mut NameMap<FunctionSpecialization>,
    unsupported: &mut Vec<String>,
)
    requires
        specializations_valid(*ctx.program, *old(specializations)),
    ensures
        specializations_valid(*ctx.program, *final(specializations)),
        keeps_specializations(*old(specializations), *final(specializations)),
        queue_extends(old(unsupported)@, final(unsupported)@),
        generic_calls_settled(
            *ctx.program,
            *final(specializations),
            final(unsupported)@,
            old(unsupported)@.len() as int,
            exprs_calls(exprs@),
        ),
    decreases exprs, 0nat,
{
    let mut i: usize = 0;
    assert(exprs_calls(exprs@.take(0)) =~= Seq::<Seq<char>>::empty());
    while i < exprs.len()
        invariant
            specializations_valid(*ctx.program, *specializations),
            keeps_specializations(*old(specializations), *specializations),
            queue_extends(old(unsupported)@, unsupported@),
            i <= exprs@.len(),
            generic_calls_settled(
                *ctx.program,
                *specializations,
                unsupported@,
                old(unsupported)@.len() as int,
                exprs_calls(exprs@.take(i as int)),
            ),
        decreases exprs@.len() - i,
    {
        assert(decreases_to!(exprs => exprs@[i as int]));
        let ghost s1 = *specializations;
        let ghost m1 = unsupported@;
        collect_expr_function_specializations(ctx, &exprs[i], None, specializations, unsupported);
        proof {
            lemma_generic_calls_settled_then(
                *ctx.program,
                s1,
                *specializations,
                m1,
                unsupported@,
                old(unsupported)@.len() as int,
                exprs_calls(exprs@.take(i as int)),
                expr_calls(exprs@[i as int]),
            );
            assert(exprs@.take(i + 1).drop_last() =~= exprs@.take(i as int));
        }
        i += 1;
    }
    assert(exprs@.take(exprs@.len() as int) =~= exprs@);
}

fn collect_fields_function_specializations(
    ctx: &SpecializationContext,
    fields: &Vec<StructLiteralField>,
    specializations: &mut NameMap<FunctionSpecialization>,
    unsupported: &mut Vec<String>,
)
    requires
        specializations_valid(*ctx.program, *old(specializations)),
    ensures
        specializations_valid(*ctx.program, *final(specializations)),
        keeps_specializations(*old(specializations), *final(specializations)),
        queue_extends(old(unsupported)@, final(unsupported)@),
        generic_calls_settled(
            *ctx.program,
            *final(specializations),
            final(unsupported)@,
            old(unsupported)@.len() as int,
            fields_calls(fields@),
        ),
    decreases fields, 0nat,
{
    let mut i: usize = 0;
    assert(fields_calls(fields@.take(0)) =~= Seq::<Seq<char>>::empty());
    while i < fields.len()
        invariant
            specializations_valid(*ctx.program, *specializations),
            keeps_specializations(*old(specializations), *specializations),
            queue_extends(old(unsupported)@, unsupported@),
            i <= fields@.len(),
            generic_calls_settled(
                *ctx.program,
                *specializations,
                unsupported@,
                old(unsupported)@.len() as int,
                fields_calls(fields@.take(i as int)),
            ),
        decreases fields@.len() - i,
    {
        assert(decreases_to!(fields => fields@[i as int]));
        assert(decreases_to!(fields@[i as int] => fields@[i as int].value));
        let ghost s1 = *specializations;
        let ghost m1 = unsupported@;
        collect_expr_function_specializations(ctx, &fields[i].value, None, specializations, unsupported);
        proof {
            lemma_generic_calls_settled_then(
                *ctx.program,
                s1,
                *specializations,
                m1,
                unsupported@,
                old(unsupported)@.len() as int,
                fields_calls(fields@.take(i as int)),
                expr_calls(fields@[i as int].value),
            );
            assert(fields@.take(i + 1).drop_last() =~= fields@.take(i as int));
        }
        i += 1;
    }
    assert(fields@.take(fields@.len() as int) =~= fields@);
}

fn collect_arms_function_specializations(
    ctx: &SpecializationContext,
    arms: &Vec<MatchExprArm>,
    expected_type: Option<&Type>,
    specializations: &mut NameMap<FunctionSpecialization>,
    unsupported: &mut Vec<String>,
)
    requires
        specializations_valid(*ctx.program, *old(specializations)),
    ensures
        specializations_valid(*ctx.program, *final(specializations)),
        keeps_specializations(*old(specializations), *final(specializations)),
        queue_extends(old(unsupported)@, final(unsupported)@),
        generic_calls_settled(
            *ctx.program,
            *final(specializations),
            final(unsupported)@,
            old(unsupported)@.len() as int,
            arms_calls(arms@),
        ),
    decreases arms, 0nat,
{
    let bool_ty = Type::Bool;
    let mut i: usize = 0;
    assert(arms_calls(arms@.take(0)) =~= Seq::<Seq<char>>::empty());
    while i < arms.len()
        invariant
            specializations_valid(*ctx.program, *specializations),
            keeps_specializations(*old(specializations), *specializations),
            queue_extends(old(unsupported)@, unsupported@),
            i <= arms@.len(),
            generic_calls_settled(
                *ctx.program,
                *specializations,
                unsupported@,
                old(unsupported)@.len() as int,
                arms_calls(arms@.take(i as int)),
            ),
        decreases arms@.len() - i,
    {
        assert(decreases_to!(arms => arms@[i as int]));
        let arm = &arms[i];
        let ghost s1 = *specializations;
        let ghost m1 = unsupported@;
        match &arm.guard {
            Some(guard) => collect_expr_function_specializations(
                ctx,
                guard,
                Some(&bool_ty),
                specializations,
                unsupported,
            ),
            None => {
                assert(guard_calls(arm.guard) =~= Seq::<Seq<char>>::empty());
            },
        }
        proof {
            lemma_generic_calls_settled_then(
                *ctx.program,
                s1,
                *specializations,
                m1,
                unsupported@,
                old(unsupported)@.len() as int,
                arms_calls(arms@.take(i as int)),
                guard_calls(arm.guard),
            );
        }
        let ghost s2 = *specializations;
        let ghost m2 = unsupported@;
        collect_expr_function_specializations(ctx, &arm.value, expected_type, specializations, unsupported);
        proof {
            lemma_generic_calls_settled_then(
                *ctx.program,
                s2,
                *specializations,
                m2,
                unsupported@,
                old(unsupported)@.len() as int,
                arms_calls(arms@.take(i as int)) + guard_calls(arm.guard),
                expr_calls(arm.value),
            );
            assert(arms@.take(i + 1).drop_last() =~= arms@.take(i as int));
        }
        i += 1;
    }
    assert(arms@.take(arms@.len() as int) =~= arms@);
}

fn collect_expr_function_specializations(
    ctx: &SpecializationContext,
    expr: &Expr,
    expected_type: Option<&Type>,
    specializations: &mut NameMap<FunctionSpecialization>,
    unsupported: &mut Vec<String>,
)
    requires
        specializations_valid(*ctx.program, *old(specializations)),
    ensures
        specializations_valid(*ctx.program, *final(specializations)),
        keeps_specializations(*old(specializations), *final(specializations)),
        queue_extends(old(unsupported)@, final(unsupported)@),
        generic_calls_settled(
            *ctx.program,
            *final(specializations),
            final(unsupported)@,
            old(unsupported)@.len() as int,
            expr_calls(*expr),
        ),
    decreases expr, 1nat,
{
    let i32_ty = Type::I32;
    let ghost from = old(unsupported)@.len() as int;
    match expr {
        Expr::Call { function, arguments } => {
            let ghost head: Seq<Seq<char>> = seq![function@];
            match method_call_name(function.as_str()) {
                Some(method) => {
                    collect_method_specialization(
                        ctx,
                        method.as_str(),
                        arguments,
                        expected_type,
                        specializations,
                        unsupported,
                    );
                    assert(!direct_call(head[0]));
                    assert forall|i: int| 0 <= i < head.len() && direct_call(#[trigger] head[i]) && first_definition_generic(*ctx.program, head[i]) implies call_settled(
                        *specializations,
                        unsupported@,
                        from,
                        head[i],
                    ) by {
                        assert(head[i] == function@);
                    }
                },
                None => {
                    collect_direct_function_specialization(
                        ctx,
                        function.as_str(),
                        arguments,
                        expected_type,
                        specializations,
                        unsupported,
                    );
                    proof {
                        assert(head =~= seq![function@]);
                        assert forall|i: int| 0 <= i < head.len() && direct_call(#[trigger] head[i]) && first_definition_generic(*ctx.program, head[i]) implies call_settled(
                            *specializations,
                            unsupported@,
                            from,
                            head[i],
                        ) by {
                            assert(head[i] == function@);
                        }
                    }
                },
            }
            let ghost s1 = *specializations;
            let ghost m1 = unsupported@;
            collect_exprs_function_specializations(ctx, arguments, specializations, unsupported);
            proof {
                lemma_generic_calls_settled_then(
                    *ctx.program,
                    s1,
                    *specializations,
                    m1,
                    unsupported@,
                    from,
                    head,
                    exprs_calls(arguments@),
                );
            }
        },
        Expr::Unary { expr: inner, .. } => collect_expr_function_specializations(ctx, inner, None, specializations, unsupported),
        Expr::Try { expr: inner } => collect_expr_function_specializations(ctx, inner, None, specializations, unsupported),
        Expr::EnumPayload { value } => collect_expr_function_specializations(ctx, value, None, specializations, unsupported),
        Expr::Field { base, .. } => collect_expr_function_specializations(ctx, base, None, specializations, unsupported),
        Expr::Binary { left, right, .. } => {
            collect_expr_function_specializations(ctx, left, None, specializations, unsupported);
            let ghost s1 = *specializations;
            let ghost m1 = unsupported@;
            collect_expr_function_specializations(ctx, right, None, specializations, unsupported);
            proof {
                lemma_generic_calls_settled_then(
                    *ctx.program,
                    s1,
                    *specializations,
                    m1,
                    unsupported@,
                    from,
                    expr_calls(**left),
                    expr_calls(**right),
                );
            }
        },
        Expr::ArrayLiteral { elements } => collect_exprs_function_specializations(ctx, elements, specializations, unsupported),
        Expr::StructLiteral { fields, .. } => collect_fields_function_specializations(ctx, fields, specializations, unsupported),
        Expr::Block { statements, value } => {
            collect_statements_function_specializations(ctx, statements, specializations, unsupported);
            let ghost s1 = *specializations;
            let ghost m1 = unsupported@;
            collect_expr_function_specializations(ctx, value, expected_type, specializations, unsupported);
            proof {
                lemma_generic_calls_settled_then(
                    *ctx.program,
                    s1,
                    *specializations,
                    m1,
                    unsupported@,
                    from,
                    statements_calls(statements@),
                    expr_calls(**value),
                );
            }
        },
        Expr::Match { scrutinee, arms } => {
            collect_expr_function_specializations(ctx, scrutinee, None, specializations, unsupported);
            let ghost s1 = *specializations;
            let ghost m1 = unsupported@;
            collect_arms_function_specializations(ctx, arms, expected_type, specializations, unsupported);
            proof {
                lemma_generic_calls_settled_then(
                    *ctx.program,
                    s1,
                    *specializations,
                    m1,
                    unsupported@,
                    from,
                    expr_calls(**scrutinee),
                    arms_calls(arms@),
                );
            }
        },
        Expr::EnumVariant { payload, .. } => match payload {
            Some(payload) => collect_expr_function_specializations(ctx, payload, None, specializations, unsupported),
            None => {
                assert(expr_calls(*expr) =~= Seq::<Seq<char>>::empty());
            },
        },
        Expr::MatchTest { scrutinee, .. } => collect_expr_function_specializations(ctx, scrutinee, None, specializations, unsupported),
        Expr::Index { base, index } => {
            collect_expr_function_specializations(ctx, base, None, specializations, unsupported);
            let ghost s1 = *specializations;
            let ghost m1 = unsupported@;
            collect_expr_function_specializations(ctx, index, Some(&i32_ty), specializations, unsupported);
            proof {
                lemma_generic_calls_settled_then(
                    *ctx.program,
                    s1,
                    *specializations,
                    m1,
                    unsupported@,
                    from,
                    expr_calls(**base),
                    expr_calls(**index),
                );
            }
        },
        Expr::Slice { base, start, end } => {
            collect_expr_function_specializations(ctx, base, None, specializations, unsupported);
            let ghost s1 = *specializations;
            let ghost m1 = unsupported@;
            collect_expr_function_specializations(ctx, start, Some(&i32_ty), specializations, unsupported);
            proof {
                lemma_generic_calls_settled_then(
                    *ctx.program,
                    s1,
                    *specializations,
                    m1,
                    unsupported@,
                    from,
                    expr_calls(**base),
                    expr_calls(**start),
                );
            }
            let ghost s2 = *specializations;
            let ghost m2 = unsupported@;
            collect_expr_function_specializations(ctx, end, Some(&i32_ty), specializations, unsupported);
            proof {
                lemma_generic_calls_settled_then(
                    *ctx.program,
                    s2,
                    *specializations,
                    m2,
                    unsupported@,
                    from,
                    expr_calls(**base) + expr_calls(**start),
                    expr_calls(**end),
                );
            }
        },
        Expr::Int { .. } | Expr::Float { .. } | Expr::Bool { .. } | Expr::String { .. }
        | Expr::Local { .. } | Expr::Const { .. } => {
            assert(expr_calls(*expr) =~= Seq::<Seq<char>>::empty());
        },
    }
}

fn collect_direct_function_specialization(
    ctx: &SpecializationContext,
    function: &str,
    arguments: &Vec<Expr>,
    expected_type: Option<&Type>,
    specializations: &mut NameMap<FunctionSpecialization>,
    unsupported: &mut Vec<String>,
)
    requires
        specializations_valid(*ctx.program, *old(specializations)),
    ensures
        specializations_valid(*ctx.program, *final(specializations)),
        keeps_specializations(*old(specializations), *final(specializations)),
        queue_extends(old(unsupported)@, final(unsupported)@),
        (forall|j: int| 0 <= j < ctx.program.items@.len() ==> !defines_function(#[trigger] ctx.program.items@[j], function@))
            ==> *final(specializations) == *old(specializations) && final(unsupported)@ == old(unsupported)@,
        first_definition_generic(*ctx.program, function@) ==> (final(unsupported)@.len() == old(unsupported)@.len() + 1
            && *final(specializations) == *old(specializations)) || (final(unsupported)@ == old(unsupported)@
            && exists|type_params: Seq<String>, subs: NameMap<Type>|
            #[trigger] final(specializations).spec_get(specialization_key(function@, type_params, subs)) is Some),
        first_definition_generic(*ctx.program, function@) ==> call_settled(
            *final(specializations),
            final(unsupported)@,
            old(unsupported)@.len() as int,
            function@,
        ),
{
    let source = match find_function_source(ctx.program, function) {
        Some(source) => source,
        None => return ,
    };
    proof {
        if first_definition_generic(*ctx.program, function@) {
            let i = choose|i: int|
                0 <= i < ctx.program.items@.len() && ctx.program.items@[i] == Item::Function(*source) && forall|j: int|
                    0 <= j < i ==> !defines_function(#[trigger] ctx.program.items@[j], function@);
            let k = choose|k: int|
                0 <= k < ctx.program.items@.len() && (#[trigger] ctx.program.items@[k] matches Item::Function(f)
                    && f.name@ == function@ && f.type_params@.len() > 0) && forall|j: int|
                    0 <= j < k ==> !defines_function(#[trigger] ctx.program.items@[j], function@);
            if i < k {
                assert(defines_function(ctx.program.items@[i], function@));
            } else if k < i {
                assert(defines_function(ctx.program.items@[k], function@));
            }
            assert(source.type_params@.len() > 0);
        }
    }
    collect_generic_function_specialization(
        ctx,
        function,
        source,
        arguments,
        expected_type,
        specializations,
        unsupported,
        "function",
    );
}

fn collect_method_specialization(
    ctx: &SpecializationContext,
    method: &str,
    arguments: &Vec<Expr>,
    expected_type: Option<&Type>,
    specializations: &mut NameMap<FunctionSpecialization>,
    unsupported: &mut Vec<String>,
)
    requires
        specializations_valid(*ctx.program, *old(specializations)),
    ensures
        specializations_valid(*ctx.program, *final(specializations)),
        keeps_specializations(*old(specializations), *final(specializations)),
        queue_extends(old(unsupported)@, final(unsupported)@),
{
    if arguments.len() == 0 {
        return ;
    }
    let receiver_ty = match static_expr_type(&arguments[0], ctx.local_types, ctx.overrides) {
        Some(t) => t,
        None => return ,
    };
    let method_function = match method_function_name(method, &receiver_ty) {
        Some(name) => name,
        None => return ,
    };
    let source = match find_function_source(ctx.program, method_function.as_str()) {
        Some(source) => source,
        None => return ,
    };
    collect_generic_function_specialization(
        ctx,
        method_function.as_str(),
        source,
        arguments,
        expected_type,
        specializations,
        unsupported,
        "method",
    );
}

fn collect_generic_function_specialization(
    ctx: &SpecializationContext,
    function_name: &str,
    source: &Function,
    arguments: &Vec<Expr>,
    expected_type: Option<&Type>,
    specializations: &mut NameMap<FunctionSpecialization>,
    unsupported: &mut Vec<String>,
    label: &str,
)
    requires
        specializations_valid(*ctx.program, *old(specializations)),
        source.name@ == function_name@,
        exists|i: int| 0 <= i < ctx.program.items@.len() && ctx.program.items@[i] == Item::Function(*source),
    ensures
        specializations_valid(*ctx.program, *final(specializations)),
        keeps_specializations(*old(specializations), *final(specializations)),
        queue_extends(old(unsupported)@, final(unsupported)@),
        source.type_params@.len() == 0 ==> *final(specializations) == *old(specializations)
            && final(unsupported)@ == old(unsupported)@,
        source.type_params@.len() > 0 ==> (final(unsupported)@.len() == old(unsupported)@.len() + 1
            && final(unsupported)@.take(old(unsupported)@.len() as int) == old(unsupported)@
            && names_function(final(unsupported)@[old(unsupported)@.len() as int]@, function_name@)
            && *final(specializations) == *old(specializations))
            || (final(unsupported)@ == old(unsupported)@ && exists|subs: NameMap<Type>|
            #[trigger] final(specializations).spec_get(specialization_key(function_name@, source.type_params@, subs))
                is Some),
        source.type_params@.len() > 0 && source.params@.len() != arguments@.len() ==> final(unsupported)@.len()
            == old(unsupported)@.len() + 1,
        source.type_params@.len() > 0 && source.params@.len() != arguments@.len() ==> {
            &&& final(unsupported)@.drop_last() == old(unsupported)@
            &&& final(unsupported)@.last()@ == label@ + " "@ + "`"@ + function_name@ + "`"@ + " has "@ + decimal(
                source.params@.len(),
            ) + " argument(s), but LLVM AOT saw "@ + decimal(arguments@.len())
            &&& *final(specializations) == *old(specializations)
        },
{
    if source.type_params.len() == 0 {
        return ;
    }
    if source.params.len() != arguments.len() {
        let declared = usize_to_decimal(source.params.len());
        let seen = usize_to_decimal(arguments.len());
        let before = concat(&[label, " "]);
        let after = concat(&[" has ", declared.as_str(), " argument(s), but LLVM AOT saw ", seen.as_str()]);
        proof {
            reveal_with_fuel(concat_all, 5);
        }
        let message = quoted_message(before.as_str(), function_name, after.as_str());
        assert(before@ =~= label@ + " "@);
        assert(after@ =~= " has "@ + decimal(source.params@.len()) + " argument(s), but LLVM AOT saw "@ + decimal(
            arguments@.len(),
        ));
        assert(message@ =~= label@ + " "@ + "`"@ + function_name@ + "`"@ + " has "@ + decimal(source.params@.len())
            + " argument(s), but LLVM AOT saw "@ + decimal(arguments@.len()));
        unsupported.push(message);
        assert(unsupported@.drop_last() =~= old(unsupported)@);
        return ;
    }
    let mut substitutions: NameMap<Type> = NameMap::new();
    let mut i: usize = 0;
    while i < source.params.len()
        invariant
            specializations_valid(*ctx.program, *specializations),
            keeps_specializations(*old(specializations), *specializations),
            queue_extends(old(unsupported)@, unsupported@),
            *specializations == *old(specializations),
            unsupported@ == old(unsupported)@,
            source.type_params@.len() > 0,
            i <= source.params@.len(),
            source.params@.len() == arguments@.len(),
        decreases source.params@.len() - i,
    {
        match static_expr_type(&arguments[i], ctx.local_types, ctx.overrides) {
            Some(argument_ty) => {
                match bind_type_params(&source.params[i].ty, &argument_ty, &mut substitutions) {
                    Ok(()) => {},
                    Err(reason) => {
                        let before = concat(&["generic ", label, " "]);
                        let after = concat(&[" specialization failed: ", reason.as_str()]);
                        unsupported.push(quoted_message(before.as_str(), function_name, after.as_str()));
                        return ;
                    },
                }
            },
            None => {},
        }
        i += 1;
    }
    match expected_type {
        Some(expected) => match bind_type_params(&source.return_type, expected, &mut substitutions) {
            Ok(()) => {},
            Err(reason) => {
                let before = concat(&["generic ", label, " "]);
                let after = concat(&[" expected return type specialization failed: ", reason.as_str()]);
                unsupported.push(quoted_message(before.as_str(), function_name, after.as_str()));
                return ;
            },
        },
        None => {},
    }
    let mut p: usize = 0;
    while p < source.type_params.len()
        invariant
            specializations_valid(*ctx.program, *specializations),
            keeps_specializations(*old(specializations), *specializations),
            queue_extends(old(unsupported)@, unsupported@),
            *specializations == *old(specializations),
            unsupported@ == old(unsupported)@,
            source.type_params@.len() > 0,
            source.params@.len() == arguments@.len(),
            p <= source.type_params@.len(),
            forall|q: int|
                0 <= q < p ==> (#[trigger] substitutions.spec_get(source.type_params@[q]@)) is Some,
        decreases source.type_params@.len() - p,
    {
        if !substitutions.contains_key(source.type_params[p].as_str()) {
            let before = concat(&["generic ", label, " "]);
            unsupported.push(
                quoted_message(
                    before.as_str(),
                    function_name,
                    " needs type arguments that LLVM AOT v0 could not infer",
                ),
            );
            return ;
        }
        p += 1;
    }
    let key = function_specialization_key(function_name, &source.type_params, &substitutions);
    if !specializations.contains_key(key.as_str()) {
        let specialization = FunctionSpecialization {
            key: key.clone(),
            source_name: owned(function_name),
            substitutions,
        };
        let ghost i = choose|i: int|
            0 <= i < ctx.program.items@.len() && ctx.program.items@[i] == Item::Function(*source);
        assert(instantiates(*ctx.program, key@, specialization, i));
        specializations.insert(key, specialization);
    }
    assert(specializations.spec_get(specialization_key(function_name@, source.type_params@, substitutions)) is Some);
}

/// The function that implements `method` for receivers of type `receiver_ty`:
/// `Type.method` for struct and enum receivers.
pub fn method_function_name(method: &str, receiver_ty: &Type) -> (r: Option<String>)
    ensures
        r matches Some(name) ==> (receiver_ty matches Type::Struct { name: n } ==> name@ == n@
            + "."@ + method@),
        r matches Some(name) ==> exists|n: Seq<char>| name@ == n + "."@ + method@,
        r is None <==> !(receiver_ty is Struct || receiver_ty is StructInstance
            || receiver_ty is Enum || receiver_ty is EnumInstance),
{
    let name = match receiver_ty {
        Type::Struct { name } => name,
        Type::StructInstance { name, .. } => name,
        Type::Enum { name } => name,
        Type::EnumInstance { name, .. } => name,
        _ => return None,
    };
    let mut out = owned(name.as_str());
    out.append(".");
    out.append(method);
    Some(out)
}

fn mismatch(pattern: &Type, concrete: &Type) -> (r: String)
    ensures
        r@ == "expected "@ + ax_name_of(*pattern) + ", found "@ + ax_name_of(*concrete),
{
    let expected = ax_type_name(pattern);
    let found = ax_type_name(concrete);
    let r = concat(&["expected ", expected.as_str(), ", found ", found.as_str()]);
    proof {
        reveal_with_fuel(concat_all, 5);
    }
    r
}

/// `ty` mentions the type parameter `name`.
pub open spec fn mentions_type_param(ty: Type, name: Seq<char>) -> bool
    decreases ty,
{
    match ty {
        Type::TypeParam { name: n } => n@ == name,
        Type::Slice { element } => mentions_type_param(*element, name),
        Type::Array { element, .. } => mentions_type_param(*element, name),
        Type::StructInstance { args, .. } => exists|i: int|
            0 <= i < args@.len() && mentions_type_param(#[trigger] args@[i], name),
        Type::EnumInstance { args, .. } => exists|i: int|
            0 <= i < args@.len() && mentions_type_param(#[trigger] args@[i], name),
        _ => false,
    }
}

/// Every binding of `later` is one of `earlier` or names a type parameter
/// of `pattern`.
pub open spec fn binds_only_params_of(
    earlier: NameMap<Type>,
    later: NameMap<Type>,
    pattern: Type,
) -> bool {
    forall|k: Seq<char>|
        #[trigger] later.spec_get(k) is Some ==> earlier.spec_get(k) is Some || mentions_type_param(pattern, k)
}

/// Binds the type parameters of `pattern` so that it becomes `concrete`,
/// failing when a parameter would get two different types or the shapes differ.
/// Bindings already present are kept.
pub fn bind_type_params(pattern: &Type, concrete: &Type, substitutions: &mut NameMap<Type>) -> (r:
    Result<(), String>)
    ensures
        extends(*old(substitutions), *final(substitutions)),
        r is Ok ==> instance_of(*pattern, *concrete, *final(substitutions)),
        *pattern matches Type::TypeParam { name } ==> (r is Ok <==> (old(substitutions).spec_get(name@) matches Some(
            t,
        ) ==> same_type(t, *concrete))),
        !contains_type_param(*pattern) ==> (r is Ok <==> same_type(*pattern, *concrete)),
        !contains_type_param(*pattern) ==> *final(substitutions) == *old(substitutions),
        binds_only_params_of(*old(substitutions), *final(substitutions), *pattern),
        *pattern matches Type::TypeParam { name } ==> (r matches Err(e) ==> (old(substitutions).spec_get(name@) matches Some(
            t,
        ) && e@ == "type parameter `"@ + name@ + "` was inferred as both "@ + ax_name_of(t) + " and "@
            + ax_name_of(*concrete)) && *final(substitutions) == *old(substitutions)),
    decreases pattern, 1nat,
{
    match pattern {
        Type::TypeParam { name } => {
            match substitutions.get(name.as_str()) {
                Some(existing) => {
                    if type_eq(existing, concrete) {
                        Ok(())
                    } else {
                        let first = ax_type_name(existing);
                        let second = ax_type_name(concrete);
                        let message = concat(
                            &[
                                "type parameter `",
                                name.as_str(),
                                "` was inferred as both ",
                                first.as_str(),
                                " and ",
                                second.as_str(),
                            ],
                        );
                        proof {
                            reveal_with_fuel(concat_all, 7);
                            assert(message@ =~= "type parameter `"@ + name@ + "` was inferred as both "@ + first@
                                + " and "@ + second@);
                        }
                        Err(message)
                    }
                },
                None => {
                    let bound = clone_type(concrete);
                    substitutions.insert(name.clone(), bound);
                    Ok(())
                },
            }
        },
        Type::Array { element, length } => match concrete {
            Type::Array { element: concrete_element, length: concrete_length } => {
                if *length != *concrete_length {
                    return Err(mismatch(pattern, concrete));
                }
                bind_type_params(element, concrete_element, substitutions)
            },
            _ => Err(mismatch(pattern, concrete)),
        },
        Type::Slice { element } => match concrete {
            Type::Slice { element: concrete_element } => bind_type_params(
                element,
                concrete_element,
                substitutions,
            ),
            _ => Err(mismatch(pattern, concrete)),
        },
        Type::StructInstance { name, args } => match concrete {
            Type::StructInstance { name: concrete_name, args: concrete_args } => {
                if !str_eq(name.as_str(), concrete_name.as_str()) || args.len() != concrete_args.len() {
                    proof {
                        if args@.len() != concrete_args@.len() {
                            assert(!same_types(args@, concrete_args@));
                        }
                    }
                    return Err(mismatch(pattern, concrete));
                }
                bind_all_type_params(args, concrete_args, substitutions)
            },
            _ => Err(mismatch(pattern, concrete)),
        },
        Type::EnumInstance { name, args } => match concrete {
            Type::EnumInstance { name: concrete_name, args: concrete_args } => {
                if !str_eq(name.as_str(), concrete_name.as_str()) || args.len() != concrete_args.len() {
                    proof {
                        if args@.len() != concrete_args@.len() {
                            assert(!same_types(args@, concrete_args@));
                        }
                    }
                    return Err(mismatch(pattern, concrete));
                }
                bind_all_type_params(args, concrete_args, substitutions)
            },
            _ => Err(mismatch(pattern, concrete)),
        },
        _ => {
            if type_eq(pattern, concrete) {
                Ok(())
            } else {
                Err(mismatch(pattern, concrete))
            }
        },
    }
}

/// Whatever bindings `bind_type_params` reports for a pattern and a concrete
/// type, substituting them back into the pattern with `substitute_type_params`
/// gives that concrete type again.
pub proof fn substituting_bindings_restores_concrete(
    pattern: Type,
    concrete: Type,
    substitutions: NameMap<Type>,
    substituted: Type,
)
    requires
        instance_of(pattern, concrete, substitutions),
        params_bound(pattern, substitutions) ==> instance_of(pattern, substituted, substitutions),
    ensures
        same_type(substituted, concrete),
{
    lemma_instance_of_binds_params(pattern, concrete, substitutions);
    lemma_instance_of_unique(pattern, substituted, concrete, substitutions);
}

fn bind_all_type_params(args: &Vec<Type>, concrete_args: &Vec<Type>, substitutions: &mut NameMap<Type>) -> (r: Result<(), String>)
    requires
        args@.len() == concrete_args@.len(),
    ensures
        extends(*old(substitutions), *final(substitutions)),
        r is Ok ==> instances_of(args@, concrete_args@, *final(substitutions)),
        (forall|j: int| 0 <= j < args@.len() ==> !contains_type_param(#[trigger] args@[j])) ==> (r is Ok
            <==> same_types(args@, concrete_args@)) && *final(substitutions) == *old(substitutions),
        forall|k: Seq<char>|
            #[trigger] final(substitutions).spec_get(k) is Some ==> old(substitutions).spec_get(k) is Some || exists|
                j: int,
            | 0 <= j < args@.len() && mentions_type_param(#[trigger] args@[j], k),
    decreases args, 0nat,
{
    let ghost start = *substitutions;
    let mut i: usize = 0;
    while i < args.len()
        invariant
            i <= args@.len(),
            args@.len() == concrete_args@.len(),
            start == *old(substitutions),
            extends(start, *substitutions),
            forall|j: int| 0 <= j < i ==> instance_of(args@[j], concrete_args@[j], *substitutions),
            (forall|j: int| 0 <= j < args@.len() ==> !contains_type_param(#[trigger] args@[j])) ==> *substitutions
                == start && forall|j: int| 0 <= j < i ==> same_type(args@[j], concrete_args@[j]),
            forall|k: Seq<char>|
                #[trigger] substitutions.spec_get(k) is Some ==> start.spec_get(k) is Some || exists|j: int|
                    0 <= j < i && mentions_type_param(#[trigger] args@[j], k),
        decreases args@.len() - i,
    {
        assert(decreases_to!(args => args@[i as int]));
        let ghost before = *substitutions;
        let bound = bind_type_params(&args[i], &concrete_args[i], substitutions);
        proof {
            assert forall|j: int| 0 <= j < i implies instance_of(
                args@[j],
                concrete_args@[j],
                *substitutions,
            ) by {
                lemma_instance_of_extends(args@[j], concrete_args@[j], before, *substitutions);
            }
            assert forall|k: Seq<char>| #[trigger] start.spec_get(k) is Some implies substitutions.spec_get(k)
                == start.spec_get(k) by {
                assert(before.spec_get(k) is Some);
            }
            assert forall|k: Seq<char>| #[trigger] substitutions.spec_get(k) is Some implies start.spec_get(k) is Some
                || exists|j: int| 0 <= j < i + 1 && mentions_type_param(#[trigger] args@[j], k) by {
                if !(before.spec_get(k) is Some) {
                    assert(mentions_type_param(args@[i as int], k));
                } else if !(start.spec_get(k) is Some) {
                    let j = choose|j: int| 0 <= j < i && mentions_type_param(#[trigger] args@[j], k);
                    assert(0 <= j < i + 1 && mentions_type_param(args@[j], k));
                }
            }
        }
        match bound {
            Ok(()) => {},
            Err(e) => return Err(e),
        }
        i += 1;
    }
    Ok(())
}

/// The source names of the types that `substitutions` binds to `type_params`,
/// in parameter order, skipping unbound parameters.
pub open spec fn bound_type_names(type_params: Seq<String>, substitutions: NameMap<Type>) -> Seq<
    Seq<char>,
>
    decreases type_params.len(),
{
    if type_params.len() == 0 {
        Seq::empty()
    } else {
        let rest = bound_type_names(type_params.drop_last(), substitutions);
        match substitutions.spec_get(type_params.last()@) {
            Some(t) => rest.push(ax_name_of(t)),
            None => rest,
        }
    }
}

/// The key of a specialization: `function<A, B>`.
pub open spec fn specialization_key(
    function: Seq<char>,
    type_params: Seq<String>,
    substitutions: NameMap<Type>,
) -> Seq<char> {
    function + "<"@ + joined(bound_type_names(type_params, substitutions), ", "@) + ">"@
}

/// The key of a specialization: `function<A, B>` with the bound type
/// arguments in type parameter order.
pub fn function_specialization_key(
    function: &str,
    type_params: &Vec<String>,
    substitutions: &NameMap<Type>,
) -> (r: String)
    ensures
        r@ == specialization_key(function@, type_params@, *substitutions),
{
    let mut out = owned(function);
    out.append("<");
    let ghost head = out@;
    let mut first = true;
    let mut i: usize = 0;
    while i < type_params.len()
        invariant
            i <= type_params@.len(),
            head == function@ + "<"@,
            first == (bound_type_names(type_params@.take(i as int), *substitutions).len() == 0),
            out@ == head + joined(bound_type_names(type_params@.take(i as int), *substitutions), ", "@),
        decreases type_params@.len() - i,
    {
        let ghost names = bound_type_names(type_params@.take(i as int), *substitutions);
        assert(type_params@.take(i + 1).drop_last() =~= type_params@.take(i as int));
        match substitutions.get(type_params[i].as_str()) {
            Some(ty) => {
                if !first {
                    out.append(", ");
                }
                let name = ax_type_name(ty);
                out.append(name.as_str());
                first = false;
                proof {
                    let grown = names.push(ax_name_of(*ty));
                    assert(grown.drop_last() =~= names);
                    if names.len() == 0 {
                        assert(joined(grown, ", "@) == grown[0]);
                    }
                    assert(bound_type_names(type_params@.take(i + 1), *substitutions) == grown);
                }
            },
            None => {
                assert(bound_type_names(type_params@.take(i + 1), *substitutions) == names);
            },
        }
        i += 1;
    }
    assert(type_params@.take(type_params@.len() as int) =~= type_params@);
    out.append(">");
    out
}

} // verus!
