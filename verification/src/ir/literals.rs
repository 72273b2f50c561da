//! The model of the string literal table: which texts a program uses, in the
//! order the module collects them, and the `@.ax_str_N` globals they get.
use vstd::prelude::*;
use vstd::utf8::encode_utf8;
use crate::mir::{
    BasicBlock, Expr, Item, MatchExprArm, MatchPattern, Place, Program, Statement, StructLiteralField,
    Terminator,
};
use crate::name_map::NameMap;
use crate::text::{c_string_encoding, decimal, lemma_decimal_injective};
use super::model::{EnumLayout, EnumVariantLayout, StringLiteral, StructFieldLayout, StructLayout};

verus! {

/// A string literal global as plain values: its symbol, its length in bytes
/// with the terminating NUL, and its LLVM-escaped bytes.
pub open spec fn literal_view(lit: StringLiteral) -> (Seq<char>, nat, Seq<char>) {
    (lit.symbol@, lit.len as nat, lit.encoded@)
}

/// The literal table of a module as a map from text to global.
pub open spec fn literal_table(m: NameMap<StringLiteral>) -> Map<Seq<char>, (Seq<char>, nat, Seq<char>)> {
    Map::new(|k: Seq<char>| m.spec_get(k) is Some, |k: Seq<char>| literal_view(m.spec_get(k)->0))
}

/// The global of `value` under the symbol numbered `id`.
pub open spec fn literal_global(value: Seq<char>, id: nat) -> (Seq<char>, nat, Seq<char>) {
    ("@.ax_str_"@ + decimal(id), encode_utf8(value).len() + 1, c_string_encoding(encode_utf8(value)))
}

/// The table and the next number after `value` was interned: a text already
/// present keeps its global; a new one takes the next number.
pub open spec fn intern_one(
    table: Map<Seq<char>, (Seq<char>, nat, Seq<char>)>,
    id: nat,
    value: Seq<char>,
) -> (Map<Seq<char>, (Seq<char>, nat, Seq<char>)>, nat) {
    if table.contains_key(value) {
        (table, id)
    } else {
        (table.insert(value, literal_global(value, id)), id + 1)
    }
}

/// Interning `value` stays within the machine's numbers: either the text is
/// present, or its number and its length with the NUL fit in a `usize`.
pub open spec fn fits_one(table: Map<Seq<char>, (Seq<char>, nat, Seq<char>)>, id: nat, value: Seq<char>) -> bool {
    table.contains_key(value) || (id < usize::MAX && encode_utf8(value).len() < usize::MAX)
}

/// The table and the next number after interning `values` in order.
pub open spec fn intern(
    table: Map<Seq<char>, (Seq<char>, nat, Seq<char>)>,
    id: nat,
    values: Seq<Seq<char>>,
) -> (Map<Seq<char>, (Seq<char>, nat, Seq<char>)>, nat)
    decreases values.len(),
{
    if values.len() == 0 {
        (table, id)
    } else {
        let next = intern_one(table, id, values[0]);
        intern(next.0, next.1, values.drop_first())
    }
}

/// Interning `values` in order stays within the machine's numbers.
pub open spec fn intern_fits(
    table: Map<Seq<char>, (Seq<char>, nat, Seq<char>)>,
    id: nat,
    values: Seq<Seq<char>>,
) -> bool
    decreases values.len(),
{
    values.len() == 0 || (fits_one(table, id, values[0]) && {
        let next = intern_one(table, id, values[0]);
        intern_fits(next.0, next.1, values.drop_first())
    })
}

/// Interning `a + b` is interning `a`, then `b`.
pub proof fn lemma_intern_concat(
    table: Map<Seq<char>, (Seq<char>, nat, Seq<char>)>,
    id: nat,
    a: Seq<Seq<char>>,
    b: Seq<Seq<char>>,
)
    ensures
        intern(table, id, a + b) == intern(intern(table, id, a).0, intern(table, id, a).1, b),
        intern_fits(table, id, a + b) == (intern_fits(table, id, a) && intern_fits(
            intern(table, id, a).0,
            intern(table, id, a).1,
            b,
        )),
    decreases a.len(),
{
    if a.len() == 0 {
        assert(a + b =~= b);
    } else {
        assert((a + b).drop_first() =~= a.drop_first() + b);
        let next = intern_one(table, id, a[0]);
        lemma_intern_concat(next.0, next.1, a.drop_first(), b);
    }
}

/// Interning one text.
pub proof fn lemma_intern_single(table: Map<Seq<char>, (Seq<char>, nat, Seq<char>)>, id: nat, value: Seq<char>)
    ensures
        intern(table, id, seq![value]) == intern_one(table, id, value),
        intern_fits(table, id, seq![value]) == fits_one(table, id, value),
{
    let next = intern_one(table, id, value);
    assert(seq![value].drop_first() =~= Seq::<Seq<char>>::empty());
    assert(intern(next.0, next.1, Seq::<Seq<char>>::empty()) == next);
    assert(intern_fits(next.0, next.1, Seq::<Seq<char>>::empty()));
}

/// The texts of a pattern, in the order the table collects them.
pub open spec fn pattern_strings(pattern: MatchPattern) -> Seq<Seq<char>>
    decreases pattern, 1nat,
{
    match pattern {
        MatchPattern::String { value } => seq![value@],
        MatchPattern::Or { alternatives } => patterns_strings(alternatives@),
        _ => Seq::empty(),
    }
}

/// The texts of a list of patterns.
pub open spec fn patterns_strings(items: Seq<MatchPattern>) -> Seq<Seq<char>>
    decreases items, 0nat,
{
    if items.len() == 0 {
        Seq::empty()
    } else {
        pattern_strings(items[0]) + patterns_strings(items.drop_first())
    }
}

/// The string literals of an expression, left to right.
pub open spec fn expr_strings(expr: Expr) -> Seq<Seq<char>>
    decreases expr, 1nat,
{
    match expr {
        Expr::String { value } => seq![value@],
        Expr::Unary { expr: inner, .. } => expr_strings(*inner),
        Expr::Try { expr: inner } => expr_strings(*inner),
        Expr::EnumPayload { value } => expr_strings(*value),
        Expr::Field { base, .. } => expr_strings(*base),
        Expr::Binary { left, right, .. } => expr_strings(*left) + expr_strings(*right),
        Expr::Call { arguments, .. } => exprs_strings(arguments@),
        Expr::ArrayLiteral { elements } => exprs_strings(elements@),
        Expr::StructLiteral { fields, .. } => fields_strings(fields@),
        Expr::Block { statements, value } => statements_strings(statements@) + expr_strings(*value),
        Expr::Match { scrutinee, arms } => expr_strings(*scrutinee) + arms_strings(arms@),
        Expr::EnumVariant { payload, .. } => match payload {
            Some(inner) => expr_strings(*inner),
            None => Seq::empty(),
        },
        Expr::MatchTest { scrutinee, pattern } => expr_strings(*scrutinee) + pattern_strings(pattern),
        Expr::Index { base, index } => expr_strings(*base) + expr_strings(*index),
        Expr::Slice { base, start, end } => expr_strings(*base) + expr_strings(*start) + expr_strings(*end),
        _ => Seq::empty(),
    }
}

/// The string literals of a list of expressions.
pub open spec fn exprs_strings(items: Seq<Expr>) -> Seq<Seq<char>>
    decreases items, 0nat,
{
    if items.len() == 0 {
        Seq::empty()
    } else {
        expr_strings(items[0]) + exprs_strings(items.drop_first())
    }
}

/// The string literals of the values of struct literal fields.
pub open spec fn fields_strings(items: Seq<StructLiteralField>) -> Seq<Seq<char>>
    decreases items, 0nat,
{
    if items.len() == 0 {
        Seq::empty()
    } else {
        expr_strings(items[0].value) + fields_strings(items.drop_first())
    }
}

/// The string literals of a match arm's guard, if it has one.
pub open spec fn guard_strings(guard: Option<Expr>) -> Seq<Seq<char>>
    decreases guard, 0nat,
{
    match guard {
        Some(guard) => expr_strings(guard),
        None => Seq::empty(),
    }
}

/// The string literals of a match arm: its pattern's, its guard's, its value's.
pub open spec fn arm_strings(arm: MatchExprArm) -> Seq<Seq<char>>
    decreases arm, 1nat,
{
    pattern_strings(arm.pattern) + guard_strings(arm.guard) + expr_strings(arm.value)
}

/// The string literals of a list of match arms.
pub open spec fn arms_strings(items: Seq<MatchExprArm>) -> Seq<Seq<char>>
    decreases items, 0nat,
{
    if items.len() == 0 {
        Seq::empty()
    } else {
        arm_strings(items[0]) + arms_strings(items.drop_first())
    }
}

/// The string literals of an assignment target.
pub open spec fn place_strings(place: Place) -> Seq<Seq<char>>
    decreases place, 1nat,
{
    match place {
        Place::Local { .. } => Seq::empty(),
        Place::Field { base, .. } => place_strings(*base),
        Place::Index { base, index } => place_strings(*base) + expr_strings(*index),
    }
}

/// The string literals of a statement.
pub open spec fn statement_strings(statement: Statement) -> Seq<Seq<char>>
    decreases statement, 1nat,
{
    match statement {
        Statement::Let { initializer, .. } => expr_strings(initializer),
        Statement::Eval { expr } => expr_strings(expr),
        Statement::Assign { target, value } => place_strings(target) + expr_strings(value),
    }
}

/// The string literals of a list of statements.
pub open spec fn statements_strings(items: Seq<Statement>) -> Seq<Seq<char>>
    decreases items, 0nat,
{
    if items.len() == 0 {
        Seq::empty()
    } else {
        statement_strings(items[0]) + statements_strings(items.drop_first())
    }
}

/// The string literals of a terminator.
pub open spec fn terminator_strings(terminator: Terminator) -> Seq<Seq<char>> {
    match terminator {
        Terminator::Branch { condition, .. } => expr_strings(condition),
        Terminator::Return { value } => expr_strings(value),
        Terminator::Goto { .. } | Terminator::Unreachable => Seq::empty(),
    }
}

/// The string literals of a basic block: its statements', then its terminator's.
pub open spec fn block_strings(block: BasicBlock) -> Seq<Seq<char>> {
    statements_strings(block.statements@) + terminator_strings(block.terminator)
}

/// The string literals of a list of basic blocks.
pub open spec fn blocks_strings(items: Seq<BasicBlock>) -> Seq<Seq<char>>
    decreases items.len(),
{
    if items.len() == 0 {
        Seq::empty()
    } else {
        block_strings(items[0]) + blocks_strings(items.drop_first())
    }
}

/// The string literals of an item: a function's blocks', or a constant's value's.
pub open spec fn item_strings(item: Item) -> Seq<Seq<char>> {
    match item {
        Item::Function(function) => blocks_strings(function.blocks@),
        Item::Const { value, .. } => expr_strings(value),
        _ => Seq::empty(),
    }
}

/// The string literals of a list of items.
pub open spec fn items_strings(items: Seq<Item>) -> Seq<Seq<char>>
    decreases items.len(),
{
    if items.len() == 0 {
        Seq::empty()
    } else {
        item_strings(items[0]) + items_strings(items.drop_first())
    }
}

/// The labels of struct fields in a formatted value: `name: `.
pub open spec fn field_labels(fields: Seq<StructFieldLayout>) -> Seq<Seq<char>>
    decreases fields.len(),
{
    if fields.len() == 0 {
        Seq::empty()
    } else {
        seq![fields[0].name@ + ": "@] + field_labels(fields.drop_first())
    }
}

/// The texts a struct's formatter prints: `Name { `, then each field label.
pub open spec fn struct_formatter_strings(layout: StructLayout) -> Seq<Seq<char>> {
    seq![layout.name@ + " { "@] + field_labels(layout.fields@)
}

/// The texts of the formatters of a list of struct layouts.
pub open spec fn structs_formatter_strings(entries: Seq<(String, StructLayout)>) -> Seq<Seq<char>>
    decreases entries.len(),
{
    if entries.len() == 0 {
        Seq::empty()
    } else {
        struct_formatter_strings(entries[0].1) + structs_formatter_strings(entries.drop_first())
    }
}

/// The texts of the array, slice and struct formatters.
pub open spec fn composite_formatter_strings(layouts: NameMap<StructLayout>) -> Seq<Seq<char>> {
    seq!["["@, "]"@, ", "@, " }"@] + structs_formatter_strings(layouts.entries())
}

/// The labels of the variants of an enum: `Enum.Variant`.
pub open spec fn variant_labels(enum_name: Seq<char>, variants: Seq<EnumVariantLayout>) -> Seq<Seq<char>>
    decreases variants.len(),
{
    if variants.len() == 0 {
        Seq::empty()
    } else {
        seq![enum_name + "."@ + variants[0].name@] + variant_labels(enum_name, variants.drop_first())
    }
}

/// The variant labels of a list of enum layouts.
pub open spec fn enums_formatter_strings(entries: Seq<(String, EnumLayout)>) -> Seq<Seq<char>>
    decreases entries.len(),
{
    if entries.len() == 0 {
        Seq::empty()
    } else {
        variant_labels(entries[0].1.name@, entries[0].1.variants@) + enums_formatter_strings(
            entries.drop_first(),
        )
    }
}

/// The texts of the enum formatters: none without enums.
pub open spec fn enum_formatter_strings(layouts: NameMap<EnumLayout>) -> Seq<Seq<char>> {
    if layouts.entries().len() == 0 {
        Seq::empty()
    } else {
        seq!["("@, ")"@] + enums_formatter_strings(layouts.entries())
    }
}

/// Every text a module's string table holds, in the order it is collected:
/// the program's literals, then the formatter texts.
pub open spec fn module_strings(
    program: Program,
    layouts: NameMap<StructLayout>,
    enum_layouts: NameMap<EnumLayout>,
) -> Seq<Seq<char>> {
    items_strings(program.items@) + composite_formatter_strings(layouts) + enum_formatter_strings(enum_layouts)
}

/// Every global of the table is numbered below `n`, after its own text.
pub open spec fn numbered_below(table: Map<Seq<char>, (Seq<char>, nat, Seq<char>)>, n: nat) -> bool {
    forall|k: Seq<char>|
        #[trigger] table.contains_key(k) ==> exists|m: nat| m < n && table[k] == literal_global(k, m)
}

/// Distinct texts of the table have distinct symbols.
pub open spec fn symbols_distinct(table: Map<Seq<char>, (Seq<char>, nat, Seq<char>)>) -> bool {
    forall|a: Seq<char>, b: Seq<char>|
        #[trigger] table.contains_key(a) && #[trigger] table.contains_key(b) && a != b ==> table[a].0
            != table[b].0
}

/// Two symbols with different numbers differ.
pub proof fn lemma_symbols_differ(m: nat, n: nat)
    requires
        m != n,
    ensures
        "@.ax_str_"@ + decimal(m) != "@.ax_str_"@ + decimal(n),
{
    let p = "@.ax_str_"@;
    if p + decimal(m) == p + decimal(n) {
        assert((p + decimal(m)).skip(p.len() as int) =~= decimal(m));
        assert((p + decimal(n)).skip(p.len() as int) =~= decimal(n));
        lemma_decimal_injective(m, n);
    }
}

/// Interning keeps every global numbered below the next number and every
/// symbol distinct.
pub proof fn lemma_intern_keeps_symbols_distinct(
    table: Map<Seq<char>, (Seq<char>, nat, Seq<char>)>,
    id: nat,
    values: Seq<Seq<char>>,
)
    requires
        numbered_below(table, id),
        symbols_distinct(table),
    ensures
        numbered_below(intern(table, id, values).0, intern(table, id, values).1),
        symbols_distinct(intern(table, id, values).0),
    decreases values.len(),
{
    if values.len() > 0 {
        let v = values[0];
        let next = intern_one(table, id, v);
        if !table.contains_key(v) {
            let t = next.0;
            assert forall|k: Seq<char>| #[trigger] t.contains_key(k) implies exists|m: nat|
                m < id + 1 && t[k] == literal_global(k, m) by {
                if k == v {
                    assert(t[k] == literal_global(k, id));
                } else {
                    let m = choose|m: nat| m < id && table[k] == literal_global(k, m);
                    assert(t[k] == literal_global(k, m));
                }
            }
            assert forall|a: Seq<char>, b: Seq<char>|
                #[trigger] t.contains_key(a) && #[trigger] t.contains_key(b) && a != b implies t[a].0 != t[b].0 by {
                if a == v {
                    let m = choose|m: nat| m < id && table[b] == literal_global(b, m);
                    lemma_symbols_differ(id, m);
                } else if b == v {
                    let m = choose|m: nat| m < id && table[a] == literal_global(a, m);
                    lemma_symbols_differ(m, id);
                }
            }
        }
        lemma_intern_keeps_symbols_distinct(next.0, next.1, values.drop_first());
    }
}

/// Distinct string literal texts never share a global: whatever texts a
/// module interns, starting from an empty table, each gets its own symbol.
pub proof fn interned_symbols_distinct(values: Seq<Seq<char>>)
    ensures
        symbols_distinct(intern(Map::empty(), 0, values).0),
{
    lemma_intern_keeps_symbols_distinct(Map::empty(), 0, values);
}

/// Interning keeps every text already present, with its global, and adds
/// every text of `values`.
pub proof fn lemma_intern_covers(
    table: Map<Seq<char>, (Seq<char>, nat, Seq<char>)>,
    id: nat,
    values: Seq<Seq<char>>,
)
    ensures
        forall|k: Seq<char>|
            #[trigger] table.contains_key(k) ==> intern(table, id, values).0.contains_key(k)
                && intern(table, id, values).0[k] == table[k],
        forall|i: int| 0 <= i < values.len() ==> intern(table, id, values).0.contains_key(#[trigger] values[i]),
    decreases values.len(),
{
    if values.len() > 0 {
        let next = intern_one(table, id, values[0]);
        lemma_intern_covers(next.0, next.1, values.drop_first());
        assert(intern(table, id, values) == intern(next.0, next.1, values.drop_first()));
        assert(next.0.contains_key(values[0]));
        assert forall|k: Seq<char>| #[trigger] table.contains_key(k) implies next.0.contains_key(k) && next.0[k]
            == table[k] by {
            if !table.contains_key(values[0]) {
                assert(k != values[0]);
            }
        }
        assert forall|i: int| 0 <= i < values.len() implies intern(table, id, values).0.contains_key(
            #[trigger] values[i],
        ) by {
            if i > 0 {
                assert(values[i] == values.drop_first()[i - 1]);
            }
        }
    }
}

/// Every string literal text of a module gets a global, and a text keeps the
/// global it got first: whatever texts a module interns from an empty table,
/// each of them is in the table.
pub proof fn interned_texts_present(values: Seq<Seq<char>>)
    ensures
        forall|i: int| 0 <= i < values.len() ==> intern(Map::empty(), 0, values).0.contains_key(#[trigger] values[i]),
{
    lemma_intern_covers(Map::empty(), 0, values);
}

} // verus!
