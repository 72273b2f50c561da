//! Calls: user functions and specializations, the builtins, formatting to
//! strings and printing.
use vstd::prelude::*;
use crate::mir::{clone_type, same_type, type_eq, Expr, Type};
use crate::text::{
    appends, bytes_less, concat, concat_all, decimal, i64_to_decimal, lemma_bytes_less_irreflexive,
    lemma_bytes_less_total, lemma_bytes_less_transitive, owned, put_line, str_eq, str_less, usize_to_decimal,
};
use vstd::seq_lib::to_multiset_insert;
use vstd::utf8::encode_utf8;
use super::super::infer::{specialization_matches, unique_specialization};
use super::super::model::{EnumLayout, EnumVariantLayout, FunctionSignature, LlvmValue, StructFieldLayout};
use super::super::specialization::{method_call_name, method_function_name, method_prefix};
use super::super::support::{
    ax_type_name, enum_formatter_label, ensure_same_type, ensure_string_argument, is_enum_value,
    llvm_type, slice_llvm_type, struct_field_formatter_label, struct_formatter_prefix,
};
use super::host::host_builtin_signature;
use super::{
    binary_line, bool_value, i32_value, integer_test_holds, is_string_local, steps_forward, string_value, temp_name, tests_zero,
    too_deep, value, eq_and_ne_test_zero, lemma_zero_equality_text, FunctionEmitter,
};

verus! {

/// The line that reads element `index` of the array `array` (of LLVM type
/// `array_ty`) into `name`.
pub open spec fn element_read_line(name: Seq<char>, array_ty: Seq<char>, array: Seq<char>, index: nat) -> Seq<char> {
    "  "@ + name + " = extractvalue "@ + array_ty + " "@ + array + ", "@ + decimal(index) + seq!['\n']
}

/// `text` holds the reads of elements `0`, `1`, ..., `count - 1` of `array`,
/// in that order: the read of element `i` stands at position `at[i]`, and the
/// positions increase with `i`.
pub open spec fn reads_elements_in_order(
    text: Seq<char>,
    names: Seq<Seq<char>>,
    at: Seq<int>,
    array_ty: Seq<char>,
    array: Seq<char>,
    count: nat,
) -> bool {
    &&& names.len() == count
    &&& at.len() == count
    &&& forall|i: int, j: int| #![trigger at[i], at[j]] 0 <= i < j < count ==> at[i] < at[j]
    &&& forall|i: int|
        #![trigger at[i]]
        0 <= i < count ==> 0 <= at[i] && at[i] + element_read_line(names[i], array_ty, array, i as nat).len()
            <= text.len() && text.subrange(at[i], at[i] + element_read_line(names[i], array_ty, array, i as nat).len())
            == element_read_line(names[i], array_ty, array, i as nat)
}

/// In an array's text the read of an earlier element comes first: element
/// `i` is read, from index `i`, before element `j` for every `i < j`.
pub proof fn earlier_elements_are_read_first(
    text: Seq<char>,
    names: Seq<Seq<char>>,
    at: Seq<int>,
    array_ty: Seq<char>,
    array: Seq<char>,
    count: nat,
    i: int,
    j: int,
)
    requires
        reads_elements_in_order(text, names, at, array_ty, array, count),
        0 <= i < j < count,
    ensures
        at[i] < at[j],
        text.subrange(at[i], at[i] + element_read_line(names[i], array_ty, array, i as nat).len())
            == element_read_line(names[i], array_ty, array, i as nat),
        text.subrange(at[j], at[j] + element_read_line(names[j], array_ty, array, j as nat).len())
            == element_read_line(names[j], array_ty, array, j as nat),
{
    assert(at[i] < at[j]);
}

/// Reads that were in the text stay where they were as text is appended.
proof fn lemma_reads_kept(
    before: Seq<char>,
    after: Seq<char>,
    names: Seq<Seq<char>>,
    at: Seq<int>,
    array_ty: Seq<char>,
    array: Seq<char>,
    count: nat,
)
    requires
        appends(before, after),
        reads_elements_in_order(before, names, at, array_ty, array, count),
    ensures
        reads_elements_in_order(after, names, at, array_ty, array, count),
{
    assert forall|i: int|
        #![trigger at[i]]
        0 <= i < count implies 0 <= at[i] && at[i] + element_read_line(names[i], array_ty, array, i as nat).len()
            <= after.len() && after.subrange(at[i], at[i] + element_read_line(names[i], array_ty, array, i as nat).len())
            == element_read_line(names[i], array_ty, array, i as nat) by {
        let len = element_read_line(names[i], array_ty, array, i as nat).len();
        assert(after.subrange(at[i], at[i] + len) =~= before.subrange(at[i], at[i] + len));
    }
}

/// The search of `needle` in `text` with `strstr`, then the test of what it
/// found against `null`.
pub open spec fn substring_search_text(
    before: Seq<char>,
    found: Seq<char>,
    text: Seq<char>,
    needle: Seq<char>,
    result: Seq<char>,
    pred: Seq<char>,
) -> Seq<char> {
    before + ("  "@ + found + " = call ptr @strstr(ptr "@ + text + ", ptr "@ + needle + ")"@ + seq!['\n'])
        + binary_line(result, "icmp "@ + pred, "ptr"@, found, "null"@)
}

/// A bounded comparison of `count` bytes of `text` and `pattern` with
/// `strncmp`, then the test of its result against zero, with text before and
/// after it.
pub open spec fn bounded_comparison_text(
    before: Seq<char>,
    compare: Seq<char>,
    text: Seq<char>,
    pattern: Seq<char>,
    count: Seq<char>,
    result: Seq<char>,
    pred: Seq<char>,
    after: Seq<char>,
) -> Seq<char> {
    before + bounded_compare_line(compare, text, pattern, count) + binary_line(result, "icmp "@ + pred, "i32"@, compare, "0"@)
        + after
}

/// `  %c = call i32 @strncmp(ptr <text>, ptr <pattern>, i64 <count>)`.
pub open spec fn bounded_compare_line(compare: Seq<char>, text: Seq<char>, pattern: Seq<char>, count: Seq<char>) -> Seq<
    char,
> {
    "  "@ + compare + " = call i32 @strncmp(ptr "@ + text + ", ptr "@ + pattern + ", i64 "@ + count + ")"@ + seq!['\n']
}

/// `string_starts_with` and `string_ends_with` hold, on the bytes they
/// compare, exactly when `strncmp` finds them equal.
pub proof fn prefix_and_suffix_tests_hold_exactly_on_equal_bytes(pred: Seq<char>, strncmp_result: int)
    requires
        tests_zero(pred, true),
    ensures
        integer_test_holds(pred, strncmp_result, 0) <==> strncmp_result == 0,
{
    assert(integer_test_holds(pred, strncmp_result, 0) <==> ((strncmp_result == 0) == true));
}

/// `string_contains` is true exactly when `strstr` finds the needle: the test
/// of its result against `null` holds exactly on a non-null pointer.
pub proof fn contains_holds_exactly_when_found(pred: Seq<char>, found_address: int)
    requires
        tests_zero(pred, false),
    ensures
        integer_test_holds(pred, found_address, 0) <==> found_address != 0,
{
    assert(integer_test_holds(pred, found_address, 0) <==> ((found_address == 0) == false));
}

/// The pieces the null test is written in make up its `binary_line`.
proof fn lemma_null_test_text(result: Seq<char>, found: Seq<char>)
    ensures
        "  "@ + result + " = icmp ne ptr "@ + found + ", null"@ + seq!['\n'] == binary_line(
            result,
            "icmp "@ + "ne"@,
            "ptr"@,
            found,
            "null"@,
        ),
{
    reveal_strlit(" = icmp ne ptr ");
    reveal_strlit(" = ");
    reveal_strlit("icmp ");
    reveal_strlit("ne");
    reveal_strlit(" ");
    reveal_strlit("ptr");
    reveal_strlit(", null");
    reveal_strlit(", ");
    reveal_strlit("null");
    assert("  "@ + result + " = icmp ne ptr "@ + found + ", null"@ + seq!['\n'] =~= binary_line(
        result,
        "icmp "@ + "ne"@,
        "ptr"@,
        found,
        "null"@,
    ));
}

fn argument_count_error(function: &str, got: usize, expected: &str) -> (r: String)
    ensures
        r@ == "call to `"@ + function@ + "` has "@ + decimal(got as nat)
            + " argument(s), but LLVM AOT expected "@ + expected@,
{
    let n = usize_to_decimal(got);
    let r = concat(
        &["call to `", function, "` has ", n.as_str(), " argument(s), but LLVM AOT expected ", expected],
    );
    proof {
        reveal_with_fuel(concat_all, 7);
    }
    r
}

/// A signature entry is a specialization of `target` taking exactly
/// `argument_types` and returning `expected`.
pub open spec fn returning_match(
    entry: (String, FunctionSignature),
    target: Seq<char>,
    argument_types: Seq<Type>,
    expected: Type,
) -> bool {
    specialization_matches(entry, target, argument_types) && same_type(entry.1.return_ax_type, expected)
}

/// The UTF-8 bytes of a field's name, by which the struct formatter orders
/// fields.
pub open spec fn field_key(field: StructFieldLayout) -> Seq<u8> {
    encode_utf8(field.name@)
}

/// The fields behind a list of references.
pub open spec fn field_values<'a>(fields: Seq<&'a StructFieldLayout>) -> Seq<StructFieldLayout> {
    fields.map_values(|f: &'a StructFieldLayout| *f)
}

/// No field's name comes before the name of a field ahead of it.
pub open spec fn ordered_by_name(fields: Seq<StructFieldLayout>) -> bool {
    forall|i: int, j: int|
        0 <= i < j < fields.len() ==> !bytes_less(field_key(#[trigger] fields[j]), field_key(#[trigger] fields[i]))
}

/// The fields of a struct layout ordered by name, as the struct formatter
/// prints them.
pub fn fields_by_name(fields: &Vec<StructFieldLayout>) -> (r: Vec<&StructFieldLayout>)
    ensures
        r@.len() == fields@.len(),
        field_values(r@).to_multiset() == fields@.to_multiset(),
        ordered_by_name(field_values(r@)),
{
    let mut sorted: Vec<&StructFieldLayout> = Vec::new();
    let mut i: usize = 0;
    assert(fields@.take(0) =~= Seq::<StructFieldLayout>::empty());
    assert(field_values(sorted@) =~= Seq::<StructFieldLayout>::empty());
    while i < fields.len()
        invariant
            i <= fields@.len(),
            sorted@.len() == i,
            field_values(sorted@).to_multiset() == fields@.take(i as int).to_multiset(),
            ordered_by_name(field_values(sorted@)),
        decreases fields@.len() - i,
    {
        let field = &fields[i];
        let ghost values = field_values(sorted@);
        let mut at: usize = sorted.len();
        while at > 0
            invariant
                at <= sorted@.len(),
                values == field_values(sorted@),
                forall|k: int| at <= k < values.len() ==> bytes_less(field_key(*field), field_key(#[trigger] values[k])),
            ensures
                at <= sorted@.len(),
                forall|k: int| at <= k < values.len() ==> bytes_less(field_key(*field), field_key(#[trigger] values[k])),
                at == 0 || !bytes_less(field_key(*field), field_key(values[at - 1])),
            decreases at,
        {
            if str_less(field.name.as_str(), sorted[at - 1].name.as_str()) {
                at -= 1;
            } else {
                break;
            }
        }
        proof {
            assert forall|k: int| 0 <= k < at implies !bytes_less(field_key(*field), field_key(#[trigger] values[k])) by {
                let last = values[at - 1];
                if bytes_less(field_key(*field), field_key(values[k])) {
                    if field_key(values[k]) != field_key(last) {
                        lemma_bytes_less_total(field_key(values[k]), field_key(last));
                        if bytes_less(field_key(last), field_key(values[k])) {
                            assert(!bytes_less(field_key(values[at - 1]), field_key(values[k])));
                        }
                        lemma_bytes_less_transitive(field_key(*field), field_key(values[k]), field_key(last));
                    }
                }
            }
            assert forall|k: int| at <= k < values.len() implies !bytes_less(field_key(#[trigger] values[k]), field_key(*field)) by {
                if bytes_less(field_key(values[k]), field_key(*field)) {
                    lemma_bytes_less_transitive(field_key(values[k]), field_key(*field), field_key(values[k]));
                    lemma_bytes_less_irreflexive(field_key(values[k]));
                }
            }
        }
        sorted.insert(at, field);
        proof {
            let inserted = field_values(sorted@);
            assert(inserted =~= values.insert(at as int, *field));
            to_multiset_insert(values, at as int, *field);
            assert(fields@.take(i + 1) =~= fields@.take(i as int).push(*field));
            assert(fields@.take(i as int).push(*field) =~= fields@.take(i as int).insert(i as int, *field));
            to_multiset_insert(fields@.take(i as int), i as int, *field);
            assert forall|a: int, b: int| 0 <= a < b < inserted.len() implies !bytes_less(
                field_key(#[trigger] inserted[b]),
                field_key(#[trigger] inserted[a]),
            ) by {
                if b < at {
                    assert(inserted[a] == values[a] && inserted[b] == values[b]);
                } else if b == at {
                    assert(inserted[a] == values[a]);
                } else if a == at {
                    assert(inserted[b] == values[b - 1]);
                } else if a < at {
                    assert(inserted[a] == values[a] && inserted[b] == values[b - 1]);
                } else {
                    assert(inserted[a] == values[a - 1] && inserted[b] == values[b - 1]);
                }
            }
        }
        i += 1;
    }
    assert(fields@.take(fields@.len() as int) =~= fields@);
    sorted
}

/// `println` prints a value of this AX type through its formatter rather than
/// directly by its LLVM type.
pub open spec fn printed_by_formatter(ax_ty: Option<Type>) -> bool {
    match ax_ty {
        Some(Type::Array { .. }) | Some(Type::Slice { .. }) | Some(Type::Struct { .. }) | Some(Type::Enum { .. })
        | Some(Type::EnumInstance { .. }) => true,
        _ => false,
    }
}

impl<'a> FunctionEmitter<'a> {
    /// Lowers a call: a builtin, a lowered function, or a specialization of a
    /// generic function or method.
    pub fn emit_call(
        &mut self,
        function: &str,
        arguments: &Vec<Expr>,
        expected_ax_ty: Option<&Type>,
        out: &mut String,
        depth: u32,
    ) -> (r: Result<LlvmValue, String>)
        ensures
            appends(old(out)@, final(out)@),
            steps_forward(*old(self), *final(self)),
            depth == 0 ==> r is Err,
            depth > 0 && function@ == "println"@ ==> (r matches Ok(v) ==> v.ty@ == "void"@ && v.ax_ty is None),
            (depth > 2 && function@ == "println"@ && forall|i: int|
                0 <= i < arguments@.len() ==> (#[trigger] arguments@[i]) is Int) ==> (r is Ok && *final(self)
                == *old(self)),
            depth > 0 && function@ == "argv_len"@ ==> (r is Ok <==> arguments@.len() == 0 && old(self).temp_index
                + 4 <= u32::MAX),
            depth > 0 && function@ == "argv_len"@ ==> (r matches Ok(v) ==> v.ty@ == "i32"@ && v.ax_ty == Some(
                Type::I32,
            )),
        decreases depth,
    {
        if depth == 0 {
            return Err(too_deep());
        }
        proof {
            reveal_strlit("println");
            reveal_strlit("argv_len");
            assert("println"@.len() == 7 && "argv_len"@.len() == 8);
        }
        if str_eq(function, "println") {
            return self.emit_println(arguments, out, depth - 1);
        }
        if str_eq(function, "argv_len") {
            return self.emit_argv_len(function, arguments, out);
        }
        if str_eq(function, "argv_get") {
            return self.emit_argv_get(arguments, out, depth - 1);
        }
        if str_eq(function, "string_len") || str_eq(function, "len") {
            return self.emit_string_len(function, arguments, out, depth - 1);
        }
        if str_eq(function, "string_contains") || str_eq(function, "string_starts_with") || str_eq(
            function,
            "string_ends_with",
        ) {
            return self.emit_string_predicate(function, arguments, out, depth - 1);
        }
        if str_eq(function, "string_replace") {
            return self.emit_string_replace(arguments, out, depth - 1);
        }
        if str_eq(function, "string_split_lines") {
            return self.emit_string_split_lines(arguments, out, depth - 1);
        }
        if str_eq(function, "string_trim") {
            return self.emit_string_trim(arguments, out, depth - 1);
        }
        if str_eq(function, "to_string") {
            return self.emit_to_string(arguments, out, depth - 1);
        }
        if str_eq(function, "env_has") || str_eq(function, "env_get") {
            return self.emit_env_call(function, arguments, out, depth - 1);
        }
        match host_builtin_signature(function) {
            Some((ret, params)) => return self.emit_host_call(function, ret, &params, arguments, out, depth - 1),
            None => {},
        }
        let (name, signature) = self.resolve_call_signature(function, arguments, expected_ax_ty, depth - 1)?;
        if signature.params.len() != arguments.len() || signature.param_ax_types.len() != arguments.len() {
            let expected = usize_to_decimal(signature.params.len());
            return Err(argument_count_error(name.as_str(), arguments.len(), expected.as_str()));
        }
        let mut rendered: Vec<String> = Vec::new();
        let mut i: usize = 0;
        while i < arguments.len()
            invariant
                appends(old(out)@, out@),
                steps_forward(*old(self), *self),
                i <= arguments@.len(),
                signature.params@.len() == arguments@.len(),
                signature.param_ax_types@.len() == arguments@.len(),
                depth > 0,
                function@ != "println"@,
                function@ != "argv_len"@,
            decreases arguments@.len() - i,
        {
            let argument = &arguments[i];
            let expected_ax = &signature.param_ax_types[i];
            let v = match expected_ax {
                Type::Slice { .. } => self.emit_slice_from_expr(argument, out, depth - 1)?,
                Type::Array { .. } => match argument {
                    Expr::ArrayLiteral { elements } => self.emit_array_literal(
                        elements,
                        Some(expected_ax),
                        out,
                        depth - 1,
                    )?,
                    _ => self.emit_expr(argument, out, depth - 1)?,
                },
                _ => self.emit_expr(argument, out, depth - 1)?,
            };
            ensure_same_type(signature.params[i].as_str(), v.ty.as_str())?;
            rendered.push(concat(&[v.ty.as_str(), " ", v.repr.as_str()]));
            i += 1;
        }
        let temp = self.next_temp()?;
        let args = crate::text::join(rendered.as_slice(), ", ");
        put_line(
            out,
            &[
                "  ",
                temp.as_str(),
                " = call ",
                signature.return_type.as_str(),
                " @",
                signature.symbol.as_str(),
                "(",
                args.as_str(),
                ")",
            ],
        );
        Ok(LlvmValue {
            ty: signature.return_type.clone(),
            repr: temp,
            ax_ty: Some(clone_type(&signature.return_ax_type)),
        })
    }

    /// The signature a call resolves to: the function itself when it was
    /// lowered, else the one specialization whose parameter types match the
    /// argument types (and, among several, whose return type is the expected
    /// one). Method calls `<method>.m` resolve on the receiver's type.
    pub fn resolve_call_signature(
        &self,
        function: &str,
        arguments: &Vec<Expr>,
        expected_ax_ty: Option<&Type>,
        depth: u32,
    ) -> (r: Result<(String, &'a FunctionSignature), String>)
        ensures
            r matches Ok((name, signature)) ==> self.signatures.spec_get(name@) == Some(*signature),
            depth > 0 && !(function@.len() >= 9 && function@.take(9) == method_prefix()) ==> (
            self.signatures.spec_get(function@) matches Some(signature) ==> (r matches Ok((name, found))
                && name@ == function@ && *found == signature)),
        decreases depth,
    {
        if depth == 0 {
            return Err(too_deep());
        }
        let (target, is_method) = match method_call_name(function) {
            Some(method_name) => {
                let method = method_name.as_str();
                if arguments.len() == 0 {
                    return Err(
                        concat(&["method call `", method, "` is missing its receiver in LLVM AOT v0"]),
                    );
                }
                let (_, receiver_ax_ty) = self.infer_expr_value_type(&arguments[0], depth - 1)?;
                match method_function_name(method, &receiver_ax_ty) {
                    Some(name) => (name, true),
                    None => {
                        let shown = ax_type_name(&receiver_ax_ty);
                        return Err(
                            concat(
                                &[
                                    "method `",
                                    method,
                                    "` receiver type ",
                                    shown.as_str(),
                                    " needs a struct or enum before LLVM AOT can lower it",
                                ],
                            ),
                        );
                    },
                }
            },
            None => (owned(function), false),
        };
        match self.signatures.get(target.as_str()) {
            Some(signature) => return Ok((target, signature)),
            None => {},
        }
        let mut argument_ax_types: Vec<Type> = Vec::new();
        let mut i: usize = 0;
        while i < arguments.len()
            invariant
                i <= arguments@.len(),
                depth > 0,
                !(function@.len() >= 9 && function@.take(9) == method_prefix()) ==> self.signatures.spec_get(
                    function@,
                ) is None,
            decreases arguments@.len() - i,
        {
            let (_, argument_ax_ty) = self.infer_expr_value_type(&arguments[i], depth - 1)?;
            argument_ax_types.push(argument_ax_ty);
            i += 1;
        }
        let kind = if is_method { "method call `" } else { "call to `" };
        match unique_specialization(target.as_str(), &argument_ax_types, self.signatures) {
            Ok(Some((name, signature))) => Ok((name.clone(), signature)),
            Ok(None) => {
                let tail = if is_method {
                    "` is outside LLVM AOT v0; only same-file impl methods with inferable native type arguments are currently lowered"
                } else {
                    "` is outside LLVM AOT v0; only same-file functions with inferable native type arguments are currently lowered"
                };
                Err(concat(&[kind, target.as_str(), tail]))
            },
            Err(()) => {
                match expected_ax_ty {
                    Some(expected) => match self.specialization_returning(
                        target.as_str(),
                        &argument_ax_types,
                        expected,
                    ) {
                        Some((name, signature)) => return Ok((name.clone(), signature)),
                        None => {},
                    },
                    None => {},
                }
                Err(concat(&[kind, target.as_str(), "` matched multiple LLVM AOT specializations"]))
            },
        }
    }

    /// The one specialization `target<...>` with the given parameter types
    /// that returns `expected`.
    fn specialization_returning(
        &self,
        target: &str,
        argument_types: &Vec<Type>,
        expected: &Type,
    ) -> (r: Option<(&'a String, &'a FunctionSignature)>)
        ensures
            r matches Some(found) ==> self.signatures.spec_get(found.0@) == Some(*found.1),
            r matches Some(found) ==> exists|i: int|
                0 <= i < self.signatures.entries().len() && self.signatures.entries()[i].0 == *found.0
                    && self.signatures.entries()[i].1 == *found.1 && returning_match(
                    #[trigger] self.signatures.entries()[i],
                    target@,
                    argument_types@,
                    *expected,
                ),
            r is Some <==> exists|i: int|
                0 <= i < self.signatures.entries().len() && returning_match(
                    #[trigger] self.signatures.entries()[i],
                    target@,
                    argument_types@,
                    *expected,
                ) && forall|j: int|
                    0 <= j < self.signatures.entries().len() && j != i ==> !returning_match(
                        #[trigger] self.signatures.entries()[j],
                        target@,
                        argument_types@,
                        *expected,
                    ),
    {
        let ghost entries = self.signatures.entries();
        let mut prefix = owned(target);
        prefix.append("<");
        let mut found: Option<(&'a String, &'a FunctionSignature)> = None;
        let ghost mut at: int = -1;
        let mut i: usize = 0;
        while i < self.signatures.len()
            invariant
                i <= entries.len(),
                entries == self.signatures.entries(),
                prefix@ == target@ + "<"@,
                found is None <==> at == -1,
                found matches Some(f) ==> self.signatures.spec_get(f.0@) == Some(*f.1),
                at == -1 ==> forall|j: int|
                    0 <= j < i ==> !returning_match(#[trigger] entries[j], target@, argument_types@, *expected),
                at != -1 ==> 0 <= at < i && returning_match(entries[at], target@, argument_types@, *expected)
                    && (found matches Some(f) && entries[at].0 == *f.0 && entries[at].1 == *f.1)
                    && forall|j: int|
                    0 <= j < i && j != at ==> !returning_match(
                        #[trigger] entries[j],
                        target@,
                        argument_types@,
                        *expected,
                    ),
            decreases entries.len() - i,
        {
            let (name, signature) = self.signatures.entry_at(i);
            if crate::text::starts_with(name.as_str(), prefix.as_str()) && crate::mir::types_eq(
                &signature.param_ax_types,
                argument_types,
            ) && type_eq(&signature.return_ax_type, expected) {
                assert(returning_match(entries[i as int], target@, argument_types@, *expected));
                if found.is_some() {
                    assert(returning_match(entries[at], target@, argument_types@, *expected));
                    return None;
                }
                found = Some((name, signature));
                proof {
                    at = i as int;
                }
            } else {
                assert(!returning_match(entries[i as int], target@, argument_types@, *expected));
            }
            i += 1;
        }
        found
    }

    fn emit_string_len(&mut self, function: &str, arguments: &Vec<Expr>, out: &mut String, depth: u32) -> (r:
        Result<LlvmValue, String>)
        ensures
            appends(old(out)@, final(out)@),
            steps_forward(*old(self), *final(self)),
            depth > 1 && function@ == "string_len"@ && arguments@.len() == 1 && is_string_local(
                *old(self),
                arguments@[0],
            ) && old(self).temp_index + 2 <= u32::MAX ==> r is Ok,
            r matches Ok(v) ==> v.ty@ == "i32"@ && v.ax_ty == Some(Type::I32),
        decreases depth,
    {
        if depth == 0 {
            return Err(too_deep());
        }
        if arguments.len() != 1 {
            return Err(argument_count_error(function, arguments.len(), "1"));
        }
        let v = self.emit_expr(&arguments[0], out, depth - 1)?;
        if str_eq(function, "len") {
            match &v.ax_ty {
                Some(Type::Array { length, .. }) => return Ok(i32_value(usize_to_decimal(*length))),
                Some(Type::Slice { .. }) => {
                    let slice_ty = slice_llvm_type();
                    ensure_same_type(slice_ty.as_str(), v.ty.as_str())?;
                    let len = self.next_temp()?;
                    put_line(out, &["  ", len.as_str(), " = extractvalue ", v.ty.as_str(), " ", v.repr.as_str(), ", 1"]);
                    return Ok(i32_value(len));
                },
                Some(Type::StringList) => {
                    ensure_same_type("ptr", v.ty.as_str())?;
                    let len = self.next_temp()?;
                    put_line(out, &["  ", len.as_str(), " = call i32 @ax_string_list_len(ptr ", v.repr.as_str(), ")"]);
                    return Ok(i32_value(len));
                },
                _ => {},
            }
        }
        if !str_eq(v.ty.as_str(), "ptr") {
            return Err(
                concat(
                    &[
                        function,
                        "(",
                        v.ty.as_str(),
                        ") needs a native layout or runtime ABI before LLVM AOT can lower it",
                    ],
                ),
            );
        }
        let temp = self.next_temp()?;
        put_line(out, &["  ", temp.as_str(), " = call i32 @ax_string_len(ptr ", v.repr.as_str(), ")"]);
        Ok(i32_value(temp))
    }

    fn emit_argv_len(&mut self, function: &str, arguments: &Vec<Expr>, out: &mut String) -> (r: Result<
        LlvmValue,
        String,
    >)
        ensures
            appends(old(out)@, final(out)@),
            steps_forward(*old(self), *final(self)),
            r is Ok <==> arguments@.len() == 0 && old(self).temp_index + 4 <= u32::MAX,
            r matches Ok(v) ==> v.ty@ == "i32"@ && v.ax_ty == Some(Type::I32),
    {
        if arguments.len() != 0 {
            return Err(argument_count_error(function, arguments.len(), "0"));
        }
        let len = self.emit_argv_len_value(out)?;
        Ok(i32_value(len))
    }

    fn emit_argv_get(&mut self, arguments: &Vec<Expr>, out: &mut String, depth: u32) -> (r: Result<
        LlvmValue,
        String,
    >)
        ensures
            appends(old(out)@, final(out)@),
            steps_forward(*old(self), *final(self)),
            depth > 1 && arguments@.len() == 1 && arguments@[0] is Int && old(self).temp_index + 14 <= u32::MAX
                ==> r is Ok,
            r matches Ok(v) ==> v.ty@ == "ptr"@ && v.ax_ty == Some(Type::String),
        decreases depth,
    {
        if depth == 0 {
            return Err(too_deep());
        }
        if arguments.len() != 1 {
            return Err(argument_count_error("argv_get", arguments.len(), "1"));
        }
        let index = self.emit_expr(&arguments[0], out, depth - 1)?;
        ensure_same_type("i32", index.ty.as_str())?;
        let len = self.emit_argv_len_value(out)?;
        let below_zero = self.next_temp()?;
        let past_end = self.next_temp()?;
        let out_of_bounds = self.next_temp()?;
        let fail_label = self.next_label("argv_oob")?;
        let ok_label = self.next_label("argv_ok")?;
        put_line(out, &["  ", below_zero.as_str(), " = icmp slt i32 ", index.repr.as_str(), ", 0"]);
        put_line(out, &["  ", past_end.as_str(), " = icmp sge i32 ", index.repr.as_str(), ", ", len.as_str()]);
        put_line(out, &["  ", out_of_bounds.as_str(), " = or i1 ", below_zero.as_str(), ", ", past_end.as_str()]);
        put_line(
            out,
            &["  br i1 ", out_of_bounds.as_str(), ", label %", fail_label.as_str(), ", label %", ok_label.as_str()],
        );
        put_line(out, &[fail_label.as_str(), ":"]);
        put_line(out, &["  call void @exit(i32 1)"]);
        put_line(out, &["  unreachable"]);
        put_line(out, &[ok_label.as_str(), ":"]);
        let native_index = self.next_temp()?;
        let native_index64 = self.next_temp()?;
        let argv = self.next_temp()?;
        let slot = self.next_temp()?;
        let loaded = self.next_temp()?;
        put_line(out, &["  ", native_index.as_str(), " = add i32 ", index.repr.as_str(), ", 1"]);
        put_line(out, &["  ", native_index64.as_str(), " = sext i32 ", native_index.as_str(), " to i64"]);
        put_line(out, &["  ", argv.as_str(), " = load ptr, ptr @.ax_argv"]);
        put_line(
            out,
            &["  ", slot.as_str(), " = getelementptr ptr, ptr ", argv.as_str(), ", i64 ", native_index64.as_str()],
        );
        put_line(out, &["  ", loaded.as_str(), " = load ptr, ptr ", slot.as_str()]);
        Ok(string_value(loaded))
    }

    fn emit_argv_len_value(&mut self, out: &mut String) -> (r: Result<String, String>)
        ensures
            appends(old(out)@, final(out)@),
            steps_forward(*old(self), *final(self)),
            r is Ok <==> old(self).temp_index + 4 <= u32::MAX,
            r is Ok ==> final(self).temp_index == old(self).temp_index + 4,
            r matches Ok(t) ==> t@ == "%t"@ + decimal((old(self).temp_index + 3) as nat),
    {
        let argc = self.next_temp()?;
        let raw_len = self.next_temp()?;
        let negative = self.next_temp()?;
        let len = self.next_temp()?;
        put_line(out, &["  ", argc.as_str(), " = load i32, ptr @.ax_argc"]);
        put_line(out, &["  ", raw_len.as_str(), " = sub i32 ", argc.as_str(), ", 1"]);
        put_line(out, &["  ", negative.as_str(), " = icmp slt i32 ", raw_len.as_str(), ", 0"]);
        put_line(
            out,
            &["  ", len.as_str(), " = select i1 ", negative.as_str(), ", i32 0, i32 ", raw_len.as_str()],
        );
        Ok(len)
    }

    #[verifier::rlimit(80)]
    #[verifier::spinoff_prover]
    fn emit_string_predicate(
        &mut self,
        function: &str,
        arguments: &Vec<Expr>,
        out: &mut String,
        depth: u32,
    ) -> (r: Result<LlvmValue, String>)
        ensures
            appends(old(out)@, final(out)@),
            steps_forward(*old(self), *final(self)),
            depth > 1 && function@ == "string_contains"@ && arguments@.len() == 2 && is_string_local(
                *old(self),
                arguments@[0],
            ) && is_string_local(*old(self), arguments@[1]) && old(self).temp_index + 4 <= u32::MAX ==> r is Ok,
            r matches Ok(v) ==> v.ty@ == "i1"@ && v.ax_ty == Some(Type::Bool),
            r matches Ok(v) ==> (function@ == "string_contains"@ ==> exists|
                before: Seq<char>,
                found: Seq<char>,
                text: Seq<char>,
                needle: Seq<char>,
                pred: Seq<char>,
            |
                final(out)@ == #[trigger] substring_search_text(before, found, text, needle, v.repr@, pred)
                    && tests_zero(pred, false)),
            r matches Ok(v) ==> (function@ == "string_starts_with"@ ==> exists|
                before: Seq<char>,
                compare: Seq<char>,
                text: Seq<char>,
                pattern: Seq<char>,
                count: Seq<char>,
                pred: Seq<char>,
            |
                final(out)@ == #[trigger] bounded_comparison_text(before, compare, text, pattern, count, v.repr@, pred, seq![])
                    && tests_zero(pred, true)),
            r matches Ok(v) ==> (function@ == "string_ends_with"@ ==> exists|
                before: Seq<char>,
                compare: Seq<char>,
                text: Seq<char>,
                pattern: Seq<char>,
                count: Seq<char>,
                matched: Seq<char>,
                pred: Seq<char>,
                after: Seq<char>,
            |
                final(out)@ == #[trigger] bounded_comparison_text(before, compare, text, pattern, count, matched, pred, after)
                    && tests_zero(pred, true)),
        decreases depth,
    {
        if depth == 0 {
            return Err(too_deep());
        }
        if arguments.len() != 2 {
            return Err(argument_count_error(function, arguments.len(), "2"));
        }
        let text = self.emit_expr(&arguments[0], out, depth - 1)?;
        ensure_string_argument(function, "text", &text)?;
        let pattern = self.emit_expr(&arguments[1], out, depth - 1)?;
        let pattern_name = if str_eq(function, "string_contains") {
            "needle"
        } else if str_eq(function, "string_starts_with") {
            "prefix"
        } else if str_eq(function, "string_ends_with") {
            "suffix"
        } else {
            "pattern"
        };
        ensure_string_argument(function, pattern_name, &pattern)?;
        proof {
            reveal_strlit("string_contains");
            reveal_strlit("string_starts_with");
            reveal_strlit("string_ends_with");
            assert("string_contains"@[7] != "string_starts_with"@[7]);
            assert("string_contains"@[7] != "string_ends_with"@[7]);
            assert("string_starts_with"@[7] != "string_ends_with"@[7]);
        }
        if str_eq(function, "string_contains") {
            self.emit_contains_test(&text, &pattern, out)
        } else if str_eq(function, "string_starts_with") {
            self.emit_prefix_test(&text, &pattern, out)
        } else if str_eq(function, "string_ends_with") {
            self.emit_suffix_test(&text, &pattern, out)
        } else {
            Err(concat(&["call to `", function, "` is outside LLVM AOT v0 string predicate lowering"]))
        }
    }

    /// `string_contains(text, needle)`: `strstr`, then a test of what it
    /// found against `null`.
    fn emit_contains_test(&mut self, text: &LlvmValue, pattern: &LlvmValue, out: &mut String) -> (r: Result<
        LlvmValue,
        String,
    >)
        ensures
            appends(old(out)@, final(out)@),
            steps_forward(*old(self), *final(self)),
            old(self).temp_index + 2 <= u32::MAX ==> r is Ok,
            r matches Ok(v) ==> v.ty@ == "i1"@ && v.ax_ty == Some(Type::Bool),
            r matches Ok(v) ==> exists|pred: Seq<char>|
                final(out)@ == substring_search_text(old(out)@, temp_name(old(self).temp_index as nat), text.repr@, pattern.repr@, v.repr@, pred)
        && #[trigger] tests_zero(pred, false),
    {
        let found = self.next_temp()?;
        let ghost b0 = out@;
        put_line(
            out,
            &["  ", found.as_str(), " = call ptr @strstr(ptr ", text.repr.as_str(), ", ptr ", pattern.repr.as_str(), ")"],
        );
        proof {
            reveal_with_fuel(concat_all, 8);
        }
        let result = self.next_temp()?;
        let ghost b1 = out@;
        put_line(out, &["  ", result.as_str(), " = icmp ne ptr ", found.as_str(), ", null"]);
        proof {
            reveal_with_fuel(concat_all, 6);
            lemma_null_test_text(result@, found@);
            eq_and_ne_test_zero();
            assert(out@ =~= substring_search_text(old(out)@, found@, text.repr@, pattern.repr@, result@, "ne"@));
        }
        Ok(bool_value(result))
    }

    /// `string_starts_with(text, prefix)`: `strncmp` over the prefix's length,
    /// then a test of its result against zero.
    fn emit_prefix_test(&mut self, text: &LlvmValue, pattern: &LlvmValue, out: &mut String) -> (r: Result<
        LlvmValue,
        String,
    >)
        ensures
            appends(old(out)@, final(out)@),
            steps_forward(*old(self), *final(self)),
            r matches Ok(v) ==> v.ty@ == "i1"@ && v.ax_ty == Some(Type::Bool),
            r matches Ok(v) ==> exists|before: Seq<char>, compare: Seq<char>, count: Seq<char>, pred: Seq<char>|
                final(out)@ == #[trigger] bounded_comparison_text(before, compare, text.repr@, pattern.repr@, count, v.repr@, pred, seq![])
        && tests_zero(pred, true),
    {
        let prefix_len = self.next_temp()?;
        put_line(out, &["  ", prefix_len.as_str(), " = call i64 @strlen(ptr ", pattern.repr.as_str(), ")"]);
        let compare = self.next_temp()?;
        let ghost b0 = out@;
        put_line(
            out,
            &[
                "  ",
                compare.as_str(),
                " = call i32 @strncmp(ptr ",
                text.repr.as_str(),
                ", ptr ",
                pattern.repr.as_str(),
                ", i64 ",
                prefix_len.as_str(),
                ")",
            ],
        );
        proof {
            reveal_with_fuel(concat_all, 10);
            assert(out@ =~= b0 + bounded_compare_line(compare@, text.repr@, pattern.repr@, prefix_len@));
        }
        let result = self.next_temp()?;
        let ghost b1 = out@;
        put_line(out, &["  ", result.as_str(), " = icmp eq i32 ", compare.as_str(), ", 0"]);
        proof {
            reveal_with_fuel(concat_all, 6);
            lemma_zero_equality_text(result@, compare@);
            assert(out@ =~= b1 + binary_line(result@, "icmp "@ + "eq"@, "i32"@, compare@, "0"@));
            eq_and_ne_test_zero();
            assert(out@ =~= bounded_comparison_text(b0, compare@, text.repr@, pattern.repr@, prefix_len@, result@, "eq"@, seq![]));
        }
        Ok(bool_value(result))
    }

    /// `string_ends_with(text, suffix)`: when the suffix is not longer than
    /// the text, `strncmp` of the text's tail with it, tested against zero.
    #[verifier::rlimit(100)]
    #[verifier::spinoff_prover]
    fn emit_suffix_test(&mut self, text: &LlvmValue, pattern: &LlvmValue, out: &mut String) -> (r: Result<
        LlvmValue,
        String,
    >)
        ensures
            appends(old(out)@, final(out)@),
            steps_forward(*old(self), *final(self)),
            r matches Ok(v) ==> v.ty@ == "i1"@ && v.ax_ty == Some(Type::Bool),
            r is Ok ==> exists|
                before: Seq<char>,
                compare: Seq<char>,
                start: Seq<char>,
                count: Seq<char>,
                matched: Seq<char>,
                pred: Seq<char>,
                after: Seq<char>,
            |
                final(out)@ == #[trigger] bounded_comparison_text(before, compare, start, pattern.repr@, count, matched, pred, after)
        && tests_zero(pred, true),
    {
        let (suffix_len, suffix_start, compare_label, false_label, done_label) = self.emit_suffix_start(text, pattern, out)?;
        let compare = self.next_temp()?;
        let ghost c0 = out@;
        put_line(
            out,
            &[
                "  ",
                compare.as_str(),
                " = call i32 @strncmp(ptr ",
                suffix_start.as_str(),
                ", ptr ",
                pattern.repr.as_str(),
                ", i64 ",
                suffix_len.as_str(),
                ")",
            ],
        );
        proof {
            reveal_with_fuel(concat_all, 10);
            assert(out@ =~= c0 + bounded_compare_line(compare@, suffix_start@, pattern.repr@, suffix_len@));
        }
        let ghost c1 = out@;
        let matched = self.next_temp()?;
        put_line(out, &["  ", matched.as_str(), " = icmp eq i32 ", compare.as_str(), ", 0"]);
        proof {
            reveal_with_fuel(concat_all, 6);
            lemma_zero_equality_text(matched@, compare@);
            assert(out@ =~= c1 + binary_line(matched@, "icmp "@ + "eq"@, "i32"@, compare@, "0"@));
            eq_and_ne_test_zero();
            assert(out@ =~= bounded_comparison_text(c0, compare@, suffix_start@, pattern.repr@, suffix_len@, matched@, "eq"@, seq![]));
        }
        let ghost tested = out@;
        let result = self.emit_suffix_join(matched.as_str(), compare_label.as_str(), false_label.as_str(), done_label.as_str(), out)?;
        proof {
            let after = out@.subrange(tested.len() as int, out@.len() as int);
            assert(out@ =~= bounded_comparison_text(c0, compare@, suffix_start@, pattern.repr@, suffix_len@, matched@, "eq"@, after));
        }
        Ok(bool_value(result))
    }

    /// The start of `string_ends_with`: both lengths, the branch to `false`
    /// when the suffix is longer, and the address where the text's tail of the
    /// suffix's length starts.
    fn emit_suffix_start(&mut self, text: &LlvmValue, pattern: &LlvmValue, out: &mut String) -> (r: Result<
        (String, String, String, String, String),
        String,
    >)
        ensures
            appends(old(out)@, final(out)@),
            steps_forward(*old(self), *final(self)),
    {
        let text_len = self.next_temp()?;
        put_line(out, &["  ", text_len.as_str(), " = call i64 @strlen(ptr ", text.repr.as_str(), ")"]);
        let suffix_len = self.next_temp()?;
        put_line(out, &["  ", suffix_len.as_str(), " = call i64 @strlen(ptr ", pattern.repr.as_str(), ")"]);
        let too_long = self.next_temp()?;
        put_line(out, &["  ", too_long.as_str(), " = icmp ugt i64 ", suffix_len.as_str(), ", ", text_len.as_str()]);
        let compare_label = self.next_label("string_suffix_compare")?;
        let false_label = self.next_label("string_suffix_false")?;
        let done_label = self.next_label("string_suffix_done")?;
        put_line(
            out,
            &["  br i1 ", too_long.as_str(), ", label %", false_label.as_str(), ", label %", compare_label.as_str()],
        );
        put_line(out, &[compare_label.as_str(), ":"]);
        let offset = self.next_temp()?;
        put_line(out, &["  ", offset.as_str(), " = sub i64 ", text_len.as_str(), ", ", suffix_len.as_str()]);
        let suffix_start = self.next_temp()?;
        put_line(
            out,
            &[
                "  ",
                suffix_start.as_str(),
                " = getelementptr i8, ptr ",
                text.repr.as_str(),
                ", i64 ",
                offset.as_str(),
            ],
        );
        proof {
            assert(appends(old(out)@, out@));
        }
        Ok((suffix_len, suffix_start, compare_label, false_label, done_label))
    }

    /// The end of `string_ends_with`: both paths meet, `false` when the suffix
    /// was longer than the text, the comparison's result otherwise.
    fn emit_suffix_join(
        &mut self,
        matched: &str,
        compare_label: &str,
        false_label: &str,
        done_label: &str,
        out: &mut String,
    ) -> (r: Result<String, String>)
        ensures
            appends(old(out)@, final(out)@),
            steps_forward(*old(self), *final(self)),
    {
        put_line(out, &["  br label %", done_label]);
        put_line(out, &[false_label, ":"]);
        put_line(out, &["  br label %", done_label]);
        put_line(out, &[done_label, ":"]);
        let result = self.next_temp()?;
        put_line(
            out,
            &[
                "  ",
                result.as_str(),
                " = phi i1 [",
                matched,
                ", %",
                compare_label,
                "], [0, %",
                false_label,
                "]",
            ],
        );
        Ok(result)
    }

    fn emit_string_trim(&mut self, arguments: &Vec<Expr>, out: &mut String, depth: u32) -> (r: Result<
        LlvmValue,
        String,
    >)
        ensures
            appends(old(out)@, final(out)@),
            steps_forward(*old(self), *final(self)),
            depth > 1 && arguments@.len() == 1 && is_string_local(*old(self), arguments@[0])
                && old(self).temp_index + 2 <= u32::MAX ==> r is Ok,
            r matches Ok(v) ==> v.ty@ == "ptr"@ && v.ax_ty == Some(Type::String),
        decreases depth,
    {
        if depth == 0 {
            return Err(too_deep());
        }
        if arguments.len() != 1 {
            return Err(argument_count_error("string_trim", arguments.len(), "1"));
        }
        let text = self.emit_expr(&arguments[0], out, depth - 1)?;
        ensure_string_argument("string_trim", "text", &text)?;
        let trimmed = self.next_temp()?;
        put_line(out, &["  ", trimmed.as_str(), " = call ptr @ax_string_trim(ptr ", text.repr.as_str(), ")"]);
        Ok(string_value(trimmed))
    }

    fn emit_string_replace(&mut self, arguments: &Vec<Expr>, out: &mut String, depth: u32) -> (r: Result<
        LlvmValue,
        String,
    >)
        ensures
            appends(old(out)@, final(out)@),
            steps_forward(*old(self), *final(self)),
            depth > 1 && arguments@.len() == 3 && is_string_local(*old(self), arguments@[0]) && is_string_local(
                *old(self),
                arguments@[1],
            ) && is_string_local(*old(self), arguments@[2]) && old(self).temp_index + 4 <= u32::MAX ==> r is Ok,
            r matches Ok(v) ==> v.ty@ == "ptr"@ && v.ax_ty == Some(Type::String),
        decreases depth,
    {
        if depth == 0 {
            return Err(too_deep());
        }
        if arguments.len() != 3 {
            return Err(argument_count_error("string_replace", arguments.len(), "3"));
        }
        let text = self.emit_expr(&arguments[0], out, depth - 1)?;
        ensure_string_argument("string_replace", "text", &text)?;
        let from = self.emit_expr(&arguments[1], out, depth - 1)?;
        ensure_string_argument("string_replace", "from", &from)?;
        let to = self.emit_expr(&arguments[2], out, depth - 1)?;
        ensure_string_argument("string_replace", "to", &to)?;
        let replaced = self.next_temp()?;
        put_line(
            out,
            &[
                "  ",
                replaced.as_str(),
                " = call ptr @ax_string_replace(ptr ",
                text.repr.as_str(),
                ", ptr ",
                from.repr.as_str(),
                ", ptr ",
                to.repr.as_str(),
                ")",
            ],
        );
        Ok(string_value(replaced))
    }

    fn emit_string_split_lines(&mut self, arguments: &Vec<Expr>, out: &mut String, depth: u32) -> (r:
        Result<LlvmValue, String>)
        ensures
            appends(old(out)@, final(out)@),
            steps_forward(*old(self), *final(self)),
            r matches Ok(v) ==> v.ty@ == crate::abi::SLICE_LLVM_TYPE@ && v.ax_ty == Some(Type::Slice { element: Box::new(Type::String) }),
            depth > 1 && arguments@.len() == 1 && is_string_local(*old(self), arguments@[0])
                && old(self).temp_index + 2 <= u32::MAX ==> r is Ok,
        decreases depth,
    {
        if depth == 0 {
            return Err(too_deep());
        }
        if arguments.len() != 1 {
            return Err(argument_count_error("string_split_lines", arguments.len(), "1"));
        }
        let text = self.emit_expr(&arguments[0], out, depth - 1)?;
        ensure_string_argument("string_split_lines", "text", &text)?;
        let lines = self.next_temp()?;
        let slice_ty = slice_llvm_type();
        put_line(
            out,
            &["  ", lines.as_str(), " = call ", slice_ty.as_str(), " @ax_string_split_lines(ptr ", text.repr.as_str(), ")"],
        );
        Ok(LlvmValue {
            ty: slice_llvm_type(),
            repr: lines,
            ax_ty: Some(Type::Slice { element: Box::new(Type::String) }),
        })
    }

    fn emit_to_string(&mut self, arguments: &Vec<Expr>, out: &mut String, depth: u32) -> (r: Result<
        LlvmValue,
        String,
    >)
        ensures
            appends(old(out)@, final(out)@),
            steps_forward(*old(self), *final(self)),
            depth > 1 && arguments@.len() == 1 && arguments@[0] is Int && old(self).temp_index < u32::MAX
                ==> r is Ok,
            r matches Ok(v) ==> v.ty@ == "ptr"@,
        decreases depth,
    {
        if depth == 0 {
            return Err(too_deep());
        }
        if arguments.len() != 1 {
            return Err(argument_count_error("to_string", arguments.len(), "1"));
        }
        let v = self.emit_expr(&arguments[0], out, depth - 1)?;
        self.emit_value_to_string(v, out, depth - 1)
    }

    /// Formats a value as a string: scalars through runtime helpers, arrays,
    /// slices, structs and enums through generated formatting code.
    pub fn emit_value_to_string(&mut self, v: LlvmValue, out: &mut String, depth: u32) -> (r: Result<
        LlvmValue,
        String,
    >)
        ensures
            appends(old(out)@, final(out)@),
            steps_forward(*old(self), *final(self)),
            depth > 0 && v.ax_ty == Some(Type::I32) && v.ty@ == "i32"@ && old(self).temp_index < u32::MAX
                ==> (r matches Ok(t) && t.ax_ty == Some(Type::String) && final(out)@ == old(out)@ + "  "@ + t.repr@
                + " = call ptr @ax_i32_to_string(i32 "@ + v.repr@ + ")"@ + seq!['\n']),
            depth > 0 && v.ax_ty == Some(Type::Bool) && v.ty@ == "i1"@ && old(self).temp_index < u32::MAX
                ==> (r matches Ok(t) && t.ax_ty == Some(Type::String) && final(out)@ == old(out)@ + "  "@ + t.repr@
                + " = select i1 "@ + v.repr@ + ", ptr @.ax_text_true, ptr @.ax_text_false"@ + seq!['\n']),
            depth > 0 && v.ax_ty == Some(Type::String) && v.ty@ == "ptr"@ ==> r == Ok::<LlvmValue, String>(v)
                && final(out)@ == old(out)@,
            r matches Ok(v) ==> v.ty@ == "ptr"@,
        decreases depth,
    {
        proof {
            reveal_strlit("ptr");
            reveal_strlit("i32");
            reveal_strlit("i1");
            reveal_strlit("float");
            assert("ptr"@[0] != "i32"@[0]);
            assert("ptr"@.len() != "float"@.len() && "ptr"@.len() != "i1"@.len());
            reveal_with_fuel(concat_all, 6);
        }
        if depth == 0 {
            return Err(too_deep());
        }
        if is_enum_value(&v) {
            return self.emit_enum_to_string(v, out, depth - 1);
        }
        let ax = match &v.ax_ty {
            Some(t) => Some(clone_type(t)),
            None => None,
        };
        match &ax {
            Some(Type::Array { element, length }) => return self.emit_array_to_string(
                v,
                element,
                *length,
                out,
                depth - 1,
            ),
            Some(Type::Struct { name }) => return self.emit_struct_to_string(v, name.as_str(), out, depth - 1),
            Some(Type::Slice { element }) => return self.emit_slice_to_string(v, element, out, depth - 1),
            _ => {},
        }
        if str_eq(v.ty.as_str(), "i32") {
            let temp = self.next_temp()?;
            put_line(out, &["  ", temp.as_str(), " = call ptr @ax_i32_to_string(i32 ", v.repr.as_str(), ")"]);
            Ok(string_value(temp))
        } else if str_eq(v.ty.as_str(), "float") {
            let temp = self.next_temp()?;
            put_line(out, &["  ", temp.as_str(), " = call ptr @ax_f32_to_string(float ", v.repr.as_str(), ")"]);
            Ok(string_value(temp))
        } else if str_eq(v.ty.as_str(), "i1") {
            let temp = self.next_temp()?;
            put_line(
                out,
                &["  ", temp.as_str(), " = select i1 ", v.repr.as_str(), ", ptr @.ax_text_true, ptr @.ax_text_false"],
            );
            Ok(string_value(temp))
        } else if str_eq(v.ty.as_str(), "ptr") {
            Ok(v)
        } else if str_eq(v.ty.as_str(), "void") {
            Err(owned("to_string cannot format a `<void>` value in LLVM AOT v0"))
        } else {
            Err(
                concat(
                    &["to_string(", v.ty.as_str(), ") needs a native runtime formatter before LLVM AOT can lower it"],
                ),
            )
        }
    }

    fn emit_array_to_string(
        &mut self,
        v: LlvmValue,
        element: &Type,
        length: usize,
        out: &mut String,
        depth: u32,
    ) -> (r: Result<LlvmValue, String>)
        ensures
            appends(old(out)@, final(out)@),
            steps_forward(*old(self), *final(self)),
            r matches Ok(v) ==> v.ty@ == "ptr"@ && v.ax_ty == Some(Type::String),
            r is Ok ==> exists|names: Seq<Seq<char>>, at: Seq<int>|
                #[trigger] reads_elements_in_order(final(out)@, names, at, v.ty@, v.repr@, length as nat),
        decreases depth,
    {
        if depth == 0 {
            return Err(too_deep());
        }
        let array_ax_ty = Type::Array { element: Box::new(clone_type(element)), length };
        let array_ty = match llvm_type(&array_ax_ty, self.layouts, self.enum_layouts) {
            Some(t) => t,
            None => {
                let shown = ax_type_name(&array_ax_ty);
                return Err(concat(&["array type ", shown.as_str(), " is outside LLVM AOT v0"]));
            },
        };
        ensure_same_type(array_ty.as_str(), v.ty.as_str())?;
        let element_ty = match llvm_type(element, self.layouts, self.enum_layouts) {
            Some(t) => t,
            None => {
                let shown = ax_type_name(element);
                return Err(
                    concat(
                        &[
                            "array element type ",
                            shown.as_str(),
                            " needs a native formatter before to_string(array) can lower in LLVM AOT v0",
                        ],
                    ),
                );
            },
        };
        let mut current = self.string_literal_symbol("[")?;
        let mut index: usize = 0;
        let ghost mut names: Seq<Seq<char>> = Seq::empty();
        let ghost mut at: Seq<int> = Seq::empty();
        while index < length
            invariant
                appends(old(out)@, out@),
                steps_forward(*old(self), *self),
                index <= length,
                depth > 0,
                array_ty@ == v.ty@,
                reads_elements_in_order(out@, names, at, v.ty@, v.repr@, index as nat),
            decreases length - index,
        {
            let ghost top = out@;
            if index > 0 {
                let separator = self.string_literal_symbol(", ")?;
                current = self.emit_string_concat(current.as_str(), separator.as_str(), out)?;
            }
            proof {
                lemma_reads_kept(top, out@, names, at, v.ty@, v.repr@, index as nat);
            }
            let element_value = self.next_temp()?;
            let n = usize_to_decimal(index);
            let ghost line_start = out@;
            put_line(
                out,
                &["  ", element_value.as_str(), " = extractvalue ", array_ty.as_str(), " ", v.repr.as_str(), ", ", n.as_str()],
            );
            proof {
                reveal_with_fuel(concat_all, 9);
                let line = element_read_line(element_value@, v.ty@, v.repr@, index as nat);
                assert(out@ =~= line_start + line);
                assert(appends(line_start, out@));
                lemma_reads_kept(line_start, out@, names, at, v.ty@, v.repr@, index as nat);
                assert(out@.subrange(line_start.len() as int, (line_start.len() + line.len()) as int) =~= line);
                let names1 = names.push(element_value@);
                let at1 = at.push(line_start.len() as int);
                assert forall|i: int|
                    #![trigger at1[i]]
                    0 <= i < index + 1 implies 0 <= at1[i] && at1[i] + element_read_line(names1[i], v.ty@, v.repr@, i as nat).len()
                        <= out@.len() && out@.subrange(at1[i], at1[i] + element_read_line(names1[i], v.ty@, v.repr@, i as nat).len())
                        == element_read_line(names1[i], v.ty@, v.repr@, i as nat) by {
                    if i < index {
                        assert(at1[i] == at[i] && names1[i] == names[i]);
                    }
                }
                assert forall|i: int, j: int| #![trigger at1[i], at1[j]] 0 <= i < j < index + 1 implies at1[i] < at1[j] by {
                    if j < index {
                        assert(at1[i] == at[i] && at1[j] == at[j]);
                    } else {
                        assert(at1[i] == at[i]);
                        assert(at[i] + element_read_line(names[i], v.ty@, v.repr@, i as nat).len() <= line_start.len());
                    }
                }
                names = names1;
                at = at1;
                assert(reads_elements_in_order(out@, names, at, v.ty@, v.repr@, (index + 1) as nat));
            }
            let ghost after_line = out@;
            let element_text = self.emit_value_to_string(
                LlvmValue { ty: element_ty.clone(), repr: element_value, ax_ty: Some(clone_type(element)) },
                out,
                depth - 1,
            )?;
            current = self.emit_string_concat(current.as_str(), element_text.repr.as_str(), out)?;
            proof {
                lemma_reads_kept(after_line, out@, names, at, v.ty@, v.repr@, (index + 1) as nat);
            }
            index += 1;
        }
        let ghost loop_done = out@;
        let close = self.string_literal_symbol("]")?;
        let result = self.emit_string_concat(current.as_str(), close.as_str(), out)?;
        proof {
            lemma_reads_kept(loop_done, out@, names, at, v.ty@, v.repr@, length as nat);
        }
        Ok(string_value(result))
    }

    #[verifier::rlimit(50)]
    fn emit_slice_to_string(&mut self, v: LlvmValue, element: &Type, out: &mut String, depth: u32) -> (r:
        Result<LlvmValue, String>)
        ensures
            appends(old(out)@, final(out)@),
            steps_forward(*old(self), *final(self)),
            r matches Ok(v) ==> v.ty@ == "ptr"@ && v.ax_ty == Some(Type::String),
        decreases depth,
    {
        if depth == 0 {
            return Err(too_deep());
        }
        let slice_ty = slice_llvm_type();
        ensure_same_type(slice_ty.as_str(), v.ty.as_str())?;
        assert(appends(old(out)@, out@));
        let element_ty = match llvm_type(element, self.layouts, self.enum_layouts) {
            Some(t) => t,
            None => {
                let shown = ax_type_name(element);
                return Err(
                    concat(
                        &[
                            "slice element type ",
                            shown.as_str(),
                            " needs a native formatter before to_string(slice) can lower in LLVM AOT v0",
                        ],
                    ),
                );
            },
        };
        assert(appends(old(out)@, out@));
        let data_ptr = self.next_temp()?;
        assert(appends(old(out)@, out@));
        put_line(out, &["  ", data_ptr.as_str(), " = extractvalue ", v.ty.as_str(), " ", v.repr.as_str(), ", 0"]);
        assert(appends(old(out)@, out@));
        let len = self.next_temp()?;
        assert(appends(old(out)@, out@));
        put_line(out, &["  ", len.as_str(), " = extractvalue ", v.ty.as_str(), " ", v.repr.as_str(), ", 1"]);
        assert(appends(old(out)@, out@));
        let index_slot = self.next_temp()?;
        assert(appends(old(out)@, out@));
        let current_slot = self.next_temp()?;
        assert(appends(old(out)@, out@));
        let open = self.string_literal_symbol("[")?;
        assert(appends(old(out)@, out@));
        put_line(out, &["  ", index_slot.as_str(), " = alloca i32"]);
        assert(appends(old(out)@, out@));
        put_line(out, &["  ", current_slot.as_str(), " = alloca ptr"]);
        assert(appends(old(out)@, out@));
        put_line(out, &["  store i32 0, ptr ", index_slot.as_str()]);
        assert(appends(old(out)@, out@));
        put_line(out, &["  store ptr ", open.as_str(), ", ptr ", current_slot.as_str()]);
        assert(appends(old(out)@, out@));
        let loop_label = self.next_label("slice_to_string_loop")?;
        assert(appends(old(out)@, out@));
        let body_label = self.next_label("slice_to_string_body")?;
        assert(appends(old(out)@, out@));
        let separator_label = self.next_label("slice_to_string_separator")?;
        assert(appends(old(out)@, out@));
        let element_label = self.next_label("slice_to_string_element")?;
        assert(appends(old(out)@, out@));
        let done_label = self.next_label("slice_to_string_done")?;
        assert(appends(old(out)@, out@));
        put_line(out, &["  br label %", loop_label.as_str()]);
        assert(appends(old(out)@, out@));
        put_line(out, &[loop_label.as_str(), ":"]);
        assert(appends(old(out)@, out@));
        let index = self.next_temp()?;
        assert(appends(old(out)@, out@));
        put_line(out, &["  ", index.as_str(), " = load i32, ptr ", index_slot.as_str()]);
        assert(appends(old(out)@, out@));
        let has_item = self.next_temp()?;
        assert(appends(old(out)@, out@));
        put_line(out, &["  ", has_item.as_str(), " = icmp slt i32 ", index.as_str(), ", ", len.as_str()]);
        assert(appends(old(out)@, out@));
        put_line(
            out,
            &["  br i1 ", has_item.as_str(), ", label %", body_label.as_str(), ", label %", done_label.as_str()],
        );
        assert(appends(old(out)@, out@));
        put_line(out, &[body_label.as_str(), ":"]);
        assert(appends(old(out)@, out@));
        let needs_separator = self.next_temp()?;
        assert(appends(old(out)@, out@));
        put_line(out, &["  ", needs_separator.as_str(), " = icmp ne i32 ", index.as_str(), ", 0"]);
        assert(appends(old(out)@, out@));
        put_line(
            out,
            &[
                "  br i1 ",
                needs_separator.as_str(),
                ", label %",
                separator_label.as_str(),
                ", label %",
                element_label.as_str(),
            ],
        );
        assert(appends(old(out)@, out@));
        put_line(out, &[separator_label.as_str(), ":"]);
        assert(appends(old(out)@, out@));
        let current_before_separator = self.next_temp()?;
        assert(appends(old(out)@, out@));
        put_line(out, &["  ", current_before_separator.as_str(), " = load ptr, ptr ", current_slot.as_str()]);
        assert(appends(old(out)@, out@));
        let separator = self.string_literal_symbol(", ")?;
        assert(appends(old(out)@, out@));
        let with_separator = self.emit_string_concat(
            current_before_separator.as_str(),
            separator.as_str(),
            out,
        )?;
        assert(appends(old(out)@, out@));
        put_line(out, &["  store ptr ", with_separator.as_str(), ", ptr ", current_slot.as_str()]);
        assert(appends(old(out)@, out@));
        put_line(out, &["  br label %", element_label.as_str()]);
        assert(appends(old(out)@, out@));
        put_line(out, &[element_label.as_str(), ":"]);
        assert(appends(old(out)@, out@));
        let prefix = self.next_temp()?;
        assert(appends(old(out)@, out@));
        put_line(out, &["  ", prefix.as_str(), " = load ptr, ptr ", current_slot.as_str()]);
        assert(appends(old(out)@, out@));
        let element_ptr = self.next_temp()?;
        assert(appends(old(out)@, out@));
        put_line(
            out,
            &[
                "  ",
                element_ptr.as_str(),
                " = getelementptr ",
                element_ty.as_str(),
                ", ptr ",
                data_ptr.as_str(),
                ", i32 ",
                index.as_str(),
            ],
        );
        assert(appends(old(out)@, out@));
        let element_value = self.next_temp()?;
        assert(appends(old(out)@, out@));
        put_line(out, &["  ", element_value.as_str(), " = load ", element_ty.as_str(), ", ptr ", element_ptr.as_str()]);
        assert(appends(old(out)@, out@));
        let element_text = self.emit_value_to_string(
            LlvmValue { ty: element_ty, repr: element_value, ax_ty: Some(clone_type(element)) },
            out,
            depth - 1,
        )?;
        assert(appends(old(out)@, out@));
        let next_current = self.emit_string_concat(prefix.as_str(), element_text.repr.as_str(), out)?;
        assert(appends(old(out)@, out@));
        put_line(out, &["  store ptr ", next_current.as_str(), ", ptr ", current_slot.as_str()]);
        assert(appends(old(out)@, out@));
        let next_index = self.next_temp()?;
        assert(appends(old(out)@, out@));
        put_line(out, &["  ", next_index.as_str(), " = add i32 ", index.as_str(), ", 1"]);
        assert(appends(old(out)@, out@));
        put_line(out, &["  store i32 ", next_index.as_str(), ", ptr ", index_slot.as_str()]);
        assert(appends(old(out)@, out@));
        put_line(out, &["  br label %", loop_label.as_str()]);
        assert(appends(old(out)@, out@));
        put_line(out, &[done_label.as_str(), ":"]);
        assert(appends(old(out)@, out@));
        let current = self.next_temp()?;
        assert(appends(old(out)@, out@));
        put_line(out, &["  ", current.as_str(), " = load ptr, ptr ", current_slot.as_str()]);
        assert(appends(old(out)@, out@));
        let close = self.string_literal_symbol("]")?;
        assert(appends(old(out)@, out@));
        let result = self.emit_string_concat(current.as_str(), close.as_str(), out)?;
        assert(appends(old(out)@, out@));
        Ok(string_value(result))
    }

    fn emit_struct_to_string(&mut self, v: LlvmValue, name: &str, out: &mut String, depth: u32) -> (r:
        Result<LlvmValue, String>)
        ensures
            appends(old(out)@, final(out)@),
            steps_forward(*old(self), *final(self)),
            r matches Ok(v) ==> v.ty@ == "ptr"@ && v.ax_ty == Some(Type::String),
            depth == 0 || old(self).layouts.spec_get(name@) is None ==> r is Err,
            old(self).layouts.spec_get(name@) matches Some(l) ==> (l.ty@ != v.ty@ ==> r is Err),
            old(self).layouts.spec_get(name@) matches Some(l) ==> (old(self).strings.spec_get(l.name@ + " { "@) is None
                ==> r is Err),
            old(self).layouts.spec_get(name@) matches Some(l) ==> ((depth > 0 && l.ty@ == v.ty@ && l.fields@.len()
                == 0 && old(self).strings.spec_get(l.name@ + " { "@) is Some && old(self).strings.spec_get(" }"@)
                is Some && old(self).temp_index < u32::MAX) ==> (r matches Ok(t) && t.repr@ == temp_name(
                old(self).temp_index as nat,
            ) && final(self).temp_index == old(self).temp_index + 1)),
        decreases depth,
    {
        if depth == 0 {
            return Err(too_deep());
        }
        let layout = match self.layouts.get(name) {
            Some(layout) => layout,
            None => return Err(
                concat(&["struct `", name, "` is outside the LLVM AOT v0 formatter subset"]),
            ),
        };
        ensure_same_type(layout.ty.as_str(), v.ty.as_str())?;
        let fields = fields_by_name(&layout.fields);
        let prefix_text = struct_formatter_prefix(layout.name.as_str());
        let mut current = self.string_literal_symbol(prefix_text.as_str())?;
        let mut field_index: usize = 0;
        while field_index < fields.len()
            invariant
                appends(old(out)@, out@),
                steps_forward(*old(self), *self),
                field_index <= fields@.len(),
                depth > 0,
                fields@.len() == 0 ==> *self == *old(self),
                fields@.len() == layout.fields@.len(),
                old(self).layouts.spec_get(name@) == Some(*layout),
            decreases fields@.len() - field_index,
        {
            let field = fields[field_index];
            if field_index > 0 {
                let separator = self.string_literal_symbol(", ")?;
                current = self.emit_string_concat(current.as_str(), separator.as_str(), out)?;
            }
            let label_text = struct_field_formatter_label(field.name.as_str());
            let label = self.string_literal_symbol(label_text.as_str())?;
            current = self.emit_string_concat(current.as_str(), label.as_str(), out)?;
            let field_value = self.next_temp()?;
            let n = usize_to_decimal(field.index);
            put_line(
                out,
                &["  ", field_value.as_str(), " = extractvalue ", layout.ty.as_str(), " ", v.repr.as_str(), ", ", n.as_str()],
            );
            let field_text = self.emit_value_to_string(
                LlvmValue { ty: field.ty.clone(), repr: field_value, ax_ty: Some(clone_type(&field.ax_ty)) },
                out,
                depth - 1,
            )?;
            current = self.emit_string_concat(current.as_str(), field_text.repr.as_str(), out)?;
            field_index += 1;
        }
        let close = self.string_literal_symbol(" }")?;
        let result = self.emit_string_concat(current.as_str(), close.as_str(), out)?;
        assert(fields@.len() == 0 ==> result@ == temp_name(old(self).temp_index as nat));
        Ok(string_value(result))
    }

    fn emit_enum_to_string(&mut self, v: LlvmValue, out: &mut String, depth: u32) -> (r: Result<
        LlvmValue,
        String,
    >)
        ensures
            appends(old(out)@, final(out)@),
            steps_forward(*old(self), *final(self)),
            r matches Ok(v) ==> v.ty@ == "ptr"@ && v.ax_ty == Some(Type::String),
        decreases depth,
    {
        if depth == 0 {
            return Err(too_deep());
        }
        let enum_ax_ty = match &v.ax_ty {
            Some(t) => match t {
                Type::Enum { .. } | Type::EnumInstance { .. } => clone_type(t),
                _ => return Err(owned("to_string(enum) requires an enum value in LLVM AOT v0")),
            },
            None => return Err(owned("to_string(enum) requires an enum value in LLVM AOT v0")),
        };
        let layout = self.enum_layout_for_type(&enum_ax_ty)?;
        ensure_same_type(layout.ty.as_str(), v.ty.as_str())?;
        if layout.variants.len() == 0 {
            return Err(
                concat(
                    &[
                        "enum `",
                        layout.name.as_str(),
                        "` has no variants for native formatter lowering in LLVM AOT v0",
                    ],
                ),
            );
        }
        let is_tag_only = str_eq(layout.ty.as_str(), "i32");
        let tag = if is_tag_only {
            v.repr.clone()
        } else {
            let tag = self.next_temp()?;
            put_line(out, &["  ", tag.as_str(), " = extractvalue ", layout.ty.as_str(), " ", v.repr.as_str(), ", 0"]);
            tag
        };
        let result_slot = self.next_temp()?;
        let done_label = self.next_label("enum_to_string_done")?;
        let mut test_labels: Vec<String> = Vec::new();
        let mut variant_labels: Vec<String> = Vec::new();
        let mut k: usize = 0;
        while k < layout.variants.len()
            invariant
                appends(old(out)@, out@),
                steps_forward(*old(self), *self),
                k <= layout.variants@.len(),
                test_labels@.len() == k,
                variant_labels@.len() == k,
            decreases layout.variants@.len() - k,
        {
            let test_prefix = concat(&["enum_to_string_test_", layout.variants[k].name.as_str()]);
            test_labels.push(self.next_label(test_prefix.as_str())?);
            let variant_prefix = concat(&["enum_to_string_", layout.variants[k].name.as_str()]);
            variant_labels.push(self.next_label(variant_prefix.as_str())?);
            k += 1;
        }
        let count = layout.variants.len();
        let first_label = if count == 1 {
            variant_labels[0].clone()
        } else {
            test_labels[0].clone()
        };
        put_line(out, &["  ", result_slot.as_str(), " = alloca ptr"]);
        put_line(out, &["  br label %", first_label.as_str()]);
        let mut index: usize = 0;
        while index < count
            invariant
                appends(old(out)@, out@),
                steps_forward(*old(self), *self),
                index <= count,
                count == layout.variants@.len(),
                test_labels@.len() == count,
                variant_labels@.len() == count,
                depth > 0,
            decreases count - index,
        {
            let variant = &layout.variants[index];
            if count > 1 {
                put_line(out, &[test_labels[index].as_str(), ":"]);
                if index + 1 == count {
                    put_line(out, &["  br label %", variant_labels[index].as_str()]);
                } else {
                    let is_variant = self.next_temp()?;
                    let tag_text = i64_to_decimal(variant.tag as i64);
                    put_line(out, &["  ", is_variant.as_str(), " = icmp eq i32 ", tag.as_str(), ", ", tag_text.as_str()]);
                    put_line(
                        out,
                        &[
                            "  br i1 ",
                            is_variant.as_str(),
                            ", label %",
                            variant_labels[index].as_str(),
                            ", label %",
                            test_labels[index + 1].as_str(),
                        ],
                    );
                }
            }
            put_line(out, &[variant_labels[index].as_str(), ":"]);
            let formatted = self.emit_enum_variant_to_string(layout, variant, &v, out, depth - 1)?;
            put_line(out, &["  store ptr ", formatted.as_str(), ", ptr ", result_slot.as_str()]);
            put_line(out, &["  br label %", done_label.as_str()]);
            index += 1;
        }
        put_line(out, &[done_label.as_str(), ":"]);
        let result = self.next_temp()?;
        put_line(out, &["  ", result.as_str(), " = load ptr, ptr ", result_slot.as_str()]);
        Ok(string_value(result))
    }

    fn emit_enum_variant_to_string(
        &mut self,
        layout: &EnumLayout,
        variant: &EnumVariantLayout,
        v: &LlvmValue,
        out: &mut String,
        depth: u32,
    ) -> (r: Result<String, String>)
        ensures
            appends(old(out)@, final(out)@),
            steps_forward(*old(self), *final(self)),
            depth == 0 || old(self).strings.spec_get(layout.name@ + "."@ + variant.name@) is None ==> r is Err,
            old(self).strings.spec_get(layout.name@ + "."@ + variant.name@) matches Some(literal) ==> ((depth > 0
                && variant.payload_ax_ty is None) ==> (r matches Ok(t) && t@ == literal.symbol@ && final(out)@
                == old(out)@ && *final(self) == *old(self))),
            (depth > 0 && variant.payload_ax_ty is Some && layout.ty@ == "i32"@) ==> r is Err,
        decreases depth,
    {
        if depth == 0 {
            return Err(too_deep());
        }
        let label = enum_formatter_label(layout.name.as_str(), variant.name.as_str());
        let label_text = self.string_literal_symbol(label.as_str())?;
        let payload_ax_ty = match &variant.payload_ax_ty {
            Some(t) => t,
            None => return Ok(label_text),
        };
        if str_eq(layout.ty.as_str(), "i32") {
            return Err(
                concat(
                    &[
                        "enum `",
                        layout.name.as_str(),
                        ".",
                        variant.name.as_str(),
                        "` carries a payload but has no native payload storage in LLVM AOT v0",
                    ],
                ),
            );
        }
        let payload_ty = match llvm_type(payload_ax_ty, self.layouts, self.enum_layouts) {
            Some(t) => t,
            None => {
                let shown = ax_type_name(payload_ax_ty);
                return Err(
                    concat(
                        &[
                            "enum `",
                            layout.name.as_str(),
                            ".",
                            variant.name.as_str(),
                            "` payload type ",
                            shown.as_str(),
                            " is outside LLVM AOT v0",
                        ],
                    ),
                );
            },
        };
        let payload_ptr = self.next_temp()?;
        put_line(out, &["  ", payload_ptr.as_str(), " = extractvalue ", layout.ty.as_str(), " ", v.repr.as_str(), ", 1"]);
        let payload = self.next_temp()?;
        put_line(out, &["  ", payload.as_str(), " = load ", payload_ty.as_str(), ", ptr ", payload_ptr.as_str()]);
        let payload_text = self.emit_enum_payload_to_string(
            payload_ax_ty,
            payload_ty.as_str(),
            payload.as_str(),
            out,
            depth - 1,
        )?;
        let open = self.string_literal_symbol("(")?;
        let close = self.string_literal_symbol(")")?;
        let with_open = self.next_temp()?;
        put_line(
            out,
            &["  ", with_open.as_str(), " = call ptr @ax_string_concat(ptr ", label_text.as_str(), ", ptr ", open.as_str(), ")"],
        );
        let with_payload = self.next_temp()?;
        put_line(
            out,
            &[
                "  ",
                with_payload.as_str(),
                " = call ptr @ax_string_concat(ptr ",
                with_open.as_str(),
                ", ptr ",
                payload_text.as_str(),
                ")",
            ],
        );
        let with_close = self.next_temp()?;
        put_line(
            out,
            &["  ", with_close.as_str(), " = call ptr @ax_string_concat(ptr ", with_payload.as_str(), ", ptr ", close.as_str(), ")"],
        );
        Ok(with_close)
    }

    fn emit_enum_payload_to_string(
        &mut self,
        payload_ax_ty: &Type,
        payload_ty: &str,
        payload: &str,
        out: &mut String,
        depth: u32,
    ) -> (r: Result<String, String>)
        ensures
            appends(old(out)@, final(out)@),
            steps_forward(*old(self), *final(self)),
            depth == 0 ==> r is Err,
            depth > 1 && *payload_ax_ty is String && payload_ty@ == "ptr"@ ==> (r matches Ok(t) && t@ == payload@
                && final(out)@ == old(out)@),
            depth > 1 && *payload_ax_ty is I32 && payload_ty@ == "i32"@ && old(self).temp_index < u32::MAX ==> (
            r matches Ok(t) && final(out)@ == old(out)@ + "  "@ + t@ + " = call ptr @ax_i32_to_string(i32 "@ + payload@
                + ")"@ + seq!['\n']),
            depth > 1 && *payload_ax_ty is Bool && payload_ty@ == "i1"@ && old(self).temp_index < u32::MAX ==> (
            r matches Ok(t) && final(out)@ == old(out)@ + "  "@ + t@ + " = select i1 "@ + payload@
                + ", ptr @.ax_text_true, ptr @.ax_text_false"@ + seq!['\n']),
        decreases depth,
    {
        if depth == 0 {
            return Err(too_deep());
        }
        let rendered = self.emit_value_to_string(
            LlvmValue { ty: owned(payload_ty), repr: owned(payload), ax_ty: Some(clone_type(payload_ax_ty)) },
            out,
            depth - 1,
        )?;
        Ok(rendered.repr)
    }

    fn emit_println(&mut self, arguments: &Vec<Expr>, out: &mut String, depth: u32) -> (r: Result<
        LlvmValue,
        String,
    >)
        ensures
            appends(old(out)@, final(out)@),
            steps_forward(*old(self), *final(self)),
            depth == 0 ==> r is Err,
            r matches Ok(v) ==> v.ty@ == "void"@ && v.repr@.len() == 0 && v.ax_ty is None,
            (depth > 1 && forall|i: int| 0 <= i < arguments@.len() ==> (#[trigger] arguments@[i]) is Int) ==> (
            r is Ok && *final(self) == *old(self)),
            (depth > 0 && arguments@.len() == 0) ==> final(out)@ == old(out)@
                + "  call i32 (ptr, ...) @printf(ptr @.ax_fmt_str, ptr @.ax_text_newline)\n"@,
        decreases depth,
    {
        if depth == 0 {
            return Err(too_deep());
        }
        let mut index: usize = 0;
        while index < arguments.len()
            invariant
                appends(old(out)@, out@),
                steps_forward(*old(self), *self),
                index <= arguments@.len(),
                depth > 0,
                index == 0 ==> out@ == old(out)@,
                (depth > 1 && forall|i: int| 0 <= i < arguments@.len() ==> (#[trigger] arguments@[i]) is Int)
                    ==> *self == *old(self),
            decreases arguments@.len() - index,
        {
            if index > 0 {
                self.emit_printf_text("@.ax_text_space", out);
            }
            let v = self.emit_expr(&arguments[index], out, depth - 1)?;
            self.emit_print_value(v, out, depth - 1)?;
            index += 1;
        }
        self.emit_printf_text("@.ax_text_newline", out);
        proof {
            reveal_strlit("@.ax_text_newline");
            reveal_strlit("  call i32 (ptr, ...) @printf(ptr @.ax_fmt_str, ptr ");
            reveal_strlit(")\n");
            reveal_strlit("  call i32 (ptr, ...) @printf(ptr @.ax_fmt_str, ptr @.ax_text_newline)\n");
            assert("  call i32 (ptr, ...) @printf(ptr @.ax_fmt_str, ptr "@ + "@.ax_text_newline"@ + ")\n"@
                =~= "  call i32 (ptr, ...) @printf(ptr @.ax_fmt_str, ptr @.ax_text_newline)\n"@);
        }
        Ok(value("void", String::new(), None))
    }

    fn emit_print_value(&mut self, v: LlvmValue, out: &mut String, depth: u32) -> (r: Result<(), String>)
        ensures
            appends(old(out)@, final(out)@),
            steps_forward(*old(self), *final(self)),
            depth == 0 ==> r is Err,
            (depth > 0 && !printed_by_formatter(v.ax_ty)) ==> ((v.ty@ == "i32"@ || v.ty@ == "ptr"@) ==> (r is Ok
                && *final(self) == *old(self))),
            (depth > 0 && !printed_by_formatter(v.ax_ty)) ==> ((v.ty@ == "i1"@ || v.ty@ == "float"@) ==> (r is Ok
                <==> old(self).temp_index < u32::MAX)),
            (depth > 0 && !printed_by_formatter(v.ax_ty)) ==> (v.ty@ == "void"@ ==> r is Err && final(out)@
                == old(out)@),
        decreases depth,
    {
        if depth == 0 {
            return Err(too_deep());
        }
        proof {
            reveal_strlit("i32");
            reveal_strlit("float");
            reveal_strlit("i1");
            reveal_strlit("ptr");
            reveal_strlit("void");
            assert("i32"@.len() == 3 && "float"@.len() == 5 && "i1"@.len() == 2 && "ptr"@.len() == 3
                && "void"@.len() == 4);
            assert("i32"@[0] == 'i' && "ptr"@[0] == 'p');
        }
        let formatted = match &v.ax_ty {
            Some(Type::Array { .. }) | Some(Type::Slice { .. }) | Some(Type::Struct { .. }) | Some(
                Type::Enum { .. },
            ) | Some(Type::EnumInstance { .. }) => true,
            _ => false,
        };
        if formatted {
            let text = self.emit_value_to_string(v, out, depth - 1)?;
            put_line(out, &["  call i32 (ptr, ...) @printf(ptr @.ax_fmt_str, ptr ", text.repr.as_str(), ")"]);
            return Ok(());
        }
        if str_eq(v.ty.as_str(), "i32") {
            put_line(out, &["  call i32 (ptr, ...) @printf(ptr @.ax_fmt_i32, i32 ", v.repr.as_str(), ")"]);
            Ok(())
        } else if str_eq(v.ty.as_str(), "float") {
            let text = self.next_temp()?;
            put_line(out, &["  ", text.as_str(), " = call ptr @ax_f32_to_string(float ", v.repr.as_str(), ")"]);
            put_line(out, &["  call i32 (ptr, ...) @printf(ptr @.ax_fmt_str, ptr ", text.as_str(), ")"]);
            Ok(())
        } else if str_eq(v.ty.as_str(), "i1") {
            let text = self.next_temp()?;
            put_line(
                out,
                &["  ", text.as_str(), " = select i1 ", v.repr.as_str(), ", ptr @.ax_text_true, ptr @.ax_text_false"],
            );
            put_line(out, &["  call i32 (ptr, ...) @printf(ptr @.ax_fmt_str, ptr ", text.as_str(), ")"]);
            Ok(())
        } else if str_eq(v.ty.as_str(), "ptr") {
            put_line(out, &["  call i32 (ptr, ...) @printf(ptr @.ax_fmt_str, ptr ", v.repr.as_str(), ")"]);
            Ok(())
        } else if str_eq(v.ty.as_str(), "void") {
            Err(owned("println cannot print a `<void>` value in LLVM AOT v0"))
        } else {
            Err(
                concat(
                    &["println(", v.ty.as_str(), ") needs a native runtime ABI before LLVM AOT can lower it"],
                ),
            )
        }
    }

    fn emit_printf_text(&self, global: &str, out: &mut String)
        ensures
            appends(old(out)@, final(out)@),
            final(out)@ == old(out)@ + "  call i32 (ptr, ...) @printf(ptr @.ax_fmt_str, ptr "@ + global@
                + ")\n"@,
    {
        put_line(out, &["  call i32 (ptr, ...) @printf(ptr @.ax_fmt_str, ptr ", global, ")"]);
        proof {
            reveal_with_fuel(concat_all, 4);
            reveal_strlit(")\n");
            reveal_strlit(")");
            assert(")"@ + seq!['\n'] =~= ")\n"@);
        }
    }

    /// Concatenates two strings with the runtime helper.
    pub fn emit_string_concat(&mut self, left: &str, right: &str, out: &mut String) -> (r: Result<
        String,
        String,
    >)
        ensures
            appends(old(out)@, final(out)@),
            steps_forward(*old(self), *final(self)),
            r is Ok <==> old(self).temp_index < u32::MAX,
            r is Ok ==> final(self).temp_index == old(self).temp_index + 1,
            r matches Ok(t) ==> t@ == "%t"@ + decimal(old(self).temp_index as nat) && final(out)@ == old(out)@
                + "  "@ + t@ + " = call ptr @ax_string_concat(ptr "@ + left@ + ", ptr "@ + right@ + ")"@ + seq![
                '\n',
            ],
    {
        let temp = self.next_temp()?;
        put_line(out, &["  ", temp.as_str(), " = call ptr @ax_string_concat(ptr ", left, ", ptr ", right, ")"]);
        proof {
            reveal_with_fuel(concat_all, 8);
        }
        Ok(temp)
    }
}

} // verus!
