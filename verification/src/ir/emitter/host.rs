//! Calls of the host builtins (environment, processes, files, paths and
//! string lists), lowered to the runtime helpers of the module prelude.
use vstd::prelude::*;
use crate::mir::{Expr, Type};
use crate::text::{concat, join, put_line, str_eq};
use super::super::model::LlvmValue;
use super::super::support::ensure_same_type;
use super::{bool_value, is_string_local, steps_forward, string_value, temp_name, too_deep, value, FunctionEmitter};
use crate::text::appends;

verus! {

/// The LLVM return type and parameter types of the runtime helper `@ax_<name>`
/// behind the host builtin `name`, if `name` is one.
pub open spec fn host_builtin(name: Seq<char>) -> Option<(Seq<char>, Seq<Seq<char>>)> {
    if name == "process_cwd"@ || name == "string_list_new"@ {
        Some(("ptr"@, seq![]))
    } else if name == "process_run"@ || name == "fs_file_size"@ {
        Some(("i32"@, seq!["ptr"@]))
    } else if name == "process_run_in"@ || name == "fs_copy_file"@ {
        Some(("i32"@, seq!["ptr"@, "ptr"@]))
    } else if name == "process_capture"@ || name == "fs_read_to_string"@ || name == "path_parent"@
        || name == "path_resolve"@ || name == "path_file_name"@ || name == "path_stem"@ || name
        == "path_extension"@ {
        Some(("ptr"@, seq!["ptr"@]))
    } else if name == "process_capture_in"@ || name == "path_join"@ || name == "string_list_push"@
        || name == "string_list_join"@ {
        Some(("ptr"@, seq!["ptr"@, "ptr"@]))
    } else if name == "string_list_get"@ {
        Some(("ptr"@, seq!["ptr"@, "i32"@]))
    } else if name == "fs_exists"@ || name == "fs_is_file"@ || name == "fs_is_dir"@ || name
        == "path_is_absolute"@ {
        Some(("i1"@, seq!["ptr"@]))
    } else if name == "fs_read_dir"@ {
        Some(("{ ptr, i32 }"@, seq!["ptr"@]))
    } else if name == "fs_remove_file"@ || name == "fs_create_dir_all"@ || name == "fs_remove_dir_all"@ {
        Some(("void"@, seq!["ptr"@]))
    } else if name == "fs_write_string"@ || name == "fs_rename"@ {
        Some(("void"@, seq!["ptr"@, "ptr"@]))
    } else {
        None
    }
}

/// The AX type of what the host builtin `name` returns (`None` for `void`).
pub open spec fn host_builtin_ax_type(name: Seq<char>) -> Option<Type> {
    if name == "string_list_new"@ || name == "string_list_push"@ {
        Some(Type::StringList)
    } else if name == "fs_read_dir"@ {
        Some(Type::Slice { element: Box::new(Type::String) })
    } else {
        match host_builtin(name) {
            Some((ret, _)) => if ret == "i32"@ {
                Some(Type::I32)
            } else if ret == "i1"@ {
                Some(Type::Bool)
            } else if ret == "ptr"@ {
                Some(Type::String)
            } else {
                None
            },
            None => None,
        }
    }
}

/// Argument `i` is a string local passed where the helper takes a `ptr`.
pub open spec fn string_argument(e: FunctionEmitter, params: Seq<&str>, args: Seq<Expr>, i: int) -> bool {
    params[i]@ == "ptr"@ && is_string_local(e, args[i])
}

/// The call line of a runtime helper: `  %r = call <ret> @ax_<name>(<args>)`,
/// or `  call void @ax_<name>(<args>)` when it returns nothing.
pub open spec fn helper_call_line(result: Seq<char>, ret: Seq<char>, name: Seq<char>, args: Seq<char>) -> Seq<char> {
    if ret == "void"@ {
        "  call void @ax_"@ + name + "("@ + args + ")"@ + seq!['\n']
    } else {
        "  "@ + result + " = call "@ + ret + " @ax_"@ + name + "("@ + args + ")"@ + seq!['\n']
    }
}

/// The LLVM return type and parameter types of the host builtin `name`.
pub fn host_builtin_signature(name: &str) -> (r: Option<(&'static str, Vec<&'static str>)>)
    ensures
        r is Some <==> host_builtin(name@) is Some,
        r matches Some((ret, params)) ==> (host_builtin(name@) matches Some((spec_ret, spec_params)) && ret@
            == spec_ret && params@.len() == spec_params.len() && forall|i: int|
            0 <= i < params@.len() ==> #[trigger] params@[i]@ == spec_params[i]),
{
    if str_eq(name, "process_cwd") || str_eq(name, "string_list_new") {
        Some(("ptr", vec![]))
    } else if str_eq(name, "process_run") || str_eq(name, "fs_file_size") {
        Some(("i32", vec!["ptr"]))
    } else if str_eq(name, "process_run_in") || str_eq(name, "fs_copy_file") {
        Some(("i32", vec!["ptr", "ptr"]))
    } else if str_eq(name, "process_capture") || str_eq(name, "fs_read_to_string") || str_eq(name, "path_parent")
        || str_eq(name, "path_resolve") || str_eq(name, "path_file_name") || str_eq(name, "path_stem") || str_eq(
        name,
        "path_extension",
    ) {
        Some(("ptr", vec!["ptr"]))
    } else if str_eq(name, "process_capture_in") || str_eq(name, "path_join") || str_eq(name, "string_list_push")
        || str_eq(name, "string_list_join") {
        Some(("ptr", vec!["ptr", "ptr"]))
    } else if str_eq(name, "string_list_get") {
        Some(("ptr", vec!["ptr", "i32"]))
    } else if str_eq(name, "fs_exists") || str_eq(name, "fs_is_file") || str_eq(name, "fs_is_dir") || str_eq(
        name,
        "path_is_absolute",
    ) {
        Some(("i1", vec!["ptr"]))
    } else if str_eq(name, "fs_read_dir") {
        Some(("{ ptr, i32 }", vec!["ptr"]))
    } else if str_eq(name, "fs_remove_file") || str_eq(name, "fs_create_dir_all") || str_eq(
        name,
        "fs_remove_dir_all",
    ) {
        Some(("void", vec!["ptr"]))
    } else if str_eq(name, "fs_write_string") || str_eq(name, "fs_rename") {
        Some(("void", vec!["ptr", "ptr"]))
    } else {
        None
    }
}

/// The AX type of what the host builtin `name` returns.
pub fn host_builtin_result_type(name: &str, ret: &str) -> (r: Option<Type>)
    requires
        host_builtin(name@) matches Some((spec_ret, _)) && spec_ret == ret@,
    ensures
        r == host_builtin_ax_type(name@),
{
    proof {
        reveal_strlit("i32");
        reveal_strlit("i1");
        reveal_strlit("ptr");
        reveal_strlit("void");
        reveal_strlit("{ ptr, i32 }");
    }
    if str_eq(name, "string_list_new") || str_eq(name, "string_list_push") {
        Some(Type::StringList)
    } else if str_eq(name, "fs_read_dir") {
        Some(Type::Slice { element: Box::new(Type::String) })
    } else if str_eq(ret, "i32") {
        Some(Type::I32)
    } else if str_eq(ret, "i1") {
        Some(Type::Bool)
    } else if str_eq(ret, "ptr") {
        Some(Type::String)
    } else {
        None
    }
}

impl<'a> FunctionEmitter<'a> {
    /// Lowers a call of a host builtin to a call of its runtime helper: the
    /// arguments in order, each of the helper's parameter type, then the call.
    pub fn emit_host_call(
        &mut self,
        function: &str,
        ret: &str,
        params: &Vec<&'static str>,
        arguments: &Vec<Expr>,
        out: &mut String,
        depth: u32,
    ) -> (r: Result<LlvmValue, String>)
        requires
            host_builtin(function@) matches Some((spec_ret, spec_params)) && spec_ret == ret@ && params@.len()
                == spec_params.len() && forall|i: int| 0 <= i < params@.len() ==> #[trigger] params@[i]@ == spec_params[i],
        ensures
            appends(old(out)@, final(out)@),
            steps_forward(*old(self), *final(self)),
            depth == 0 || arguments@.len() != params@.len() ==> r is Err,
            r matches Ok(v) ==> v.ax_ty == host_builtin_ax_type(function@) && v.ty@ == ret@,
            r matches Ok(v) ==> exists|before: Seq<char>, args: Seq<char>|
                final(out)@ == before + helper_call_line(v.repr@, ret@, function@, args),
            r matches Ok(v) ==> (ret@ != "void"@ ==> final(self).temp_index > old(self).temp_index && v.repr@
                == temp_name((final(self).temp_index - 1) as nat)),
            (depth > 1 && arguments@.len() == params@.len() && (forall|i: int|
                0 <= i < arguments@.len() ==> #[trigger] string_argument(*old(self), params@, arguments@, i)) && old(self).temp_index + arguments@.len() + 1 <= u32::MAX) ==> r is Ok,
        decreases depth,
    {
        if depth == 0 {
            return Err(too_deep());
        }
        if arguments.len() != params.len() {
            return Err(
                concat(&["host builtin `", function, "` was called with the wrong number of arguments"]),
            );
        }
        let ghost ok_case = depth > 1 && (forall|i: int|
            0 <= i < arguments@.len() ==> #[trigger] string_argument(*old(self), params@, arguments@, i))
            && old(self).temp_index + arguments@.len() + 1 <= u32::MAX;
        let mut rendered: Vec<String> = Vec::new();
        let mut i: usize = 0;
        while i < arguments.len()
            invariant
                appends(old(out)@, out@),
                steps_forward(*old(self), *self),
                i <= arguments@.len(),
                arguments@.len() == params@.len(),
                depth > 0,
                ok_case == (depth > 1 && (forall|j: int|
                    0 <= j < arguments@.len() ==> #[trigger] string_argument(*old(self), params@, arguments@, j)) && old(self).temp_index + arguments@.len() + 1 <= u32::MAX),
                ok_case ==> self.locals == old(self).locals && self.temp_index == old(self).temp_index + i
                    && depth > 1 && old(self).temp_index + arguments@.len() + 1 <= u32::MAX && (forall|j: int|
                    0 <= j < arguments@.len() ==> #[trigger] string_argument(*old(self), params@, arguments@, j)),
            decreases arguments@.len() - i,
        {
            proof {
                if ok_case {
                    assert(string_argument(*old(self), params@, arguments@, i as int));
                }
            }
            let v = self.emit_expr(&arguments[i], out, depth - 1)?;
            ensure_same_type(params[i], v.ty.as_str())?;
            rendered.push(concat(&[params[i], " ", v.repr.as_str()]));
            i += 1;
        }
        let args = join(rendered.as_slice(), ", ");
        let ax_ty = host_builtin_result_type(function, ret);
        proof {
            reveal_strlit("void");
        }
        if str_eq(ret, "void") {
            let ghost before = out@;
            put_line(out, &["  call void @ax_", function, "(", args.as_str(), ")"]);
            let result = value("void", String::new(), ax_ty);
            proof {
                reveal_with_fuel(crate::text::concat_all, 6);
                reveal_strlit(")");
                assert(out@ =~= before + helper_call_line(result.repr@, ret@, function@, args@));
            }
            Ok(result)
        } else {
            let ghost k = self.temp_index;
            let result = self.next_temp()?;
            let ghost before = out@;
            put_line(out, &["  ", result.as_str(), " = call ", ret, " @ax_", function, "(", args.as_str(), ")"]);
            proof {
                reveal_with_fuel(crate::text::concat_all, 10);
                reveal_strlit(")");
                assert(out@ =~= before + helper_call_line(result@, ret@, function@, args@));
                assert(result@ == temp_name(k as nat));
            }
            Ok(value(ret, result, ax_ty))
        }
    }

    /// Lowers `env_has(name)` to a `getenv` null test and `env_get(name)` to a
    /// `getenv` whose null result stops the program with the missing-variable
    /// error.
    pub fn emit_env_call(&mut self, function: &str, arguments: &Vec<Expr>, out: &mut String, depth: u32) -> (r:
        Result<LlvmValue, String>)
        requires
            function@ == "env_has"@ || function@ == "env_get"@,
        ensures
            appends(old(out)@, final(out)@),
            steps_forward(*old(self), *final(self)),
            depth == 0 || arguments@.len() != 1 ==> r is Err,
            function@ == "env_has"@ ==> (r matches Ok(v) ==> v.ty@ == "i1"@ && v.ax_ty == Some(Type::Bool)),
            function@ == "env_get"@ ==> (r matches Ok(v) ==> v.ty@ == "ptr"@ && v.ax_ty == Some(Type::String)),
            (depth > 1 && arguments@.len() == 1 && is_string_local(*old(self), arguments@[0])
                && old(self).temp_index + 5 <= u32::MAX) ==> r is Ok,
        decreases depth,
    {
        if depth == 0 {
            return Err(too_deep());
        }
        if arguments.len() != 1 {
            return Err(concat(&["host builtin `", function, "` takes one argument"]));
        }
        proof {
            reveal_strlit("env_has");
            reveal_strlit("env_get");
            assert("env_has"@[4] != "env_get"@[4]);
        }
        let name = self.emit_expr(&arguments[0], out, depth - 1)?;
        ensure_same_type("ptr", name.ty.as_str())?;
        let found = self.next_temp()?;
        put_line(out, &["  ", found.as_str(), " = call ptr @getenv(ptr ", name.repr.as_str(), ")"]);
        if str_eq(function, "env_has") {
            let present = self.next_temp()?;
            put_line(out, &["  ", present.as_str(), " = icmp ne ptr ", found.as_str(), ", null"]);
            Ok(bool_value(present))
        } else {
            let missing = self.next_temp()?;
            put_line(out, &["  ", missing.as_str(), " = icmp eq ptr ", found.as_str(), ", null"]);
            self.emit_runtime_error_if(missing.as_str(), "env_missing", "@.ax_rt_env_missing", out)?;
            Ok(string_value(found))
        }
    }
}

} // verus!
