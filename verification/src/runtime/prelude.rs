//! The runtime prelude shared by every module: format strings, runtime error
//! messages, external declarations and the runtime error helper.
use vstd::prelude::*;
use vstd::string::StringSliceAdditionalSpecFns;
use crate::abi;
use crate::text::{concat_all, decimal, c_string_encoding, encode_llvm_c_string, push_decimal_successor, put};
use super::for_target;

verus! {

/// The `printf` formats and boolean texts.
pub const FORMAT_GLOBALS: &'static str = r#"@.ax_fmt_i32 = private unnamed_addr constant [3 x i8] c"%d\00"
@.ax_fmt_f32 = private unnamed_addr constant [3 x i8] c"%g\00"
@.ax_fmt_str = private unnamed_addr constant [3 x i8] c"%s\00"
@.ax_text_true = private unnamed_addr constant [5 x i8] c"true\00"
@.ax_text_false = private unnamed_addr constant [6 x i8] c"false\00"
@.ax_text_space = private unnamed_addr constant [2 x i8] c" \00"
@.ax_text_newline = private unnamed_addr constant [2 x i8] c"\0A\00"
"#;

/// The path and file mode texts.
pub const PATH_AND_MODE_GLOBALS: &'static str = r#"@.ax_path_dot = private unnamed_addr constant [2 x i8] c".\00"
@.ax_path_dotdot = private unnamed_addr constant [3 x i8] c"..\00"
@.ax_fs_mode_read_binary = private unnamed_addr constant [3 x i8] c"rb\00"
@.ax_fs_mode_write_binary = private unnamed_addr constant [3 x i8] c"wb\00"
@.ax_process_mode_read = private unnamed_addr constant [2 x i8] c"r\00"
"#;

/// The C library functions and LLVM intrinsics that every target declares.
pub const LIBC_DECLARATIONS: &'static str = r#"declare i32 @printf(ptr, ...)
declare i32 @fputs(ptr, ptr)
declare ptr @fopen(ptr, ptr)
declare i32 @fgetc(ptr)
declare i32 @fputc(i32, ptr)
declare i32 @fclose(ptr)
declare void @rewind(ptr)
declare i32 @remove(ptr)
declare i32 @rename(ptr, ptr)
declare void @exit(i32)
declare i32 @strcmp(ptr, ptr)
declare ptr @strstr(ptr, ptr)
declare i32 @strncmp(ptr, ptr, i64)
declare i64 @strlen(ptr)
declare ptr @getenv(ptr)
declare ptr @malloc(i64)
declare void @free(ptr)
declare ptr @memcpy(ptr, ptr, i64)
declare i32 @system(ptr)
declare i32 @snprintf(ptr, i64, ptr, ...)
declare { i32, i1 } @llvm.sadd.with.overflow.i32(i32, i32)
declare { i32, i1 } @llvm.ssub.with.overflow.i32(i32, i32)
declare { i32, i1 } @llvm.smul.with.overflow.i32(i32, i32)
"#;

/// The Win32 and CRT functions the Windows helpers call.
pub const HOST_DECLARATIONS_WINDOWS: &'static str = r#"declare i32 @GetFileAttributesA(ptr)
declare i32 @CreateDirectoryA(ptr, ptr)
declare i32 @DeleteFileA(ptr)
declare i32 @RemoveDirectoryA(ptr)
declare i32 @GetCurrentDirectoryA(i32, ptr)
declare i32 @SetCurrentDirectoryA(ptr)
declare ptr @FindFirstFileA(ptr, ptr)
declare i32 @FindNextFileA(ptr, ptr)
declare i32 @FindClose(ptr)
declare ptr @_popen(ptr, ptr)
declare i32 @_pclose(ptr)
declare ptr @__acrt_iob_func(i32)
"#;

/// The POSIX functions the POSIX helpers call.
pub const HOST_DECLARATIONS_POSIX: &'static str = r#"declare i32 @access(ptr, i32)
declare i32 @mkdir(ptr, i32)
declare i32 @nftw(ptr, ptr, i32, i32)
declare ptr @opendir(ptr)
declare ptr @readdir(ptr)
declare i32 @closedir(ptr)
declare ptr @getcwd(ptr, i64)
declare i32 @chdir(ptr)
declare ptr @popen(ptr, ptr)
declare i32 @pclose(ptr)
@stderr = external global ptr
"#;

/// The opening of `ax_runtime_error`.
pub const RUNTIME_ERROR_OPENING: &'static str = r#"define private void @ax_runtime_error(ptr %message) {
entry:
"#;

/// How `ax_runtime_error` finds stderr through the CRT.
pub const RUNTIME_ERROR_STDERR_WINDOWS: &'static str = r#"  %stderr = call ptr @__acrt_iob_func(i32 2)
"#;

/// How `ax_runtime_error` finds stderr through libc.
pub const RUNTIME_ERROR_STDERR_POSIX: &'static str = r#"  %stderr = load ptr, ptr @stderr
"#;

/// The message output and exit of `ax_runtime_error`.
pub const RUNTIME_ERROR_CLOSING: &'static str = r#"  %written = call i32 @fputs(ptr %message, ptr %stderr)
  call void @exit(i32 1)
  unreachable
}

"#;

/// The runtime error messages and the other texts that generated code names,
/// as pairs of a global's symbol and its text.
pub open spec fn runtime_texts() -> Seq<(&'static str, &'static str)> {
    seq![
        ("@.ax_rt_div_zero", "R0021: division by zero\n"),
        ("@.ax_rt_mod_zero", "R0021: modulo by zero\n"),
        ("@.ax_rt_neg_overflow", "R0012: integer negation overflowed\n"),
        ("@.ax_rt_add_overflow", "R0018: integer addition overflowed\n"),
        ("@.ax_rt_sub_overflow", "R0019: integer subtraction overflowed\n"),
        ("@.ax_rt_mul_overflow", "R0020: integer multiplication overflowed\n"),
        ("@.ax_rt_div_overflow", "R0022: integer division overflowed\n"),
        ("@.ax_rt_rem_overflow", "R0024: integer remainder overflowed\n"),
        ("@.ax_rt_index_oob", "R0031: array index out of bounds\n"),
        ("@.ax_rt_slice_bound_oob", "R0032: slice bound out of bounds\n"),
        ("@.ax_rt_slice_order_invalid", "R0032: slice start bound is greater than end bound\n"),
        ("@.ax_rt_argv_oob", "R0031: argv index out of bounds\n"),
        ("@.ax_rt_env_missing", "R0053: environment variable is not available\n"),
        ("@.ax_rt_fs_read_failed", "R0061: failed to read file\n"),
        ("@.ax_rt_fs_metadata_failed", "R0103: failed to read file metadata\n"),
        ("@.ax_rt_fs_too_large", "R0104: file is too large to report as i32 bytes\n"),
        ("@.ax_rt_fs_write_failed", "R0075: failed to write file\n"),
        ("@.ax_rt_fs_remove_file_failed", "R0110: failed to remove file\n"),
        ("@.ax_rt_fs_rename_failed", "R0107: failed to rename file\n"),
        ("@.ax_rt_fs_copy_failed", "R0087: failed to copy file\n"),
        ("@.ax_rt_fs_copy_too_large", "R0086: copied file is too large to report as i32 bytes\n"),
        ("@.ax_rt_fs_create_dir_failed", "R0072: failed to create directory\n"),
        ("@.ax_rt_fs_remove_dir_failed", "R0113: failed to remove directory tree\n"),
        ("@.ax_rt_fs_read_dir_failed", "R0123: failed to read directory\n"),
        ("@.ax_rt_path_failed", "R0124: failed to resolve path\n"),
        ("@.ax_rt_process_failed", "R0125: failed to run process command\n"),
        (abi::HOST_ERROR_DEFAULT_MESSAGE, "host operation failed"),
    ]
}

/// The declarations of the text globals `texts`, in order.
pub open spec fn text_globals_text(texts: Seq<(&'static str, &'static str)>) -> Seq<char>
    decreases texts.len(),
{
    if texts.len() == 0 {
        Seq::empty()
    } else {
        text_globals_text(texts.drop_last()) + text_global_line(
            texts.last().0@,
            texts.last().1.spec_bytes(),
        )
    }
}

/// The text that `write_builtin_globals` appends: the format strings, boolean
/// texts and runtime error messages that generated code refers to.
pub open spec fn builtin_globals_text() -> Seq<char> {
    FORMAT_GLOBALS@ + text_globals_text(runtime_texts()) + PATH_AND_MODE_GLOBALS@
}

/// Appends the format strings, boolean texts and runtime error messages that
/// generated code refers to.
pub fn write_builtin_globals(module: &mut String)
    ensures
        final(module)@ == old(module)@ + builtin_globals_text(),
{
    let ghost start = module@;
    module.append(FORMAT_GLOBALS);
    let ghost head = module@;
    let texts = [
        ("@.ax_rt_div_zero", "R0021: division by zero\n"),
        ("@.ax_rt_mod_zero", "R0021: modulo by zero\n"),
        ("@.ax_rt_neg_overflow", "R0012: integer negation overflowed\n"),
        ("@.ax_rt_add_overflow", "R0018: integer addition overflowed\n"),
        ("@.ax_rt_sub_overflow", "R0019: integer subtraction overflowed\n"),
        ("@.ax_rt_mul_overflow", "R0020: integer multiplication overflowed\n"),
        ("@.ax_rt_div_overflow", "R0022: integer division overflowed\n"),
        ("@.ax_rt_rem_overflow", "R0024: integer remainder overflowed\n"),
        ("@.ax_rt_index_oob", "R0031: array index out of bounds\n"),
        ("@.ax_rt_slice_bound_oob", "R0032: slice bound out of bounds\n"),
        ("@.ax_rt_slice_order_invalid", "R0032: slice start bound is greater than end bound\n"),
        ("@.ax_rt_argv_oob", "R0031: argv index out of bounds\n"),
        ("@.ax_rt_env_missing", "R0053: environment variable is not available\n"),
        ("@.ax_rt_fs_read_failed", "R0061: failed to read file\n"),
        ("@.ax_rt_fs_metadata_failed", "R0103: failed to read file metadata\n"),
        ("@.ax_rt_fs_too_large", "R0104: file is too large to report as i32 bytes\n"),
        ("@.ax_rt_fs_write_failed", "R0075: failed to write file\n"),
        ("@.ax_rt_fs_remove_file_failed", "R0110: failed to remove file\n"),
        ("@.ax_rt_fs_rename_failed", "R0107: failed to rename file\n"),
        ("@.ax_rt_fs_copy_failed", "R0087: failed to copy file\n"),
        ("@.ax_rt_fs_copy_too_large", "R0086: copied file is too large to report as i32 bytes\n"),
        ("@.ax_rt_fs_create_dir_failed", "R0072: failed to create directory\n"),
        ("@.ax_rt_fs_remove_dir_failed", "R0113: failed to remove directory tree\n"),
        ("@.ax_rt_fs_read_dir_failed", "R0123: failed to read directory\n"),
        ("@.ax_rt_path_failed", "R0124: failed to resolve path\n"),
        ("@.ax_rt_process_failed", "R0125: failed to run process command\n"),
        (abi::HOST_ERROR_DEFAULT_MESSAGE, "host operation failed"),
    ];
    assert(texts@ =~= runtime_texts());
    let mut i: usize = 0;
    while i < texts.len()
        invariant
            i <= texts@.len(),
            module@ == head + text_globals_text(texts@.take(i as int)),
        decreases texts@.len() - i,
    {
        let (symbol, value) = texts[i];
        write_text_global(module, symbol, value);
        assert(texts@.take(i + 1).drop_last() =~= texts@.take(i as int));
        i += 1;
    }
    assert(texts@.take(texts@.len() as int) =~= texts@);
    module.append(PATH_AND_MODE_GLOBALS);
    assert(module@ =~= start + builtin_globals_text());
}

/// The pieces of the external declarations, in order, for the target.
pub open spec fn external_declaration_parts(windows: bool) -> Seq<&'static str> {
    seq![LIBC_DECLARATIONS, if windows { HOST_DECLARATIONS_WINDOWS } else { HOST_DECLARATIONS_POSIX }]
}

/// The text that `write_external_declarations` appends: the C library and
/// LLVM intrinsic declarations that generated code calls.
pub open spec fn external_declarations_text(windows: bool) -> Seq<char> {
    concat_all(external_declaration_parts(windows))
}

/// Appends the C library and LLVM intrinsic declarations that generated code
/// calls, for a Windows target when `windows` holds.
pub fn write_external_declarations(module: &mut String, windows: bool)
    ensures
        final(module)@ == old(module)@ + external_declarations_text(windows),
{
    let parts = [LIBC_DECLARATIONS, for_target(windows, HOST_DECLARATIONS_WINDOWS, HOST_DECLARATIONS_POSIX)];
    assert(parts@ =~= external_declaration_parts(windows));
    put(module, &parts);
}

/// The pieces of the runtime error helper, in order, for the target.
pub open spec fn runtime_error_helper_parts(windows: bool) -> Seq<&'static str> {
    seq![
        RUNTIME_ERROR_OPENING,
        if windows { RUNTIME_ERROR_STDERR_WINDOWS } else { RUNTIME_ERROR_STDERR_POSIX },
        RUNTIME_ERROR_CLOSING,
    ]
}

/// The text that `write_runtime_error_helper` appends: the helper that prints
/// a runtime error message to stderr and exits with status 1.
pub open spec fn runtime_error_helper_text(windows: bool) -> Seq<char> {
    concat_all(runtime_error_helper_parts(windows))
}

/// Appends the helper that prints a runtime error message to stderr and exits
/// with status 1, for a Windows target when `windows` holds.
pub fn write_runtime_error_helper(module: &mut String, windows: bool)
    ensures
        final(module)@ == old(module)@ + runtime_error_helper_text(windows),
{
    let parts = [
        RUNTIME_ERROR_OPENING,
        for_target(windows, RUNTIME_ERROR_STDERR_WINDOWS, RUNTIME_ERROR_STDERR_POSIX),
        RUNTIME_ERROR_CLOSING,
    ];
    assert(parts@ =~= runtime_error_helper_parts(windows));
    put(module, &parts);
}

/// The line that declares a private NUL-terminated text global.
pub open spec fn text_global_line(symbol: Seq<char>, bytes: Seq<u8>) -> Seq<char> {
    symbol + " = private unnamed_addr constant ["@ + decimal((bytes.len() + 1) as nat)
        + " x i8] c\""@ + c_string_encoding(bytes) + "\"\n"@
}

/// Appends the declaration of the private text global `symbol` holding `value`.
pub fn write_text_global(module: &mut String, symbol: &str, value: &str)
    ensures
        final(module)@ == old(module)@ + text_global_line(symbol@, value.spec_bytes()),
{
    module.append(symbol);
    module.append(" = private unnamed_addr constant [");
    let bytes = value.as_bytes();
    push_decimal_successor(module, bytes.len());
    module.append(" x i8] c\"");
    let encoded = encode_llvm_c_string(value);
    module.append(encoded.as_str());
    module.append("\"\n");
    assert(module@ =~= old(module)@ + text_global_line(symbol@, value.spec_bytes()));
}

} // verus!
