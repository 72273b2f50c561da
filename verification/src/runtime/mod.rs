//! The runtime prelude of every generated module: text globals, external
//! declarations and the helpers that generated code calls.
use vstd::prelude::*;

pub mod prelude;
pub mod string;
pub mod list;
pub mod bytes;
pub mod host;
pub mod fs;
pub mod path;
pub mod process;

verus! {

/// `windows_text` for a Windows target, `posix_text` for any other.
pub fn for_target(windows: bool, windows_text: &'static str, posix_text: &'static str) -> (r:
    &'static str)
    ensures
        r == (if windows { windows_text } else { posix_text }),
{
    if windows {
        windows_text
    } else {
        posix_text
    }
}

/// Appends the text globals of the runtime.
pub fn write_builtin_globals(module: &mut String)
    ensures
        final(module)@ == old(module)@ + prelude::builtin_globals_text(),
{
    prelude::write_builtin_globals(module);
}

/// Appends the external declarations of the runtime for the target.
pub fn write_external_declarations(module: &mut String, windows: bool)
    ensures
        final(module)@ == old(module)@ + prelude::external_declarations_text(windows),
{
    prelude::write_external_declarations(module, windows);
}

/// Appends the runtime error helper for the target.
pub fn write_runtime_error_helper(module: &mut String, windows: bool)
    ensures
        final(module)@ == old(module)@ + prelude::runtime_error_helper_text(windows),
{
    prelude::write_runtime_error_helper(module, windows);
}

/// The string and string list helpers.
pub open spec fn all_string_helpers_text() -> Seq<char> {
    string::string_helpers_text() + list::string_list_helpers_text()
}

/// Appends the string helpers and then the string list helpers.
pub fn write_string_helpers(module: &mut String)
    ensures
        final(module)@ == old(module)@ + all_string_helpers_text(),
{
    string::write_string_helpers(module);
    list::write_string_list_helpers(module);
}

/// Appends the bytes helpers.
pub fn write_bytes_helpers(module: &mut String)
    ensures
        final(module)@ == old(module)@ + bytes::bytes_helpers_text(),
{
    bytes::write_bytes_helpers(module);
}

/// The host handle ABI and the filesystem, path and process helpers.
pub open spec fn all_host_helpers_text(windows: bool) -> Seq<char> {
    host::host_handle_abi_text() + fs::fs_helpers_text(windows) + path::path_helpers_text(windows)
        + process::process_helpers_text(windows)
}

/// Appends the host handle ABI and the filesystem, path and process helpers
/// for the target.
pub fn write_host_helpers(module: &mut String, windows: bool)
    ensures
        final(module)@ == old(module)@ + all_host_helpers_text(windows),
{
    host::write_host_handle_abi(module);
    fs::write_fs_helpers(module, windows);
    path::write_path_helpers(module, windows);
    process::write_process_helpers(module, windows);
}

} // verus!
