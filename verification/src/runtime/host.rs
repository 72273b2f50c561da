//! The host handle and host error ABI, and the release helpers of the host
//! resources.
use vstd::prelude::*;
use crate::abi;

verus! {

/// The comments that describe the host handle and host error ABI.
pub const HOST_ABI_COMMENTS: &'static str = r#"; host handle ABI: ax.host.handle_v0
; host handle type: ptr runtime-owned opaque handle
; host handle layout: header=16 kind_off=0 native_off=8
; host error ABI: ax.host.error_v0
; host error type: { i32, ptr } where code=0 means ok and message is null
"#;

/// The host error constructors and accessors.
pub const HOST_ERROR_HELPERS: &'static str = r#"define private { i32, ptr } @ax_host_error_ok() {
entry:
  %with_code = insertvalue { i32, ptr } undef, i32 0, 0
  %with_message = insertvalue { i32, ptr } %with_code, ptr null, 1
  ret { i32, ptr } %with_message
}

define private { i32, ptr } @ax_host_error_new(i32 %code, ptr %message) {
entry:
  %with_code = insertvalue { i32, ptr } undef, i32 %code, 0
  %with_message = insertvalue { i32, ptr } %with_code, ptr %message, 1
  ret { i32, ptr } %with_message
}

define private i1 @ax_host_error_is_ok({ i32, ptr } %error) {
entry:
  %code = extractvalue { i32, ptr } %error, 0
  %ok = icmp eq i32 %code, 0
  ret i1 %ok
}

define private ptr @ax_host_error_message({ i32, ptr } %error) {
entry:
  %message = extractvalue { i32, ptr } %error, 1
  %missing = icmp eq ptr %message, null
  %selected = select i1 %missing, ptr @.ax_host_error_default_message, ptr %message
  ret ptr %selected
}

"#;

/// The host handle constructor and kind accessor.
pub const HOST_HANDLE_HELPERS: &'static str = r#"define private ptr @ax_host_handle_new(i32 %kind, ptr %native) {
entry:
  %handle = call ptr @malloc(i64 16)
  store i32 %kind, ptr %handle
  %native_slot = getelementptr i8, ptr %handle, i64 8
  store ptr %native, ptr %native_slot
  ret ptr %handle
}

define private i32 @ax_host_handle_kind(ptr %handle) {
entry:
  %kind = load i32, ptr %handle
  ret i32 %kind
}

"#;

/// The host resources that get a release helper, as pairs of the helper's
/// name and of its parameter's name.
pub open spec fn released_resources() -> Seq<(&'static str, &'static str)> {
    seq![
        (abi::TCP_SOCKET_RELEASE_HELPER, "socket"),
        (abi::TLS_STREAM_RELEASE_HELPER, "stream"),
        (abi::HTTP_CLIENT_RELEASE_HELPER, "client"),
        (abi::HTTP_SERVER_RELEASE_HELPER, "server"),
        (abi::DB_CONNECTION_RELEASE_HELPER, "connection"),
        (abi::ASYNC_TASK_RELEASE_HELPER, "task"),
        (abi::TIMER_RELEASE_HELPER, "timer"),
    ]
}

/// The release helpers of `resources`, in order.
pub open spec fn release_helpers_text(resources: Seq<(&'static str, &'static str)>) -> Seq<char>
    decreases resources.len(),
{
    if resources.len() == 0 {
        Seq::empty()
    } else {
        release_helpers_text(resources.drop_last()) + release_helper_text(
            resources.last().0@,
            resources.last().1@,
        )
    }
}

/// The text that `write_host_handle_abi` appends: the host handle and host
/// error ABI, their helpers and the release helpers of the host resources.
pub open spec fn host_handle_abi_text() -> Seq<char> {
    HOST_ABI_COMMENTS@ + host_error_helpers_text() + host_handle_helpers_text()
        + release_helpers_text(released_resources())
}

/// Appends the host handle and host error ABI, their helpers and the release
/// helpers of the host resources.
pub fn write_host_handle_abi(module: &mut String)
    ensures
        final(module)@ == old(module)@ + host_handle_abi_text(),
{
    let ghost start = module@;
    module.append(HOST_ABI_COMMENTS);
    write_host_error_helpers(module);
    write_host_handle_helpers(module);
    let ghost head = module@;
    let resources = [
        (abi::TCP_SOCKET_RELEASE_HELPER, "socket"),
        (abi::TLS_STREAM_RELEASE_HELPER, "stream"),
        (abi::HTTP_CLIENT_RELEASE_HELPER, "client"),
        (abi::HTTP_SERVER_RELEASE_HELPER, "server"),
        (abi::DB_CONNECTION_RELEASE_HELPER, "connection"),
        (abi::ASYNC_TASK_RELEASE_HELPER, "task"),
        (abi::TIMER_RELEASE_HELPER, "timer"),
    ];
    assert(resources@ =~= released_resources());
    let mut i: usize = 0;
    while i < resources.len()
        invariant
            i <= resources@.len(),
            module@ == head + release_helpers_text(resources@.take(i as int)),
        decreases resources@.len() - i,
    {
        let (helper, parameter) = resources[i];
        write_release_helper(module, helper, parameter);
        assert(resources@.take(i + 1).drop_last() =~= resources@.take(i as int));
        i += 1;
    }
    assert(resources@.take(resources@.len() as int) =~= resources@);
    assert(module@ =~= start + host_handle_abi_text());
}

/// The text that `write_host_error_helpers` appends.
pub open spec fn host_error_helpers_text() -> Seq<char> {
    HOST_ERROR_HELPERS@
}

/// Appends the host error constructors and accessors.
pub fn write_host_error_helpers(module: &mut String)
    ensures
        final(module)@ == old(module)@ + host_error_helpers_text(),
{
    module.append(HOST_ERROR_HELPERS);
}

/// The text that `write_host_handle_helpers` appends.
pub open spec fn host_handle_helpers_text() -> Seq<char> {
    HOST_HANDLE_HELPERS@
}

/// Appends the host handle constructor and kind accessor.
pub fn write_host_handle_helpers(module: &mut String)
    ensures
        final(module)@ == old(module)@ + host_handle_helpers_text(),
{
    module.append(HOST_HANDLE_HELPERS);
}

/// The text of the helper that frees a host resource passed as `parameter`.
pub open spec fn release_helper_text(helper: Seq<char>, parameter: Seq<char>) -> Seq<char> {
    "define private void @"@ + helper + "(ptr %"@ + parameter + ") {\nentry:\n  call void @free(ptr %"@
        + parameter + ")\n  ret void\n}\n\n"@
}

/// Appends the helper `helper` that frees the host resource `parameter`.
pub fn write_release_helper(module: &mut String, helper: &str, parameter: &str)
    ensures
        final(module)@ == old(module)@ + release_helper_text(helper@, parameter@),
{
    module.append("define private void @");
    module.append(helper);
    module.append("(ptr %");
    module.append(parameter);
    module.append(") {\nentry:\n  call void @free(ptr %");
    module.append(parameter);
    module.append(")\n  ret void\n}\n\n");
}

} // verus!
