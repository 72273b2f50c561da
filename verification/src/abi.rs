//! The native ABI of LLVM AOT v0: how AX types are represented in LLVM and
//! the names and layouts of the runtime helpers.
use vstd::prelude::*;
use crate::mir::Type;

verus! {

pub const BOOL_LLVM_TYPE: &'static str = "i1";
pub const I32_LLVM_TYPE: &'static str = "i32";
pub const F32_LLVM_TYPE: &'static str = "float";
pub const STRING_LLVM_TYPE: &'static str = "ptr";
pub const BYTES_LLVM_TYPE: &'static str = "ptr";
pub const STRING_LIST_LLVM_TYPE: &'static str = "ptr";
pub const SLICE_LLVM_TYPE: &'static str = "{ ptr, i32 }";

pub const RUNTIME_ERROR_HELPER: &'static str = "ax_runtime_error";
pub const PROCESS_LIFETIME_ALLOCATION: &'static str = "process_lifetime_malloc_v0";
pub const BYTES_ABI_NAME: &'static str = "ax.bytes.opaque_buffer_v0";
pub const BYTES_HEADER_BYTES: i64 = 8;
pub const BYTES_LENGTH_OFFSET: i64 = 0;
pub const BYTES_CAPACITY_OFFSET: i64 = 4;
pub const BYTES_DATA_OFFSET: i64 = 8;
pub const BYTES_INITIAL_CAPACITY: i32 = 8;
pub const STRING_LIST_ABI_NAME: &'static str = "ax.string.list_handle_v0";
pub const STRING_LIST_HEADER_BYTES: i64 = 16;
pub const STRING_LIST_INITIAL_CAPACITY: i32 = 4;
pub const STRING_LIST_DATA_BYTES: i64 = 32;
pub const STRING_LIST_LEN_OFFSET: i64 = 0;
pub const STRING_LIST_CAPACITY_OFFSET: i64 = 4;
pub const STRING_LIST_DATA_OFFSET: i64 = 8;
pub const STRING_LIST_RELEASE_HELPER: &'static str = "ax_string_list_release";
pub const HOST_HANDLE_ABI_NAME: &'static str = "ax.host.handle_v0";
pub const HOST_HANDLE_LLVM_TYPE: &'static str = "ptr";
pub const HOST_HANDLE_HEADER_BYTES: i64 = 16;
pub const HOST_HANDLE_KIND_OFFSET: i64 = 0;
pub const HOST_HANDLE_NATIVE_OFFSET: i64 = 8;
pub const HOST_ERROR_ABI_NAME: &'static str = "ax.host.error_v0";
pub const HOST_ERROR_LLVM_TYPE: &'static str = "{ i32, ptr }";
pub const HOST_ERROR_OK_CODE: i32 = 0;
pub const HOST_ERROR_DEFAULT_MESSAGE: &'static str = "@.ax_host_error_default_message";
pub const TCP_SOCKET_RELEASE_HELPER: &'static str = "ax_tcp_socket_release";
pub const TLS_STREAM_RELEASE_HELPER: &'static str = "ax_tls_stream_release";
pub const HTTP_CLIENT_RELEASE_HELPER: &'static str = "ax_http_client_release";
pub const HTTP_SERVER_RELEASE_HELPER: &'static str = "ax_http_server_release";
pub const DB_CONNECTION_RELEASE_HELPER: &'static str = "ax_db_connection_release";
pub const ASYNC_TASK_RELEASE_HELPER: &'static str = "ax_async_task_release";
pub const TIMER_RELEASE_HELPER: &'static str = "ax_timer_release";

/// How a value of some AX type is passed across the native ABI.
#[derive(Debug, Clone, Copy, PartialEq, Eq, Structural)]
pub enum NativeAbiKind {
    Scalar,
    Pointer,
    Slice,
    Aggregate,
    Generic,
}

/// The LLVM type of a primitive AX type.
pub open spec fn primitive_llvm_type_of(ty: Type) -> Option<Seq<char>> {
    match ty {
        Type::Bool => Some("i1"@),
        Type::I32 => Some("i32"@),
        Type::F32 => Some("float"@),
        Type::String | Type::Bytes | Type::StringList => Some("ptr"@),
        _ => None,
    }
}

/// The LLVM type of a primitive AX type, `None` for composite and generic types.
pub fn primitive_llvm_type(ty: &Type) -> (r: Option<&'static str>)
    ensures
        match r {
            Some(s) => primitive_llvm_type_of(*ty) == Some(s@),
            None => primitive_llvm_type_of(*ty) is None,
        },
{
    match ty {
        Type::Bool => Some(BOOL_LLVM_TYPE),
        Type::I32 => Some(I32_LLVM_TYPE),
        Type::F32 => Some(F32_LLVM_TYPE),
        Type::String => Some(STRING_LLVM_TYPE),
        Type::Bytes => Some(BYTES_LLVM_TYPE),
        Type::StringList => Some(STRING_LIST_LLVM_TYPE),
        _ => None,
    }
}

/// The LLVM type of every slice: a data pointer and an `i32` length.
pub fn slice_llvm_type() -> (r: &'static str)
    ensures
        r@ == "{ ptr, i32 }"@,
{
    SLICE_LLVM_TYPE
}

/// The name of the byte-buffer ABI.
pub fn bytes_abi_name() -> (r: &'static str)
    ensures
        r@ == "ax.bytes.opaque_buffer_v0"@,
{
    BYTES_ABI_NAME
}

/// The ABI class of each AX type.
pub open spec fn native_abi_kind_of(ty: Type) -> NativeAbiKind {
    match ty {
        Type::Bool | Type::I32 | Type::F32 => NativeAbiKind::Scalar,
        Type::String | Type::Bytes | Type::StringList => NativeAbiKind::Pointer,
        Type::Slice { .. } => NativeAbiKind::Slice,
        Type::Array { .. } | Type::Struct { .. } | Type::StructInstance { .. } | Type::Enum { .. }
        | Type::EnumInstance { .. } => NativeAbiKind::Aggregate,
        Type::TypeParam { .. } => NativeAbiKind::Generic,
    }
}

/// Classifies how a value of `ty` crosses the native ABI.
pub fn native_abi_kind(ty: &Type) -> (r: NativeAbiKind)
    ensures
        r == native_abi_kind_of(*ty),
{
    match ty {
        Type::Bool | Type::I32 | Type::F32 => NativeAbiKind::Scalar,
        Type::String | Type::Bytes | Type::StringList => NativeAbiKind::Pointer,
        Type::Slice { .. } => NativeAbiKind::Slice,
        Type::Array { .. } | Type::Struct { .. } | Type::StructInstance { .. } => {
            NativeAbiKind::Aggregate
        },
        Type::Enum { .. } | Type::EnumInstance { .. } => NativeAbiKind::Aggregate,
        Type::TypeParam { .. } => NativeAbiKind::Generic,
    }
}

/// The memory policy of the native runtime: allocations live as long as the process.
pub fn native_memory_policy() -> (r: &'static str)
    ensures
        r@ == "process_lifetime_malloc_v0"@,
{
    PROCESS_LIFETIME_ALLOCATION
}

/// Exactly the primitive types have a primitive LLVM type, and those are the
/// scalar and pointer classes of the ABI.
pub proof fn primitive_types_are_scalar_or_pointer(ty: Type)
    ensures
        primitive_llvm_type_of(ty) is Some <==> (native_abi_kind_of(ty) == NativeAbiKind::Scalar
            || native_abi_kind_of(ty) == NativeAbiKind::Pointer),
        native_abi_kind_of(ty) == NativeAbiKind::Pointer ==> primitive_llvm_type_of(ty) == Some(
            "ptr"@,
        ),
{
}

} // verus!
