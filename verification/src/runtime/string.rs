//! The string runtime helpers.
use vstd::prelude::*;

verus! {

/// `ax_string_len`, which counts the code points of a NUL-terminated UTF-8 string.
pub const STRING_LEN_HELPER: &'static str = r#"define private i32 @ax_string_len(ptr %text) {
entry:
  br label %loop

loop:
  %index = phi i32 [0, %entry], [%next_index, %body]
  %count = phi i32 [0, %entry], [%next_count, %body]
  %char_ptr = getelementptr i8, ptr %text, i32 %index
  %byte = load i8, ptr %char_ptr
  %is_end = icmp eq i8 %byte, 0
  br i1 %is_end, label %done, label %body

body:
  %prefix = and i8 %byte, -64
  %is_continuation = icmp eq i8 %prefix, -128
  %starts_codepoint = xor i1 %is_continuation, true
  %delta = zext i1 %starts_codepoint to i32
  %next_count = add i32 %count, %delta
  %next_index = add i32 %index, 1
  br label %loop

done:
  ret i32 %count
}

"#;

/// `ax_is_ascii_trim_space`, the ASCII whitespace test used by trimming.
pub const ASCII_TRIM_SPACE_HELPER: &'static str = r#"define private i1 @ax_is_ascii_trim_space(i8 %byte) {
entry:
  %is_space = icmp eq i8 %byte, 32
  %is_tab = icmp eq i8 %byte, 9
  %is_lf = icmp eq i8 %byte, 10
  %is_vt = icmp eq i8 %byte, 11
  %is_ff = icmp eq i8 %byte, 12
  %is_cr = icmp eq i8 %byte, 13
  %space_or_tab = or i1 %is_space, %is_tab
  %lf_or_vt = or i1 %is_lf, %is_vt
  %ff_or_cr = or i1 %is_ff, %is_cr
  %left = or i1 %space_or_tab, %lf_or_vt
  %result = or i1 %left, %ff_or_cr
  ret i1 %result
}

"#;

/// `ax_string_concat`.
pub const STRING_CONCAT_HELPER: &'static str = r#"define private ptr @ax_string_concat(ptr %left, ptr %right) {
entry:
  %left_len = call i64 @strlen(ptr %left)
  %right_len = call i64 @strlen(ptr %right)
  %combined_len = add i64 %left_len, %right_len
  %total_len = add i64 %combined_len, 1
  %buffer = call ptr @malloc(i64 %total_len)
  %copy_left = call ptr @memcpy(ptr %buffer, ptr %left, i64 %left_len)
  %right_dest = getelementptr i8, ptr %buffer, i64 %left_len
  %copy_right = call ptr @memcpy(ptr %right_dest, ptr %right, i64 %right_len)
  %end = getelementptr i8, ptr %buffer, i64 %combined_len
  store i8 0, ptr %end
  ret ptr %buffer
}

"#;

/// `ax_string_replace` and its empty-pattern case.
pub const STRING_REPLACE_HELPERS: &'static str = r#"define private ptr @ax_string_replace(ptr %text, ptr %from, ptr %to) {
entry:
  %text_len = call i64 @strlen(ptr %text)
  %from_len = call i64 @strlen(ptr %from)
  %to_len = call i64 @strlen(ptr %to)
  %empty_from = icmp eq i64 %from_len, 0
  br i1 %empty_from, label %replace_empty, label %count_loop

replace_empty:
  %empty_result = call ptr @ax_string_replace_empty_from(ptr %text, ptr %to)
  ret ptr %empty_result

count_loop:
  %count_cursor = phi ptr [%text, %entry], [%count_next_cursor, %count_step]
  %match_count = phi i64 [0, %entry], [%next_match_count, %count_step]
  %count_match = call ptr @strstr(ptr %count_cursor, ptr %from)
  %count_done = icmp eq ptr %count_match, null
  br i1 %count_done, label %allocate, label %count_step

count_step:
  %next_match_count = add i64 %match_count, 1
  %count_next_cursor = getelementptr i8, ptr %count_match, i64 %from_len
  br label %count_loop

allocate:
  %delta = sub i64 %to_len, %from_len
  %delta_total = mul i64 %match_count, %delta
  %new_len = add i64 %text_len, %delta_total
  %alloc_len = add i64 %new_len, 1
  %buffer = call ptr @malloc(i64 %alloc_len)
  br label %copy_loop

copy_loop:
  %copy_cursor = phi ptr [%text, %allocate], [%copy_next_cursor, %copy_step]
  %dest_cursor = phi ptr [%buffer, %allocate], [%dest_next, %copy_step]
  %copy_match = call ptr @strstr(ptr %copy_cursor, ptr %from)
  %copy_done = icmp eq ptr %copy_match, null
  br i1 %copy_done, label %copy_tail, label %copy_step

copy_step:
  %match_int = ptrtoint ptr %copy_match to i64
  %cursor_int = ptrtoint ptr %copy_cursor to i64
  %prefix_len = sub i64 %match_int, %cursor_int
  %copy_prefix = call ptr @memcpy(ptr %dest_cursor, ptr %copy_cursor, i64 %prefix_len)
  %dest_after_prefix = getelementptr i8, ptr %dest_cursor, i64 %prefix_len
  %copy_replacement = call ptr @memcpy(ptr %dest_after_prefix, ptr %to, i64 %to_len)
  %dest_next = getelementptr i8, ptr %dest_after_prefix, i64 %to_len
  %copy_next_cursor = getelementptr i8, ptr %copy_match, i64 %from_len
  br label %copy_loop

copy_tail:
  %tail_len = call i64 @strlen(ptr %copy_cursor)
  %copy_rest = call ptr @memcpy(ptr %dest_cursor, ptr %copy_cursor, i64 %tail_len)
  %nul = getelementptr i8, ptr %dest_cursor, i64 %tail_len
  store i8 0, ptr %nul
  ret ptr %buffer
}

define private ptr @ax_string_replace_empty_from(ptr %text, ptr %to) {
entry:
  %text_len = call i64 @strlen(ptr %text)
  %to_len = call i64 @strlen(ptr %to)
  %codepoints_i32 = call i32 @ax_string_len(ptr %text)
  %codepoints = zext i32 %codepoints_i32 to i64
  %insertions = add i64 %codepoints, 1
  %insert_bytes = mul i64 %insertions, %to_len
  %new_len = add i64 %text_len, %insert_bytes
  %alloc_len = add i64 %new_len, 1
  %buffer = call ptr @malloc(i64 %alloc_len)
  %copy_initial = call ptr @memcpy(ptr %buffer, ptr %to, i64 %to_len)
  %initial_dest = getelementptr i8, ptr %buffer, i64 %to_len
  %empty_text = icmp eq i64 %text_len, 0
  br i1 %empty_text, label %finish_empty, label %loop

finish_empty:
  store i8 0, ptr %initial_dest
  ret ptr %buffer

loop:
  %index = phi i64 [0, %entry], [%next_index, %continue]
  %dest_cursor = phi ptr [%initial_dest, %entry], [%next_dest, %continue]
  %src_ptr = getelementptr i8, ptr %text, i64 %index
  %byte = load i8, ptr %src_ptr
  store i8 %byte, ptr %dest_cursor
  %dest_after_byte = getelementptr i8, ptr %dest_cursor, i64 1
  %next_index = add i64 %index, 1
  %at_end = icmp eq i64 %next_index, %text_len
  br i1 %at_end, label %insert_after_char, label %check_next_byte

check_next_byte:
  %next_src = getelementptr i8, ptr %text, i64 %next_index
  %next_byte = load i8, ptr %next_src
  %prefix = and i8 %next_byte, -64
  %is_continuation = icmp eq i8 %prefix, -128
  br i1 %is_continuation, label %continue_no_insert, label %insert_after_char

insert_after_char:
  %copy_insert = call ptr @memcpy(ptr %dest_after_byte, ptr %to, i64 %to_len)
  %dest_after_insert = getelementptr i8, ptr %dest_after_byte, i64 %to_len
  br label %continue

continue_no_insert:
  br label %continue

continue:
  %next_dest = phi ptr [%dest_after_insert, %insert_after_char], [%dest_after_byte, %continue_no_insert]
  %done = icmp eq i64 %next_index, %text_len
  br i1 %done, label %finish, label %loop

finish:
  store i8 0, ptr %next_dest
  ret ptr %buffer
}

"#;

/// `ax_string_copy_range` and `ax_string_split_lines`.
pub const STRING_SPLIT_LINES_HELPERS: &'static str = r#"define private ptr @ax_string_copy_range(ptr %text, i64 %start, i64 %end) {
entry:
  %len = sub i64 %end, %start
  %alloc_len = add i64 %len, 1
  %buffer = call ptr @malloc(i64 %alloc_len)
  %src = getelementptr i8, ptr %text, i64 %start
  %copy = call ptr @memcpy(ptr %buffer, ptr %src, i64 %len)
  %nul = getelementptr i8, ptr %buffer, i64 %len
  store i8 0, ptr %nul
  ret ptr %buffer
}

define private { ptr, i32 } @ax_string_split_lines(ptr %text) {
entry:
  %text_len = call i64 @strlen(ptr %text)
  %is_empty = icmp eq i64 %text_len, 0
  br i1 %is_empty, label %empty, label %count_loop

empty:
  %empty_array = call ptr @malloc(i64 0)
  %empty_with_ptr = insertvalue { ptr, i32 } undef, ptr %empty_array, 0
  %empty_slice = insertvalue { ptr, i32 } %empty_with_ptr, i32 0, 1
  ret { ptr, i32 } %empty_slice

count_loop:
  %count_index = phi i64 [0, %entry], [%next_count_index, %count_loop]
  %newline_count = phi i64 [0, %entry], [%next_newline_count, %count_loop]
  %count_ptr = getelementptr i8, ptr %text, i64 %count_index
  %count_byte = load i8, ptr %count_ptr
  %count_is_lf = icmp eq i8 %count_byte, 10
  %count_delta = zext i1 %count_is_lf to i64
  %next_newline_count = add i64 %newline_count, %count_delta
  %next_count_index = add i64 %count_index, 1
  %count_done = icmp eq i64 %next_count_index, %text_len
  br i1 %count_done, label %count_done_block, label %count_loop

count_done_block:
  %last_index = sub i64 %text_len, 1
  %last_ptr = getelementptr i8, ptr %text, i64 %last_index
  %last_byte = load i8, ptr %last_ptr
  %ends_lf = icmp eq i8 %last_byte, 10
  %has_tail = xor i1 %ends_lf, true
  %tail_delta = zext i1 %has_tail to i64
  %line_count = add i64 %next_newline_count, %tail_delta
  %array_bytes = mul i64 %line_count, 8
  %array = call ptr @malloc(i64 %array_bytes)
  br label %fill_loop

fill_loop:
  %index = phi i64 [0, %count_done_block], [%advanced_index, %advance_non_lf], [%after_lf_index, %copy_line]
  %line_start = phi i64 [0, %count_done_block], [%same_line_start, %advance_non_lf], [%after_lf_index, %copy_line]
  %slot = phi i64 [0, %count_done_block], [%same_slot, %advance_non_lf], [%next_slot, %copy_line]
  %fill_done = icmp uge i64 %index, %text_len
  br i1 %fill_done, label %tail_or_finish, label %check_byte

check_byte:
  %byte_ptr = getelementptr i8, ptr %text, i64 %index
  %byte = load i8, ptr %byte_ptr
  %is_lf = icmp eq i8 %byte, 10
  br i1 %is_lf, label %emit_line, label %advance_non_lf

advance_non_lf:
  %advanced_index = add i64 %index, 1
  %same_line_start = add i64 %line_start, 0
  %same_slot = add i64 %slot, 0
  br label %fill_loop

emit_line:
  %has_content = icmp ugt i64 %index, %line_start
  br i1 %has_content, label %check_cr, label %copy_line

check_cr:
  %before_lf_index = sub i64 %index, 1
  %before_lf_ptr = getelementptr i8, ptr %text, i64 %before_lf_index
  %before_lf = load i8, ptr %before_lf_ptr
  %has_cr = icmp eq i8 %before_lf, 13
  %cr_adjusted_end = select i1 %has_cr, i64 %before_lf_index, i64 %index
  br label %copy_line

copy_line:
  %line_end = phi i64 [%index, %emit_line], [%cr_adjusted_end, %check_cr]
  %line = call ptr @ax_string_copy_range(ptr %text, i64 %line_start, i64 %line_end)
  %slot_ptr = getelementptr ptr, ptr %array, i64 %slot
  store ptr %line, ptr %slot_ptr
  %next_slot = add i64 %slot, 1
  %after_lf_index = add i64 %index, 1
  br label %fill_loop

tail_or_finish:
  %emit_tail = icmp ult i64 %line_start, %text_len
  br i1 %emit_tail, label %copy_tail, label %finish

copy_tail:
  %tail_line = call ptr @ax_string_copy_range(ptr %text, i64 %line_start, i64 %text_len)
  %tail_slot_ptr = getelementptr ptr, ptr %array, i64 %slot
  store ptr %tail_line, ptr %tail_slot_ptr
  br label %finish

finish:
  %line_count_i32 = trunc i64 %line_count to i32
  %with_ptr = insertvalue { ptr, i32 } undef, ptr %array, 0
  %slice = insertvalue { ptr, i32 } %with_ptr, i32 %line_count_i32, 1
  ret { ptr, i32 } %slice
}

"#;

/// `ax_string_trim` and the `i32` and `f32` formatters.
pub const STRING_TRIM_AND_FORMAT_HELPERS: &'static str = r#"define private ptr @ax_string_trim(ptr %text) {
entry:
  %len = call i64 @strlen(ptr %text)
  br label %lead_loop

lead_loop:
  %start = phi i64 [0, %entry], [%next_start, %lead_step]
  %lead_done_len = icmp uge i64 %start, %len
  br i1 %lead_done_len, label %tail_init, label %lead_check

lead_check:
  %lead_ptr = getelementptr i8, ptr %text, i64 %start
  %lead_byte = load i8, ptr %lead_ptr
  %lead_space = call i1 @ax_is_ascii_trim_space(i8 %lead_byte)
  br i1 %lead_space, label %lead_step, label %tail_init

lead_step:
  %next_start = add i64 %start, 1
  br label %lead_loop

tail_init:
  br label %tail_loop

tail_loop:
  %end = phi i64 [%len, %tail_init], [%next_end, %tail_step]
  %tail_done = icmp ule i64 %end, %start
  br i1 %tail_done, label %copy, label %tail_check

tail_check:
  %tail_index = sub i64 %end, 1
  %tail_ptr = getelementptr i8, ptr %text, i64 %tail_index
  %tail_byte = load i8, ptr %tail_ptr
  %tail_space = call i1 @ax_is_ascii_trim_space(i8 %tail_byte)
  br i1 %tail_space, label %tail_step, label %copy

tail_step:
  %next_end = sub i64 %end, 1
  br label %tail_loop

copy:
  %trim_len = sub i64 %end, %start
  %alloc_len = add i64 %trim_len, 1
  %buffer = call ptr @malloc(i64 %alloc_len)
  %src = getelementptr i8, ptr %text, i64 %start
  %copy_trimmed = call ptr @memcpy(ptr %buffer, ptr %src, i64 %trim_len)
  %nul = getelementptr i8, ptr %buffer, i64 %trim_len
  store i8 0, ptr %nul
  ret ptr %buffer
}

define private ptr @ax_i32_to_string(i32 %value) {
entry:
  %buffer = call ptr @malloc(i64 12)
  %written = call i32 (ptr, i64, ptr, ...) @snprintf(ptr %buffer, i64 12, ptr @.ax_fmt_i32, i32 %value)
  ret ptr %buffer
}

define private ptr @ax_f32_to_string(float %value) {
entry:
  %buffer = call ptr @malloc(i64 40)
  %wide = fpext float %value to double
  %written = call i32 (ptr, i64, ptr, ...) @snprintf(ptr %buffer, i64 40, ptr @.ax_fmt_f32, double %wide)
  br label %scan

scan:
  %index = phi i32 [0, %entry], [%next_index, %scan_continue]
  %scan_done = icmp sge i32 %index, %written
  br i1 %scan_done, label %append_decimal, label %scan_byte

scan_byte:
  %byte_ptr = getelementptr i8, ptr %buffer, i32 %index
  %byte = load i8, ptr %byte_ptr
  %is_dot = icmp eq i8 %byte, 46
  %is_lower_exp = icmp eq i8 %byte, 101
  %is_upper_exp = icmp eq i8 %byte, 69
  %has_exp = or i1 %is_lower_exp, %is_upper_exp
  %has_marker = or i1 %is_dot, %has_exp
  br i1 %has_marker, label %done, label %scan_continue

scan_continue:
  %next_index = add i32 %index, 1
  br label %scan

append_decimal:
  %dot_ptr = getelementptr i8, ptr %buffer, i32 %written
  store i8 46, ptr %dot_ptr
  %zero_index = add i32 %written, 1
  %zero_ptr = getelementptr i8, ptr %buffer, i32 %zero_index
  store i8 48, ptr %zero_ptr
  %nul_index = add i32 %written, 2
  %nul_ptr = getelementptr i8, ptr %buffer, i32 %nul_index
  store i8 0, ptr %nul_ptr
  br label %done

done:
  ret ptr %buffer
}

"#;

/// The text that `write_string_helpers` appends: the string runtime: length,
/// trimming, concatenation, replacement, line splitting and number formatting.
pub open spec fn string_helpers_text() -> Seq<char> {
    string_len_helper_text() + ascii_trim_space_helper_text() + string_runtime_helpers_text()
}

/// Appends the string runtime.
pub fn write_string_helpers(module: &mut String)
    ensures
        final(module)@ == old(module)@ + string_helpers_text(),
{
    let ghost start = module@;
    write_string_len_helper(module);
    write_ascii_trim_space_helper(module);
    write_string_runtime_helpers(module);
    assert(module@ =~= start + string_helpers_text());
}

/// The text that `write_string_len_helper` appends: the code point count of a NUL-terminated UTF-8 string.
pub open spec fn string_len_helper_text() -> Seq<char> {
    STRING_LEN_HELPER@
}

/// Appends the code point count of a NUL-terminated UTF-8 string.
pub fn write_string_len_helper(module: &mut String)
    ensures
        final(module)@ == old(module)@ + string_len_helper_text(),
{
    module.append(STRING_LEN_HELPER);
}

/// The text that `write_string_runtime_helpers` appends: the concatenation,
/// replacement, line splitting, trimming and number formatting helpers.
pub open spec fn string_runtime_helpers_text() -> Seq<char> {
    STRING_CONCAT_HELPER@ + string_replace_helpers_text() + string_split_lines_helpers_text()
        + STRING_TRIM_AND_FORMAT_HELPERS@
}

/// Appends the concatenation, replacement, line splitting, trimming and
/// number formatting helpers.
pub fn write_string_runtime_helpers(module: &mut String)
    ensures
        final(module)@ == old(module)@ + string_runtime_helpers_text(),
{
    let ghost start = module@;
    module.append(STRING_CONCAT_HELPER);
    write_string_replace_helpers(module);
    write_string_split_lines_helpers(module);
    module.append(STRING_TRIM_AND_FORMAT_HELPERS);
    assert(module@ =~= start + string_runtime_helpers_text());
}

/// The text that `write_string_replace_helpers` appends: the `string_replace` helpers.
pub open spec fn string_replace_helpers_text() -> Seq<char> {
    STRING_REPLACE_HELPERS@
}

/// Appends the `string_replace` helpers.
pub fn write_string_replace_helpers(module: &mut String)
    ensures
        final(module)@ == old(module)@ + string_replace_helpers_text(),
{
    module.append(STRING_REPLACE_HELPERS);
}

/// The text that `write_string_split_lines_helpers` appends: the `string_split_lines` helpers.
pub open spec fn string_split_lines_helpers_text() -> Seq<char> {
    STRING_SPLIT_LINES_HELPERS@
}

/// Appends the `string_split_lines` helpers.
pub fn write_string_split_lines_helpers(module: &mut String)
    ensures
        final(module)@ == old(module)@ + string_split_lines_helpers_text(),
{
    module.append(STRING_SPLIT_LINES_HELPERS);
}

/// The text that `write_ascii_trim_space_helper` appends: the ASCII whitespace test used by trimming.
pub open spec fn ascii_trim_space_helper_text() -> Seq<char> {
    ASCII_TRIM_SPACE_HELPER@
}

/// Appends the ASCII whitespace test used by trimming.
pub fn write_ascii_trim_space_helper(module: &mut String)
    ensures
        final(module)@ == old(module)@ + ascii_trim_space_helper_text(),
{
    module.append(ASCII_TRIM_SPACE_HELPER);
}

} // verus!
