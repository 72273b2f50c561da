//! Small text utilities used to assemble LLVM IR: decimal and hexadecimal
//! rendering, identifier sanitising, C-string encoding and byte-wise string
//! comparison.
use vstd::prelude::*;
use vstd::string::StringSliceAdditionalSpecFns;

verus! {

/// Appends one character to `s` (std's `String::push`).
#[verifier::external_body]
pub fn push_char(s: &mut String, c: char)
    ensures
        final(s)@ == old(s)@.push(c),
{
    s.push(c);
}

/// The characters of `s`, in order.
pub fn chars_of(s: &str) -> (r: Vec<char>)
    ensures
        r@ == s@,
{
    let mut out: Vec<char> = Vec::new();
    for c in it: s.chars()
        invariant
            it.seq() == s@,
            out@ == s@.take(it.index() as int),
    {
        out.push(c);
        assert(s@.take(it.index() + 1) =~= s@.take(it.index() as int).push(c));
    }
    assert(s@.take(s@.len() as int) =~= s@);
    out
}

/// The decimal digit character for `d` (assumed `d < 10`).
pub open spec fn digit_char(d: nat) -> char {
    if d == 0 { '0' }
    else if d == 1 { '1' }
    else if d == 2 { '2' }
    else if d == 3 { '3' }
    else if d == 4 { '4' }
    else if d == 5 { '5' }
    else if d == 6 { '6' }
    else if d == 7 { '7' }
    else if d == 8 { '8' }
    else { '9' }
}

/// The shortest decimal rendering of a natural number.
pub open spec fn decimal(n: nat) -> Seq<char>
    decreases n,
{
    if n < 10 {
        seq![digit_char(n)]
    } else {
        decimal(n / 10).push(digit_char(n % 10))
    }
}

/// Different numbers have different decimal renderings.
pub proof fn lemma_decimal_injective(a: nat, b: nat)
    requires
        decimal(a) == decimal(b),
    ensures
        a == b,
    decreases a,
{
    if a < 10 && b < 10 {
        assert(decimal(a) == seq![digit_char(a)]);
        assert(decimal(b) == seq![digit_char(b)]);
        let ca = seq![digit_char(a)];
        let cb = seq![digit_char(b)];
        assert(ca[0] == digit_char(a));
        assert(cb[0] == digit_char(b));
        assert(ca[0] == cb[0]);
    } else if a >= 10 && b >= 10 {
        let da = decimal(a);
        assert(da.last() == decimal(b).last());
        assert(digit_char(a % 10) == digit_char(b % 10));
        assert(a % 10 == b % 10);
        assert(da.drop_last() =~= decimal((a / 10) as nat));
        assert(decimal(b).drop_last() =~= decimal((b / 10) as nat));
        lemma_decimal_injective((a / 10) as nat, (b / 10) as nat);
        assert(a == 10 * (a / 10) + a % 10);
        assert(b == 10 * (b / 10) + b % 10);
    } else if a < 10 {
        lemma_decimal_long((b / 10) as nat);
        assert(decimal(b).len() >= 2);
    } else {
        lemma_decimal_long((a / 10) as nat);
        assert(decimal(a).len() >= 2);
    }
}

/// A rendering has at least one digit.
pub proof fn lemma_decimal_long(n: nat)
    ensures
        decimal(n).len() >= 1,
    decreases n,
{
    if n >= 10 {
        lemma_decimal_long((n / 10) as nat);
    }
}

/// The decimal rendering of an integer, with a leading `-` when negative.
pub open spec fn signed_decimal(v: int) -> Seq<char> {
    if v < 0 {
        seq!['-'] + decimal((-v) as nat)
    } else {
        decimal(v as nat)
    }
}

fn digit_to_char(d: u64) -> (c: char)
    requires
        d < 10,
    ensures
        c == digit_char(d as nat),
{
    if d == 0 { '0' }
    else if d == 1 { '1' }
    else if d == 2 { '2' }
    else if d == 3 { '3' }
    else if d == 4 { '4' }
    else if d == 5 { '5' }
    else if d == 6 { '6' }
    else if d == 7 { '7' }
    else if d == 8 { '8' }
    else { '9' }
}

/// Appends the decimal rendering of `n` to `out`.
pub fn push_decimal_u64(out: &mut String, n: u64)
    ensures
        final(out)@ == old(out)@ + decimal(n as nat),
    decreases n,
{
    if n < 10 {
        push_char(out, digit_to_char(n));
        assert(decimal(n as nat) =~= seq![digit_char(n as nat)]);
    } else {
        push_decimal_u64(out, n / 10);
        push_char(out, digit_to_char(n % 10));
        assert(decimal(n as nat) == decimal((n / 10) as nat).push(digit_char((n % 10) as nat)));
    }
}

/// Appends the decimal rendering of a `u128`.
pub fn push_decimal_u128(out: &mut String, n: u128)
    ensures
        final(out)@ == old(out)@ + decimal(n as nat),
    decreases n,
{
    if n < 10 {
        push_char(out, digit_to_char(n as u64));
        assert(decimal(n as nat) =~= seq![digit_char(n as nat)]);
    } else {
        push_decimal_u128(out, n / 10);
        push_char(out, digit_to_char((n % 10) as u64));
        assert(decimal(n as nat) == decimal((n / 10) as nat).push(digit_char((n % 10) as nat)));
    }
}

/// Appends the decimal rendering of `n + 1`: the size of a buffer of `n`
/// bytes and its terminator.
pub fn push_decimal_successor(out: &mut String, n: usize)
    ensures
        final(out)@ == old(out)@ + decimal((n + 1) as nat),
{
    push_decimal_u128(out, (n as u128) + 1);
}

/// Appends the decimal rendering of `v` (with a `-` sign when negative).
pub fn push_decimal_i64(out: &mut String, v: i64)
    ensures
        final(out)@ == old(out)@ + signed_decimal(v as int),
{
    if v < 0 {
        push_char(out, '-');
        let magnitude: u64 = if v == i64::MIN {
            9223372036854775808u64
        } else {
            (-v) as u64
        };
        push_decimal_u64(out, magnitude);
        assert(out@ =~= old(out)@ + (seq!['-'] + decimal((-(v as int)) as nat)));
    } else {
        push_decimal_u64(out, v as u64);
    }
}

/// Appends the decimal rendering of a `usize`.
pub fn push_decimal_usize(out: &mut String, n: usize)
    ensures
        final(out)@ == old(out)@ + decimal(n as nat),
{
    push_decimal_u64(out, n as u64);
}

/// The decimal rendering of an `i64` as a fresh string.
pub fn i64_to_decimal(v: i64) -> (r: String)
    ensures
        r@ == signed_decimal(v as int),
{
    let mut out = String::new();
    push_decimal_i64(&mut out, v);
    assert(out@ =~= signed_decimal(v as int));
    out
}

/// The decimal rendering of a `u32` as a fresh string.
pub fn u32_to_decimal(n: u32) -> (r: String)
    ensures
        r@ == decimal(n as nat),
{
    let mut out = String::new();
    push_decimal_u64(&mut out, n as u64);
    assert(out@ =~= decimal(n as nat));
    out
}

/// The decimal rendering of a `usize` as a fresh string.
pub fn usize_to_decimal(n: usize) -> (r: String)
    ensures
        r@ == decimal(n as nat),
{
    let mut out = String::new();
    push_decimal_usize(&mut out, n);
    assert(out@ =~= decimal(n as nat));
    out
}

/// ASCII letters, digits and `_`: the characters kept by symbol sanitising.
pub open spec fn is_ident_char(c: char) -> bool {
    ('a' <= c && c <= 'z') || ('A' <= c && c <= 'Z') || ('0' <= c && c <= '9') || c == '_'
}

/// Replaces every character outside `[A-Za-z0-9_]` with `_`.
pub open spec fn sanitize_chars(s: Seq<char>) -> Seq<char> {
    Seq::new(s.len(), |i: int| if is_ident_char(s[i]) { s[i] } else { '_' })
}

pub fn ident_char(c: char) -> (r: bool)
    ensures
        r == is_ident_char(c),
{
    ('a' <= c && c <= 'z') || ('A' <= c && c <= 'Z') || ('0' <= c && c <= '9') || c == '_'
}

/// Appends `value` to `out` with every non-identifier character replaced by `_`.
pub fn push_sanitized(out: &mut String, value: &str)
    ensures
        final(out)@ == old(out)@ + sanitize_chars(value@),
{
    let ghost start = out@;
    for c in it: value.chars()
        invariant
            it.seq() == value@,
            out@ == start + sanitize_chars(value@.take(it.index() as int)),
    {
        if ident_char(c) {
            push_char(out, c);
        } else {
            push_char(out, '_');
        }
        assert(sanitize_chars(value@.take(it.index() + 1)) =~= sanitize_chars(
            value@.take(it.index() as int),
        ).push(if is_ident_char(c) { c } else { '_' }));
    }
    assert(value@.take(value@.len() as int) =~= value@);
}

/// Byte-wise equality of two strings.
pub fn str_eq(a: &str, b: &str) -> (r: bool)
    ensures
        r == (a@ == b@),
{
    let ab = a.as_bytes();
    let bb = b.as_bytes();
    proof {
        vstd::utf8::encode_utf8_decode_utf8(a@);
        vstd::utf8::encode_utf8_decode_utf8(b@);
    }
    if ab.len() != bb.len() {
        return false;
    }
    let mut i: usize = 0;
    while i < ab.len()
        invariant
            ab@.len() == bb@.len(),
            i <= ab@.len(),
            ab@ == a.spec_bytes(),
            bb@ == b.spec_bytes(),
            forall|j: int| 0 <= j < i ==> ab@[j] == bb@[j],
        decreases ab@.len() - i,
    {
        if ab[i] != bb[i] {
            return false;
        }
        i += 1;
    }
    assert(ab@ =~= bb@);
    true
}

/// Byte-wise lexicographic order on UTF-8 encodings (the order of `str`'s `Ord`).
pub open spec fn bytes_less(a: Seq<u8>, b: Seq<u8>) -> bool
    decreases a.len(),
{
    if b.len() == 0 {
        false
    } else if a.len() == 0 {
        true
    } else if a[0] < b[0] {
        true
    } else if a[0] > b[0] {
        false
    } else {
        bytes_less(a.drop_first(), b.drop_first())
    }
}

/// The byte order is irreflexive.
pub proof fn lemma_bytes_less_irreflexive(a: Seq<u8>)
    ensures
        !bytes_less(a, a),
    decreases a.len(),
{
    if a.len() > 0 {
        lemma_bytes_less_irreflexive(a.drop_first());
    }
}

/// The byte order is transitive.
pub proof fn lemma_bytes_less_transitive(a: Seq<u8>, b: Seq<u8>, c: Seq<u8>)
    requires
        bytes_less(a, b),
        bytes_less(b, c),
    ensures
        bytes_less(a, c),
    decreases a.len(),
{
    if a.len() > 0 && b.len() > 0 && c.len() > 0 && a[0] == b[0] && b[0] == c[0] {
        lemma_bytes_less_transitive(a.drop_first(), b.drop_first(), c.drop_first());
    }
}

/// Two different byte strings are ordered one way or the other.
pub proof fn lemma_bytes_less_total(a: Seq<u8>, b: Seq<u8>)
    requires
        a != b,
    ensures
        bytes_less(a, b) || bytes_less(b, a),
    decreases a.len(),
{
    if a.len() > 0 && b.len() > 0 && a[0] == b[0] {
        if a.drop_first() == b.drop_first() {
            assert(a =~= seq![a[0]] + a.drop_first());
            assert(b =~= seq![b[0]] + b.drop_first());
        }
        lemma_bytes_less_total(a.drop_first(), b.drop_first());
    } else if a.len() == 0 && b.len() == 0 {
        assert(a =~= b);
    }
}

/// Whether `a` sorts strictly before `b` (byte-wise, as `str`'s `Ord` does).
pub fn str_less(a: &str, b: &str) -> (r: bool)
    ensures
        r == bytes_less(a.spec_bytes(), b.spec_bytes()),
{
    let ab = a.as_bytes();
    let bb = b.as_bytes();
    let mut i: usize = 0;
    assert(ab@.skip(0) =~= ab@);
    assert(bb@.skip(0) =~= bb@);
    while i < ab.len() && i < bb.len()
        invariant
            i <= ab@.len(),
            i <= bb@.len(),
            ab@ == a.spec_bytes(),
            bb@ == b.spec_bytes(),
            bytes_less(ab@, bb@) == bytes_less(ab@.skip(i as int), bb@.skip(i as int)),
        decreases ab@.len() - i,
    {
        if ab[i] < bb[i] {
            return true;
        }
        if ab[i] > bb[i] {
            return false;
        }
        assert(ab@.skip(i as int).drop_first() =~= ab@.skip(i + 1));
        assert(bb@.skip(i as int).drop_first() =~= bb@.skip(i + 1));
        i += 1;
    }
    i < bb.len()
}

/// Whether `s` begins with `prefix`.
pub fn starts_with(s: &str, prefix: &str) -> (r: bool)
    ensures
        r == (prefix.spec_bytes().len() <= s.spec_bytes().len() && s.spec_bytes().take(
            prefix.spec_bytes().len() as int,
        ) == prefix.spec_bytes()),
{
    let sb = s.as_bytes();
    let pb = prefix.as_bytes();
    if pb.len() > sb.len() {
        return false;
    }
    let mut i: usize = 0;
    while i < pb.len()
        invariant
            pb@.len() <= sb@.len(),
            i <= pb@.len(),
            sb@ == s.spec_bytes(),
            pb@ == prefix.spec_bytes(),
            forall|j: int| 0 <= j < i ==> sb@[j] == pb@[j],
        decreases pb@.len() - i,
    {
        if sb[i] != pb[i] {
            assert(sb@.take(pb@.len() as int)[i as int] != pb@[i as int]);
            return false;
        }
        i += 1;
    }
    assert(sb@.take(pb@.len() as int) =~= pb@);
    true
}

/// The upper-case hexadecimal digit for `d < 16`.
pub open spec fn hex_digit(d: nat) -> char {
    if d < 10 { digit_char(d) }
    else if d == 10 { 'A' }
    else if d == 11 { 'B' }
    else if d == 12 { 'C' }
    else if d == 13 { 'D' }
    else if d == 14 { 'E' }
    else { 'F' }
}

fn hex_digit_char(d: u8) -> (c: char)
    requires
        d < 16,
    ensures
        c == hex_digit(d as nat),
{
    if d < 10 {
        digit_to_char(d as u64)
    } else if d == 10 {
        'A'
    } else if d == 11 {
        'B'
    } else if d == 12 {
        'C'
    } else if d == 13 {
        'D'
    } else if d == 14 {
        'E'
    } else {
        'F'
    }
}

/// How one byte of a string is written inside an LLVM `c"..."` constant.
pub open spec fn c_string_byte(b: u8) -> Seq<char> {
    if b == 92 {
        seq!['\\', '5', 'C']
    } else if b == 34 {
        seq!['\\', '2', '2']
    } else if 32 <= b && b <= 126 {
        seq![b as char]
    } else {
        seq!['\\', hex_digit((b / 16) as nat), hex_digit((b % 16) as nat)]
    }
}

/// The escaped bytes of an LLVM `c"..."` constant, without the terminator.
pub open spec fn c_string_body(bytes: Seq<u8>) -> Seq<char>
    decreases bytes.len(),
{
    if bytes.len() == 0 {
        Seq::empty()
    } else {
        c_string_body(bytes.drop_last()) + c_string_byte(bytes.last())
    }
}

/// The full LLVM encoding of a string: its escaped bytes then `\00`.
pub open spec fn c_string_encoding(bytes: Seq<u8>) -> Seq<char> {
    c_string_body(bytes) + seq!['\\', '0', '0']
}

fn byte_char(b: u8) -> (c: char)
    requires
        32 <= b <= 126,
    ensures
        c == b as char,
{
    b as char
}

/// Encodes `value` for an LLVM `c"..."` constant: printable ASCII stays,
/// `\` and `"` and all other bytes become `\XX`, and `\00` terminates it.
pub fn encode_llvm_c_string(value: &str) -> (r: String)
    ensures
        r@ == c_string_encoding(value.spec_bytes()),
{
    let bytes = value.as_bytes();
    let mut encoded = String::new();
    let mut i: usize = 0;
    while i < bytes.len()
        invariant
            i <= bytes@.len(),
            bytes@ == value.spec_bytes(),
            encoded@ == c_string_body(bytes@.take(i as int)),
        decreases bytes@.len() - i,
    {
        let b = bytes[i];
        let ghost before = encoded@;
        if b == 92 {
            encoded.append("\\5C");
            proof { reveal_strlit("\\5C"); }
        } else if b == 34 {
            encoded.append("\\22");
            proof { reveal_strlit("\\22"); }
        } else if 32 <= b && b <= 126 {
            push_char(&mut encoded, byte_char(b));
        } else {
            push_char(&mut encoded, '\\');
            push_char(&mut encoded, hex_digit_char(b / 16));
            push_char(&mut encoded, hex_digit_char(b % 16));
        }
        assert(bytes@.take(i + 1).drop_last() =~= bytes@.take(i as int));
        assert(encoded@ =~= before + c_string_byte(b));
        i += 1;
    }
    assert(bytes@.take(bytes@.len() as int) =~= bytes@);
    encoded.append("\\00");
    proof { reveal_strlit("\\00"); }
    assert(encoded@ =~= c_string_encoding(value.spec_bytes()));
    encoded
}

/// The concatenation of a list of string slices.
pub open spec fn concat_all(parts: Seq<&str>) -> Seq<char>
    decreases parts.len(),
{
    if parts.len() == 0 {
        Seq::empty()
    } else {
        concat_all(parts.drop_last()) + parts.last()@
    }
}

/// `after` starts with `before`: text was only added at the end.
pub open spec fn appends(before: Seq<char>, after: Seq<char>) -> bool {
    before.len() <= after.len() && forall|i: int| 0 <= i < before.len() ==> #[trigger] after[i] == before[i]
}

/// Appends the concatenation of `parts` and a newline to `out`: one line of
/// generated IR.
pub fn put_line(out: &mut String, parts: &[&str])
    ensures
        final(out)@ == old(out)@ + concat_all(parts@) + seq!['\n'],
{
    let mut i: usize = 0;
    while i < parts.len()
        invariant
            i <= parts.len(),
            out@ == old(out)@ + concat_all(parts@.take(i as int)),
        decreases parts.len() - i,
    {
        let p: &str = parts[i];
        out.append(p);
        proof {
            assert(parts@.take(i as int + 1).drop_last() =~= parts@.take(i as int));
        }
        i = i + 1;
    }
    assert(parts@.take(parts.len() as int) =~= parts@);
    push_char(out, '\n');
}

/// Appends the concatenation of `parts` to `out`, with no newline.
pub fn put(out: &mut String, parts: &[&str])
    ensures
        final(out)@ == old(out)@ + concat_all(parts@),
{
    let mut i: usize = 0;
    while i < parts.len()
        invariant
            i <= parts.len(),
            out@ == old(out)@ + concat_all(parts@.take(i as int)),
        decreases parts.len() - i,
    {
        let p: &str = parts[i];
        out.append(p);
        proof {
            assert(parts@.take(i as int + 1).drop_last() =~= parts@.take(i as int));
        }
        i = i + 1;
    }
    assert(parts@.take(parts.len() as int) =~= parts@);
}

/// The concatenation of `parts` as a fresh string.
pub fn concat(parts: &[&str]) -> (r: String)
    ensures
        r@ == concat_all(parts@),
{
    let mut out = String::new();
    put(&mut out, parts);
    assert(out@ =~= concat_all(parts@));
    out
}

/// The views of a list of strings.
pub open spec fn views(list: Seq<String>) -> Seq<Seq<char>> {
    Seq::new(list.len(), |i: int| list[i]@)
}

/// The elements of `list` separated by `sep`.
pub open spec fn joined(list: Seq<Seq<char>>, sep: Seq<char>) -> Seq<char>
    decreases list.len(),
{
    if list.len() == 0 {
        Seq::empty()
    } else if list.len() == 1 {
        list[0]
    } else {
        joined(list.drop_last(), sep) + sep + list.last()
    }
}

/// Joins a list of strings with a separator, as `[String]::join` does.
pub fn join(list: &[String], sep: &str) -> (r: String)
    ensures
        r@ == joined(views(list@), sep@),
{
    let mut out = String::new();
    let mut i: usize = 0;
    while i < list.len()
        invariant
            i <= list@.len(),
            out@ == joined(views(list@).take(i as int), sep@),
        decreases list@.len() - i,
    {
        if i > 0 {
            out.append(sep);
        }
        out.append(list[i].as_str());
        assert(views(list@).take(i + 1).drop_last() =~= views(list@).take(i as int));
        if i == 0 {
            assert(out@ =~= joined(views(list@).take(1), sep@));
        }
        i += 1;
    }
    assert(views(list@).take(list@.len() as int) =~= views(list@));
    out
}

/// Clones a string slice into an owned `String`.
pub fn owned(s: &str) -> (r: String)
    ensures
        r@ == s@,
{
    String::from_str(s)
}

} // verus!
