//! Registry values as text: how a value's bytes are shown in the list, and
//! how text typed by the user becomes the bytes stored for a value type.
use vstd::prelude::*;
use crate::text::{
    chars_of, decimal, hex_digits, push_all, push_decimal, push_hex, push_str, starts_with,
    starts_with_exec, string_from_chars, suffix_from,
};

verus! {

/// Value type: no type.
pub const REG_NONE: u32 = 0;
/// Value type: a string.
pub const REG_SZ: u32 = 1;
/// Value type: a string with environment references.
pub const REG_EXPAND_SZ: u32 = 2;
/// Value type: binary data.
pub const REG_BINARY: u32 = 3;
/// Value type: a 32-bit number, little-endian.
pub const REG_DWORD: u32 = 4;
/// Value type: a 32-bit number, big-endian.
pub const REG_DWORD_BIG_ENDIAN: u32 = 5;
/// Value type: a sequence of strings.
pub const REG_MULTI_SZ: u32 = 7;
/// Value type: a 64-bit number, little-endian.
pub const REG_QWORD: u32 = 11;

/// The UTF-16 code units of one character.
pub open spec fn char_units(c: char) -> Seq<u16> {
    let v = c as u32;
    if v < 0x10000 {
        seq![v as u16]
    } else {
        let w = v - 0x10000;
        seq![(0xD800 + w / 0x400) as u16, (0xDC00 + w % 0x400) as u16]
    }
}

/// The UTF-16 encoding of a text (`str::encode_utf16`).
pub open spec fn utf16_encode(s: Seq<char>) -> Seq<u16>
    decreases s.len(),
{
    if s.len() == 0 {
        Seq::empty()
    } else {
        char_units(s[0]) + utf16_encode(s.drop_first())
    }
}

/// U+FFFD, which stands for data that is not UTF-16.
pub open spec fn replacement_char() -> char {
    '\u{FFFD}'
}

/// Decoding of UTF-16 (`String::from_utf16_lossy`): a unit outside the
/// surrogate range is a character, a high surrogate followed by a low one is
/// a character above U+FFFF, any other surrogate becomes U+FFFD.
pub open spec fn utf16_decode(u: Seq<u16>) -> Seq<char>
    decreases u.len(),
{
    if u.len() == 0 {
        Seq::empty()
    } else if u[0] < 0xD800 || u[0] > 0xDFFF {
        seq![(u[0] as u32) as char] + utf16_decode(u.drop_first())
    } else if u[0] <= 0xDBFF && u.len() >= 2 && 0xDC00 <= u[1] <= 0xDFFF {
        seq![((0x10000 + (u[0] - 0xD800) * 0x400 + (u[1] - 0xDC00)) as u32) as char]
            + utf16_decode(u.skip(2))
    } else {
        seq![replacement_char()] + utf16_decode(u.drop_first())
    }
}

/// Code units read from bytes in pairs, little-endian; an odd last byte is
/// ignored.
pub open spec fn units_of_bytes(b: Seq<u8>) -> Seq<u16> {
    Seq::new(b.len() / 2, |i: int| (b[2 * i] + 256 * b[2 * i + 1]) as u16)
}

/// Code units written as bytes, little-endian.
pub open spec fn bytes_of_units(u: Seq<u16>) -> Seq<u8> {
    Seq::new(
        2 * u.len(),
        |j: int|
            if j % 2 == 0 {
                (u[j / 2] % 256) as u8
            } else {
                (u[j / 2] / 256) as u8
            },
    )
}

/// The 32-bit number stored little-endian in four bytes.
pub open spec fn le_u32(b: Seq<u8>) -> nat {
    (b[0] + 256 * b[1] + 65536 * b[2] + 16777216 * b[3]) as nat
}

/// The 32-bit number stored big-endian in four bytes.
pub open spec fn be_u32(b: Seq<u8>) -> nat {
    (b[3] + 256 * b[2] + 65536 * b[1] + 16777216 * b[0]) as nat
}

/// The 64-bit number stored little-endian in eight bytes.
pub open spec fn le_u64(b: Seq<u8>) -> nat {
    (b[0] + 256 * b[1] + 65536 * b[2] + 16777216 * b[3] + 4294967296 * b[4] + 1099511627776
        * b[5] + 281474976710656 * b[6] + 72057594037927936 * b[7]) as nat
}

/// The lowest `n` bytes of `v`, least significant first (`to_le_bytes`).
pub open spec fn le_bytes(v: nat, n: nat) -> Seq<u8>
    decreases n,
{
    if n == 0 {
        Seq::empty()
    } else {
        seq![(v % 256) as u8] + le_bytes(v / 256, (n - 1) as nat)
    }
}

/// The lowest `n` bytes of `v`, most significant first (`to_be_bytes`).
pub open spec fn be_bytes(v: nat, n: nat) -> Seq<u8>
    decreases n,
{
    if n == 0 {
        Seq::empty()
    } else {
        be_bytes(v / 256, (n - 1) as nat).push((v % 256) as u8)
    }
}

/// `n` bytes, as shown for data that is not decoded.
pub open spec fn bytes_note(n: nat) -> Seq<char> {
    decimal(n) + " bytes"@
}

/// A decoded string without the terminating NUL; for a multi-string also
/// without the NUL that ends the list, and with the NULs between the
/// strings shown as spaces.
pub open spec fn shown_string(s: Seq<char>, multi: bool) -> Seq<char> {
    let a = if s.len() > 0 && s.last() == '\0' {
        s.drop_last()
    } else {
        s
    };
    if multi {
        let b = if a.len() > 0 && a.last() == '\0' {
            a.drop_last()
        } else {
            a
        };
        Seq::new(b.len(), |i: int| if b[i] == '\0' { ' ' } else { b[i] })
    } else {
        a
    }
}

/// How a value of type `kind` with data `d` is shown in the list.
pub open spec fn displayed_value(kind: u32, d: Seq<u8>) -> Seq<char> {
    if kind == REG_BINARY {
        bytes_note(d.len())
    } else if kind == REG_DWORD {
        if d.len() == 4 {
            "0x"@ + hex_digits(le_u32(d), 8)
        } else {
            "invalid dword: "@ + bytes_note(d.len())
        }
    } else if kind == REG_DWORD_BIG_ENDIAN {
        if d.len() == 4 {
            "0x"@ + hex_digits(be_u32(d), 8)
        } else {
            "invalid big endian dword: "@ + bytes_note(d.len())
        }
    } else if kind == REG_QWORD {
        if d.len() == 8 {
            "0x"@ + hex_digits(le_u64(d), 16)
        } else {
            "invalid qword: "@ + bytes_note(d.len())
        }
    } else if kind == REG_SZ || kind == REG_EXPAND_SZ || kind == REG_MULTI_SZ {
        shown_string(utf16_decode(units_of_bytes(d)), kind == REG_MULTI_SZ)
    } else if kind == REG_NONE {
        if d.len() == 0 {
            Seq::empty()
        } else {
            "<unable to parse none value>, "@ + bytes_note(d.len())
        }
    } else {
        "<unable to parse value>, "@ + bytes_note(d.len())
    }
}

/// White space as `char::is_whitespace` defines it (the Unicode White_Space
/// property).
pub open spec fn is_white(c: char) -> bool {
    let v = c as u32;
    (0x09 <= v <= 0x0D) || v == 0x20 || v == 0x85 || v == 0xA0 || v == 0x1680 || (0x2000 <= v
        <= 0x200A) || v == 0x2028 || v == 0x2029 || v == 0x202F || v == 0x205F || v == 0x3000
}

/// `s` without leading white space.
pub open spec fn trim_start(s: Seq<char>) -> Seq<char>
    decreases s.len(),
{
    if s.len() > 0 && is_white(s[0]) {
        trim_start(s.drop_first())
    } else {
        s
    }
}

/// `s` without trailing white space.
pub open spec fn trim_end(s: Seq<char>) -> Seq<char>
    decreases s.len(),
{
    if s.len() > 0 && is_white(s.last()) {
        trim_end(s.drop_last())
    } else {
        s
    }
}

/// `s` without leading and trailing white space (`str::trim`).
pub open spec fn trim_white(s: Seq<char>) -> Seq<char> {
    trim_end(trim_start(s))
}

/// The value of digit `c` in base `radix` (at most 36), as `char::to_digit`.
pub open spec fn digit_value(c: char, radix: nat) -> Option<nat> {
    let v = c as u32;
    let d: int = if 48 <= v <= 57 {
        v - 48
    } else if 97 <= v <= 122 {
        v - 87
    } else if 65 <= v <= 90 {
        v - 55
    } else {
        99
    };
    if d < radix {
        Some(d as nat)
    } else {
        None
    }
}

/// The number written by the digits `s` in base `radix`, if they all are
/// digits (0 for no digits).
pub open spec fn digits_value(s: Seq<char>, radix: nat) -> Option<nat>
    decreases s.len(),
{
    if s.len() == 0 {
        Some(0)
    } else {
        match (digits_value(s.drop_last(), radix), digit_value(s.last(), radix)) {
            (Some(a), Some(d)) => Some(a * radix + d),
            _ => None,
        }
    }
}

/// `from_str_radix` for an unsigned type whose largest value is `max`: an
/// optional `+`, then at least one digit, and a value not above `max`.
pub open spec fn parse_unsigned(s: Seq<char>, radix: nat, max: nat) -> Option<nat> {
    let body = if s.len() > 0 && s[0] == '+' {
        s.drop_first()
    } else {
        s
    };
    if body.len() == 0 {
        None
    } else {
        match digits_value(body, radix) {
            Some(v) => if v <= max {
                Some(v)
            } else {
                None
            },
            None => None,
        }
    }
}

/// The number typed for a numeric value, if it is one: white space around it
/// is ignored, and a leading `0x` or `0X` makes it hexadecimal.
pub open spec fn typed_number(text: Seq<char>, max: nat) -> Option<nat> {
    let t = trim_white(text);
    if starts_with(t, "0x"@) || starts_with(t, "0X"@) {
        parse_unsigned(t.skip(2), 16, max)
    } else {
        parse_unsigned(t, 10, max)
    }
}

/// Why text could not be stored as a value.
#[derive(Clone, Copy, Debug, PartialEq, Eq, Structural)]
pub enum EncodeError {
    /// The text is not a number that fits the numeric type.
    InvalidNumber,
    /// Values of this type cannot be typed in.
    UnsupportedType(u32),
}

/// The bytes stored for `text` as a value of type `kind`: strings as UTF-16
/// (little-endian) with a terminating NUL, binary and untyped values as the
/// UTF-8 bytes of the text, numbers in their byte order.
pub open spec fn encoded_value(kind: u32, text: Seq<char>) -> Result<Seq<u8>, EncodeError> {
    if kind == REG_SZ || kind == REG_EXPAND_SZ || kind == REG_MULTI_SZ {
        Ok(bytes_of_units(utf16_encode(text).push(0)))
    } else if kind == REG_NONE || kind == REG_BINARY {
        Ok(vstd::utf8::encode_utf8(text))
    } else if kind == REG_DWORD || kind == REG_DWORD_BIG_ENDIAN || kind == REG_QWORD {
        let max: nat = if kind == REG_QWORD {
            0xFFFF_FFFF_FFFF_FFFF
        } else {
            0xFFFF_FFFF
        };
        match typed_number(text, max) {
            None => Err(EncodeError::InvalidNumber),
            Some(v) => Ok(
                if kind == REG_DWORD {
                    le_bytes(v, 4)
                } else if kind == REG_DWORD_BIG_ENDIAN {
                    be_bytes(v, 4)
                } else {
                    le_bytes(v, 8)
                },
            ),
        }
    } else {
        Err(EncodeError::UnsupportedType(kind))
    }
}

/// `char::from_u32`: the character whose code point is `v`, if `v` is a
/// Unicode scalar value, else `None`.
#[verifier::external_body]
fn char_from_u32(v: u32) -> (c: Option<char>)
    ensures
        vstd::utf8::is_scalar(v) ==> c == Some(v as char),
        !vstd::utf8::is_scalar(v) ==> c is None,
{
    char::from_u32(v)
}

/// Decodes UTF-16, replacing what is not UTF-16 with U+FFFD.
pub fn decode_utf16_lossy(units: &Vec<u16>) -> (res: Vec<char>)
    ensures
        res@ == utf16_decode(units@),
{
    let mut res: Vec<char> = Vec::new();
    let mut i: usize = 0;
    assert(units@.skip(0) =~= units@);
    while i < units.len()
        invariant
            i <= units.len(),
            res@ + utf16_decode(units@.skip(i as int)) == utf16_decode(units@),
        decreases units.len() - i,
    {
        let u = units[i];
        let ghost rest = units@.skip(i as int);
        assert(rest[0] == u);
        if u < 0xD800 || u > 0xDFFF {
            let c = char_from_u32(u as u32).unwrap();
            assert(rest.drop_first() =~= units@.skip(i + 1));
            res.push(c);
            i = i + 1;
            assert(res@ + utf16_decode(units@.skip(i as int)) =~= utf16_decode(units@));
        } else if u <= 0xDBFF && i + 1 < units.len() && units[i + 1] >= 0xDC00 && units[i + 1]
            <= 0xDFFF {
            let l = units[i + 1];
            assert(rest[1] == l);
            let v: u32 = 0x10000 + ((u - 0xD800) as u32) * 0x400 + ((l - 0xDC00) as u32);
            let c = char_from_u32(v).unwrap();
            assert(rest.skip(2) =~= units@.skip(i + 2));
            res.push(c);
            i = i + 2;
            assert(res@ + utf16_decode(units@.skip(i as int)) =~= utf16_decode(units@));
        } else {
            assert(rest.drop_first() =~= units@.skip(i + 1));
            res.push('\u{FFFD}');
            i = i + 1;
            assert(res@ + utf16_decode(units@.skip(i as int)) =~= utf16_decode(units@));
        }
    }
    assert(units@.skip(i as int) =~= Seq::<u16>::empty());
    assert(res@ + Seq::<char>::empty() =~= res@);
    res
}

/// Code units read from bytes in little-endian pairs.
pub fn units_from_bytes(b: &[u8]) -> (res: Vec<u16>)
    ensures
        res@ == units_of_bytes(b@),
{
    let mut res: Vec<u16> = Vec::new();
    let n = b.len() / 2;
    proof {
        vstd::arithmetic::div_mod::lemma_fundamental_div_mod(b@.len() as int, 2);
    }
    let mut i: usize = 0;
    while i < n
        invariant
            n == b@.len() / 2,
            2 * n <= b@.len(),
            b@.len() == b.len(),
            i <= n,
            res@ == units_of_bytes(b@).take(i as int),
        decreases n - i,
    {
        let lo = b[2 * i] as u16;
        let hi = b[2 * i + 1] as u16;
        res.push(lo + 256 * hi);
        i = i + 1;
        assert(res@ =~= units_of_bytes(b@).take(i as int));
    }
    assert(units_of_bytes(b@).take(n as int) =~= units_of_bytes(b@));
    res
}

/// The characters of UTF-16 text stored little-endian in `data`.
pub fn decode_utf16_bytes(data: &[u8]) -> (res: Vec<char>)
    ensures
        res@ == utf16_decode(units_of_bytes(data@)),
{
    let u = units_from_bytes(data);
    decode_utf16_lossy(&u)
}

fn push_bytes_note(dst: &mut Vec<char>, n: usize)
    ensures
        final(dst)@ == old(dst)@ + bytes_note(n as nat),
{
    push_decimal(dst, n as u64);
    push_str(dst, " bytes");
    assert(dst@ =~= old(dst)@ + bytes_note(n as nat));
}

/// How a value of type `kind` with data `data` is shown in the list.
pub fn display_value(kind: u32, data: &[u8]) -> (res: String)
    ensures
        res@ == displayed_value(kind, data@),
{
    let n = data.len();
    let mut v: Vec<char> = Vec::new();
    if kind == REG_BINARY {
        push_bytes_note(&mut v, n);
    } else if kind == REG_DWORD {
        if n == 4 {
            let x: u64 = data[0] as u64 + 256 * (data[1] as u64) + 65536 * (data[2] as u64)
                + 16777216 * (data[3] as u64);
            push_str(&mut v, "0x");
            push_hex(&mut v, x, 8);
        } else {
            push_str(&mut v, "invalid dword: ");
            push_bytes_note(&mut v, n);
        }
    } else if kind == REG_DWORD_BIG_ENDIAN {
        if n == 4 {
            let x: u64 = data[3] as u64 + 256 * (data[2] as u64) + 65536 * (data[1] as u64)
                + 16777216 * (data[0] as u64);
            push_str(&mut v, "0x");
            push_hex(&mut v, x, 8);
        } else {
            push_str(&mut v, "invalid big endian dword: ");
            push_bytes_note(&mut v, n);
        }
    } else if kind == REG_QWORD {
        if n == 8 {
            let x: u64 = data[0] as u64 + 256 * (data[1] as u64) + 65536 * (data[2] as u64)
                + 16777216 * (data[3] as u64) + 4294967296 * (data[4] as u64) + 1099511627776 * (
            data[5] as u64) + 281474976710656 * (data[6] as u64) + 72057594037927936 * (
            data[7] as u64);
            push_str(&mut v, "0x");
            push_hex(&mut v, x, 16);
        } else {
            push_str(&mut v, "invalid qword: ");
            push_bytes_note(&mut v, n);
        }
    } else if kind == REG_SZ || kind == REG_EXPAND_SZ || kind == REG_MULTI_SZ {
        let mut s = decode_utf16_bytes(data);
        if s.len() > 0 && s[s.len() - 1] == '\0' {
            s.pop();
        }
        if kind == REG_MULTI_SZ {
            if s.len() > 0 && s[s.len() - 1] == '\0' {
                s.pop();
            }
            let ghost b = s@;
            let mut i: usize = 0;
            while i < s.len()
                invariant
                    i <= s.len() == b.len(),
                    forall|k: int| 0 <= k < i ==> s@[k] == (if b[k] == '\0' { ' ' } else { b[k] }),
                    forall|k: int| i <= k < s.len() ==> s@[k] == b[k],
                decreases s.len() - i,
            {
                if s[i] == '\0' {
                    s.set(i, ' ');
                }
                i = i + 1;
            }
        }
        assert(s@ =~= displayed_value(kind, data@));
        return string_from_chars(&s);
    } else if kind == REG_NONE {
        if n != 0 {
            push_str(&mut v, "<unable to parse none value>, ");
            push_bytes_note(&mut v, n);
        }
    } else {
        push_str(&mut v, "<unable to parse value>, ");
        push_bytes_note(&mut v, n);
    }
    assert(v@ =~= displayed_value(kind, data@));
    string_from_chars(&v)
}


/// The UTF-16 code units of `s`.
pub fn encode_utf16(s: &Vec<char>) -> (res: Vec<u16>)
    ensures
        res@ == utf16_encode(s@),
{
    let mut res: Vec<u16> = Vec::new();
    let mut i: usize = 0;
    assert(s@.skip(0) =~= s@);
    while i < s.len()
        invariant
            i <= s.len(),
            res@ + utf16_encode(s@.skip(i as int)) == utf16_encode(s@),
        decreases s.len() - i,
    {
        let c = s[i];
        let v = c as u32;
        assert(s@.skip(i as int).drop_first() =~= s@.skip(i + 1));
        assert(s@.skip(i as int)[0] == c);
        proof {
            vstd::utf8::char_is_scalar(c);
        }
        if v < 0x10000 {
            res.push(v as u16);
        } else {
            let w = v - 0x10000;
            res.push((0xD800 + w / 0x400) as u16);
            res.push((0xDC00 + w % 0x400) as u16);
        }
        i = i + 1;
        assert(res@ + utf16_encode(s@.skip(i as int)) =~= utf16_encode(s@));
    }
    assert(s@.skip(i as int) =~= Seq::<char>::empty());
    assert(res@ + Seq::<u16>::empty() =~= res@);
    res
}

/// Code units written as little-endian bytes.
pub fn units_to_bytes(u: &Vec<u16>) -> (res: Vec<u8>)
    ensures
        res@ == bytes_of_units(u@),
{
    let mut res: Vec<u8> = Vec::new();
    let mut i: usize = 0;
    while i < u.len()
        invariant
            i <= u.len(),
            res@ =~= bytes_of_units(u@.take(i as int)),
        decreases u.len() - i,
    {
        let x = u[i];
        res.push((x % 256) as u8);
        res.push((x / 256) as u8);
        i = i + 1;
        assert forall|j: int| 0 <= j < res@.len() implies #[trigger] res@[j] == bytes_of_units(u@.take(i as int))[j] by {
            vstd::arithmetic::div_mod::lemma_fundamental_div_mod(j, 2);
        }
        assert(res@ =~= bytes_of_units(u@.take(i as int)));
    }
    assert(u@.take(i as int) =~= u@);
    res
}

/// Whether `c` is white space (`char::is_whitespace`).
pub fn is_white_exec(c: char) -> (b: bool)
    ensures
        b == is_white(c),
{
    let v = c as u32;
    (0x09 <= v && v <= 0x0D) || v == 0x20 || v == 0x85 || v == 0xA0 || v == 0x1680 || (0x2000 <= v
        && v <= 0x200A) || v == 0x2028 || v == 0x2029 || v == 0x202F || v == 0x205F || v == 0x3000
}

/// `s` without leading and trailing white space.
pub fn trim_white_exec(s: &Vec<char>) -> (res: Vec<char>)
    ensures
        res@ == trim_white(s@),
{
    let mut start: usize = 0;
    assert(s@.skip(0) =~= s@);
    while start < s.len() && is_white_exec(s[start])
        invariant
            start <= s.len(),
            trim_start(s@) == trim_start(s@.skip(start as int)),
        decreases s.len() - start,
    {
        assert(s@.skip(start as int).drop_first() =~= s@.skip(start + 1));
        start = start + 1;
    }
    let mid = suffix_from(s, start);
    let mut end: usize = mid.len();
    assert(mid@.take(end as int) =~= mid@);
    while end > 0 && is_white_exec(mid[end - 1])
        invariant
            end <= mid.len(),
            trim_end(mid@) == trim_end(mid@.take(end as int)),
        decreases end,
    {
        assert(mid@.take(end as int).drop_last() =~= mid@.take(end - 1));
        end = end - 1;
    }
    crate::text::prefix_to(&mid, end)
}

/// Digit value of `c` in base `radix`.
fn digit_value_exec(c: char, radix: u64) -> (r: Option<u64>)
    requires
        radix <= 36,
    ensures
        r matches Some(d) ==> digit_value(c, radix as nat) == Some(d as nat),
        r is None ==> digit_value(c, radix as nat) is None,
{
    let v = c as u32;
    let d: u64 = if 48 <= v && v <= 57 {
        (v - 48) as u64
    } else if 97 <= v && v <= 122 {
        (v - 87) as u64
    } else if 65 <= v && v <= 90 {
        (v - 55) as u64
    } else {
        99
    };
    if d < radix {
        Some(d)
    } else {
        None
    }
}

/// A digit string's value only grows when digits are appended.
proof fn lemma_digits_value_grows(s: Seq<char>, radix: nat, k: int)
    requires
        radix >= 1,
        0 <= k <= s.len(),
        digits_value(s, radix) is Some,
    ensures
        digits_value(s.take(k), radix) is Some,
        digits_value(s.take(k), radix)->0 <= digits_value(s, radix)->0,
    decreases s.len() - k,
{
    if k == s.len() {
        assert(s.take(k) =~= s);
    } else {
        lemma_digits_value_grows(s, radix, k + 1);
        assert(s.take(k + 1).drop_last() =~= s.take(k));
        let a = digits_value(s.take(k), radix);
        let d = digit_value(s.take(k + 1).last(), radix);
        assert(a is Some && d is Some);
        assert(a->0 * radix + d->0 >= a->0) by (nonlinear_arith)
            requires
                radix >= 1,
        ;
    }
}

/// `from_str_radix` for an unsigned type whose largest value is `max`.
pub fn parse_unsigned_exec(s: &Vec<char>, radix: u64, max: u64) -> (r: Option<u64>)
    requires
        2 <= radix <= 36,
    ensures
        r matches Some(v) ==> parse_unsigned(s@, radix as nat, max as nat) == Some(v as nat),
        r is None ==> parse_unsigned(s@, radix as nat, max as nat) is None,
{
    let start: usize = if s.len() > 0 && s[0] == '+' {
        1
    } else {
        0
    };
    let ghost body = if s@.len() > 0 && s@[0] == '+' {
        s@.drop_first()
    } else {
        s@
    };
    assert(body =~= s@.skip(start as int));
    if start >= s.len() {
        return None;
    }
    let mut acc: u64 = 0;
    let mut i: usize = start;
    while i < s.len()
        invariant
            start <= i <= s.len(),
            body == s@.skip(start as int),
            body == (if s@.len() > 0 && s@[0] == '+' {
                s@.drop_first()
            } else {
                s@
            }),
            body.len() > 0,
            2 <= radix <= 36,
            digits_value(body.take(i - start), radix as nat) == Some(acc as nat),
            acc <= max,
        decreases s.len() - i,
    {
        let ghost pre = body.take(i - start);
        assert(body.take(i - start + 1).drop_last() =~= pre);
        assert(body.take(i - start + 1).last() == s@[i as int]);
        let d = match digit_value_exec(s[i], radix) {
            Some(d) => d,
            None => {
                proof {
                    if digits_value(body, radix as nat) is Some {
                        lemma_digits_value_grows(body, radix as nat, i - start + 1);
                    }
                }
                return None;
            },
        };
        let next = match acc.checked_mul(radix) {
            Some(m) => m.checked_add(d),
            None => None,
        };
        match next {
            Some(v) if v <= max => {
                acc = v;
            },
            _ => {
                proof {
                    if digits_value(body, radix as nat) is Some {
                        lemma_digits_value_grows(body, radix as nat, i - start + 1);
                    }
                    assert(acc * radix + d > max) by (nonlinear_arith)
                        requires
                            next is None ==> acc * radix > u64::MAX || acc * radix + d > u64::MAX,
                            next matches Some(v) ==> v > max && v == acc * radix + d,
                            max <= u64::MAX,
                    {
                    }
                }
                return None;
            },
        }
        i = i + 1;
    }
    assert(body.take(i - start) =~= body);
    Some(acc)
}

/// The number typed for a numeric value whose largest value is `max`.
pub fn typed_number_exec(text: &str, max: u64) -> (r: Option<u64>)
    ensures
        r matches Some(v) ==> typed_number(text@, max as nat) == Some(v as nat),
        r is None ==> typed_number(text@, max as nat) is None,
{
    let chars = chars_of(text);
    let t = trim_white_exec(&chars);
    let lower_prefix = chars_of("0x");
    let upper_prefix = chars_of("0X");
    proof {
        reveal_strlit("0x");
        reveal_strlit("0X");
    }
    if starts_with_exec(&t, &lower_prefix) || starts_with_exec(&t, &upper_prefix) {
        let digits = suffix_from(&t, 2);
        parse_unsigned_exec(&digits, 16, max)
    } else {
        parse_unsigned_exec(&t, 10, max)
    }
}

/// The lowest `n` bytes of `v`, least significant first.
pub fn to_le_bytes(v: u64, n: usize) -> (res: Vec<u8>)
    ensures
        res@ == le_bytes(v as nat, n as nat),
    decreases n,
{
    if n == 0 {
        return Vec::new();
    }
    let mut res: Vec<u8> = Vec::new();
    res.push((v % 256) as u8);
    let rest = to_le_bytes(v / 256, n - 1);
    let mut i: usize = 0;
    while i < rest.len()
        invariant
            i <= rest.len(),
            res@ == seq![(v % 256) as u8] + rest@.take(i as int),
        decreases rest.len() - i,
    {
        res.push(rest[i]);
        i = i + 1;
        assert(res@ =~= seq![(v % 256) as u8] + rest@.take(i as int));
    }
    assert(rest@.take(i as int) =~= rest@);
    res
}

/// The lowest `n` bytes of `v`, most significant first.
pub fn to_be_bytes(v: u64, n: usize) -> (res: Vec<u8>)
    ensures
        res@ == be_bytes(v as nat, n as nat),
    decreases n,
{
    if n == 0 {
        return Vec::new();
    }
    let mut res = to_be_bytes(v / 256, n - 1);
    res.push((v % 256) as u8);
    res
}

/// The bytes to store for `text` as a value of type `kind`.
pub fn encode_value(kind: u32, text: &str) -> (res: Result<Vec<u8>, EncodeError>)
    ensures
        match res {
            Ok(b) => encoded_value(kind, text@) == Ok::<Seq<u8>, EncodeError>(b@),
            Err(e) => encoded_value(kind, text@) == Err::<Seq<u8>, EncodeError>(e),
        },
{
    if kind == REG_SZ || kind == REG_EXPAND_SZ || kind == REG_MULTI_SZ {
        let chars = chars_of(text);
        let mut units = encode_utf16(&chars);
        units.push(0);
        Ok(units_to_bytes(&units))
    } else if kind == REG_NONE || kind == REG_BINARY {
        let b = text.as_bytes();
        let mut res: Vec<u8> = Vec::new();
        let mut i: usize = 0;
        while i < b.len()
            invariant
                i <= b.len(),
                b@.len() == b.len(),
                res@ == b@.take(i as int),
            decreases b.len() - i,
        {
            res.push(b[i]);
            i = i + 1;
            assert(res@ =~= b@.take(i as int));
        }
        assert(b@.take(i as int) =~= b@);
        Ok(res)
    } else if kind == REG_DWORD || kind == REG_DWORD_BIG_ENDIAN || kind == REG_QWORD {
        let max: u64 = if kind == REG_QWORD {
            0xFFFF_FFFF_FFFF_FFFF
        } else {
            0xFFFF_FFFF
        };
        match typed_number_exec(text, max) {
            None => Err(EncodeError::InvalidNumber),
            Some(v) => {
                if kind == REG_DWORD {
                    Ok(to_le_bytes(v, 4))
                } else if kind == REG_DWORD_BIG_ENDIAN {
                    Ok(to_be_bytes(v, 4))
                } else {
                    Ok(to_le_bytes(v, 8))
                }
            },
        }
    } else {
        Err(EncodeError::UnsupportedType(kind))
    }
}


/// Value of bytes read least significant first.
pub open spec fn le_val(b: Seq<u8>) -> nat
    decreases b.len(),
{
    if b.len() == 0 {
        0
    } else {
        (b[0] + 256 * le_val(b.drop_first())) as nat
    }
}

/// Value of bytes read most significant first.
pub open spec fn be_val(b: Seq<u8>) -> nat
    decreases b.len(),
{
    if b.len() == 0 {
        0
    } else {
        (be_val(b.drop_last()) * 256 + b.last()) as nat
    }
}

/// `256^n`.
pub open spec fn pow256(n: nat) -> nat
    decreases n,
{
    if n == 0 {
        1
    } else {
        256 * pow256((n - 1) as nat)
    }
}

proof fn lemma_pow256_pos(n: nat)
    ensures
        pow256(n) > 0,
    decreases n,
{
    if n > 0 {
        lemma_pow256_pos((n - 1) as nat);
    }
}

proof fn lemma_le_bytes_len(v: nat, n: nat)
    ensures
        le_bytes(v, n).len() == n,
        be_bytes(v, n).len() == n,
    decreases n,
{
    if n > 0 {
        lemma_le_bytes_len(v / 256, (n - 1) as nat);
    }
}

/// Reading back the bytes written least significant first gives the value
/// modulo `256^n`.
pub proof fn lemma_le_bytes_value(v: nat, n: nat)
    ensures
        le_val(le_bytes(v, n)) == v % pow256(n),
    decreases n,
{
    if n == 0 {
        assert(v % 1 == 0);
    } else {
        lemma_le_bytes_value(v / 256, (n - 1) as nat);
        lemma_pow256_pos((n - 1) as nat);
        let b = le_bytes(v, n);
        assert(b.drop_first() =~= le_bytes(v / 256, (n - 1) as nat));
        vstd::arithmetic::div_mod::lemma_mod_breakdown(v as int, 256, pow256((n - 1) as nat) as int);
    }
}

/// Reading back the bytes written most significant first gives the value
/// modulo `256^n`.
pub proof fn lemma_be_bytes_value(v: nat, n: nat)
    ensures
        be_val(be_bytes(v, n)) == v % pow256(n),
    decreases n,
{
    if n == 0 {
        assert(v % 1 == 0);
    } else {
        lemma_be_bytes_value(v / 256, (n - 1) as nat);
        lemma_pow256_pos((n - 1) as nat);
        let b = be_bytes(v, n);
        assert(b.drop_last() =~= be_bytes(v / 256, (n - 1) as nat));
        vstd::arithmetic::div_mod::lemma_mod_breakdown(v as int, 256, pow256((n - 1) as nat) as int);
    }
}

proof fn lemma_fixed_width_values(b: Seq<u8>)
    ensures
        b.len() == 4 ==> le_u32(b) == le_val(b) && be_u32(b) == be_val(b),
        b.len() == 8 ==> le_u64(b) == le_val(b),
{
    reveal_with_fuel(le_val, 9);
    reveal_with_fuel(be_val, 5);
    if b.len() == 4 {
        assert(b.drop_first().drop_first().drop_first().drop_first() =~= Seq::<u8>::empty());
        assert(b.drop_last().drop_last().drop_last().drop_last() =~= Seq::<u8>::empty());
    }
    if b.len() == 8 {
        assert(b.drop_first().drop_first().drop_first().drop_first().drop_first().drop_first().drop_first().drop_first()
            =~= Seq::<u8>::empty());
    }
}

/// A number stored as a DWORD, big-endian DWORD or QWORD is shown as `0x`
/// and its hexadecimal digits (8 for a DWORD, 16 for a QWORD).
pub proof fn lemma_number_roundtrip(kind: u32, text: Seq<char>)
    requires
        kind == REG_DWORD || kind == REG_DWORD_BIG_ENDIAN || kind == REG_QWORD,
        encoded_value(kind, text) is Ok,
    ensures
        displayed_value(kind, encoded_value(kind, text)->Ok_0) == "0x"@ + hex_digits(
            typed_number(
                text,
                if kind == REG_QWORD {
                    0xFFFF_FFFF_FFFF_FFFF
                } else {
                    0xFFFF_FFFF
                },
            )->0,
            if kind == REG_QWORD {
                16
            } else {
                8
            },
        ),
{
    let max: nat = if kind == REG_QWORD {
        0xFFFF_FFFF_FFFF_FFFF
    } else {
        0xFFFF_FFFF
    };
    let v = typed_number(text, max)->0;
    assert(pow256(4) == 0x1_0000_0000) by {
        reveal_with_fuel(pow256, 5);
    }
    assert(pow256(8) == 0x1_0000_0000_0000_0000) by {
        reveal_with_fuel(pow256, 9);
    }
    if kind == REG_DWORD {
        lemma_le_bytes_len(v, 4);
        lemma_le_bytes_value(v, 4);
        lemma_fixed_width_values(le_bytes(v, 4));
        vstd::arithmetic::div_mod::lemma_small_mod(v, pow256(4));
    } else if kind == REG_DWORD_BIG_ENDIAN {
        lemma_le_bytes_len(v, 4);
        lemma_be_bytes_value(v, 4);
        lemma_fixed_width_values(be_bytes(v, 4));
        vstd::arithmetic::div_mod::lemma_small_mod(v, pow256(4));
    } else {
        lemma_le_bytes_len(v, 8);
        lemma_le_bytes_value(v, 8);
        lemma_fixed_width_values(le_bytes(v, 8));
        vstd::arithmetic::div_mod::lemma_small_mod(v, pow256(8));
    }
}

/// Bytes written from code units read back as the same code units.
pub proof fn lemma_units_bytes_roundtrip(u: Seq<u16>)
    ensures
        units_of_bytes(bytes_of_units(u)) == u,
{
    let b = bytes_of_units(u);
    assert((2 * u.len()) / 2 == u.len());
    assert forall|i: int| 0 <= i < u.len() implies #[trigger] units_of_bytes(b)[i] == u[i] by {
        assert((2 * i) % 2 == 0 && (2 * i) / 2 == i);
        assert((2 * i + 1) % 2 == 1 && (2 * i + 1) / 2 == i);
        vstd::arithmetic::div_mod::lemma_fundamental_div_mod(u[i] as int, 256);
    }
    assert(units_of_bytes(b) =~= u);
}

/// Decoding the UTF-16 encoding of a text gives the text back, whatever
/// follows it.
pub proof fn lemma_utf16_roundtrip(s: Seq<char>, rest: Seq<u16>)
    ensures
        utf16_decode(utf16_encode(s) + rest) == s + utf16_decode(rest),
    decreases s.len(),
{
    if s.len() == 0 {
        assert(utf16_encode(s) + rest =~= rest);
        assert(s + utf16_decode(rest) =~= utf16_decode(rest));
    } else {
        let c = s[0];
        let v = c as u32;
        vstd::utf8::char_is_scalar(c);
        lemma_utf16_roundtrip(s.drop_first(), rest);
        let tail = utf16_encode(s.drop_first()) + rest;
        let all = utf16_encode(s) + rest;
        assert(all =~= char_units(c) + tail);
        if v < 0x10000 {
            assert(all[0] == v as u16);
            assert(all.drop_first() =~= tail);
            vstd::utf8::char_u32_cast(c, v);
            assert(((all[0] as u32) as char) == c);
        } else {
            let w = v - 0x10000;
            assert(w / 0x400 <= 0x3FF) by (nonlinear_arith)
                requires
                    w <= 0xFFFFF,
            ;
            vstd::arithmetic::div_mod::lemma_fundamental_div_mod(w as int, 0x400);
            assert(all[0] == (0xD800 + w / 0x400) as u16);
            assert(all[1] == (0xDC00 + w % 0x400) as u16);
            assert(all.skip(2) =~= tail);
            assert(0x10000 + (all[0] - 0xD800) * 0x400 + (all[1] - 0xDC00) == v);
            vstd::utf8::char_u32_cast(c, v);
        }
        assert(s =~= seq![c] + s.drop_first());
    }
}

/// A string stored as a string value (REG_SZ, REG_EXPAND_SZ or
/// REG_MULTI_SZ) is shown as the same string, when it holds no NUL.
pub proof fn lemma_string_roundtrip(kind: u32, text: Seq<char>)
    requires
        kind == REG_SZ || kind == REG_EXPAND_SZ || kind == REG_MULTI_SZ,
        forall|i: int| 0 <= i < text.len() ==> text[i] != '\0',
    ensures
        encoded_value(kind, text) is Ok,
        displayed_value(kind, encoded_value(kind, text)->Ok_0) == text,
{
    let u = utf16_encode(text).push(0);
    lemma_units_bytes_roundtrip(u);
    let nul: Seq<u16> = seq![0];
    assert(u =~= utf16_encode(text) + nul);
    lemma_utf16_roundtrip(text, nul);
    vstd::utf8::char_u32_cast('\0', 0);
    assert(utf16_decode(nul.drop_first()) =~= Seq::<char>::empty());
    assert(utf16_decode(nul) =~= seq!['\0']);
    let d = text + seq!['\0'];
    assert(d.drop_last() =~= text);
    if kind == REG_MULTI_SZ {
        assert(shown_string(d, true) =~= text);
    }
}

} // verus!
