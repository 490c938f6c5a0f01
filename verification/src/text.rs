//! Zero-terminated UTF-16LE and 8-bit strings on the wire, and the small
//! character and number renderings the protocol needs.

use vstd::prelude::*;
use vstd::utf8::*;
use vstd::string::StrSliceExecFns;
use crate::wire::{fits, le16, WireReader};

verus! {

/// Why a string could not be read.
#[derive(Debug, Clone, Copy, PartialEq, Eq)]
pub enum ReadError {
    /// The buffer ended before the first character.
    UnexpectedEof,
    /// Too long, or not a valid encoding.
    InvalidData,
}

/// The 16-bit code units of a zero-terminated string starting at `p`: the
/// units before the terminator, the position after the terminator (or the end
/// of the buffer), and whether the buffer ended before a terminator.
pub open spec fn scan_u16z(s: Seq<u8>, p: int) -> (Seq<u16>, int, bool)
    decreases s.len() - p,
{
    if !fits(s, p, 2) {
        (seq![], s.len() as int, true)
    } else if le16(s, p) == 0 {
        (seq![], p + 2, false)
    } else {
        let rest = scan_u16z(s, p + 2);
        (seq![le16(s, p) as u16] + rest.0, rest.1, rest.2)
    }
}

/// The bytes of a zero-terminated 8-bit string starting at `p`, with the
/// same shape as [`scan_u16z`].
pub open spec fn scan_u8z(s: Seq<u8>, p: int) -> (Seq<u8>, int, bool)
    decreases s.len() - p,
{
    if !fits(s, p, 1) {
        (seq![], s.len() as int, true)
    } else if s[p] == 0 {
        (seq![], p + 1, false)
    } else {
        let rest = scan_u8z(s, p + 1);
        (seq![s[p]] + rest.0, rest.1, rest.2)
    }
}

/// Whether `v` is a Unicode scalar value.
pub open spec fn is_scalar_value(v: int) -> bool {
    (0 <= v < 0xD800) || (0xE000 <= v <= 0x10FFFF)
}

/// UTF-16 decoding: `None` when a surrogate is unpaired.
pub open spec fn utf16_decode(u: Seq<u16>) -> Option<Seq<char>>
    decreases u.len(),
{
    if u.len() == 0 {
        Some(seq![])
    } else if u[0] < 0xD800 || u[0] >= 0xE000 {
        match utf16_decode(u.drop_first()) {
            Some(r) => Some(seq![u[0] as char] + r),
            None => None,
        }
    } else if u[0] < 0xDC00 && u.len() >= 2 && 0xDC00 <= u[1] < 0xE000 {
        match utf16_decode(u.skip(2)) {
            Some(r) => Some(seq![(0x10000 + (u[0] - 0xD800) * 1024 + (u[1] - 0xDC00)) as char] + r),
            None => None,
        }
    } else {
        None
    }
}

/// Prefixes the decoded text, if any, with `a`.
pub open spec fn prefixed(a: Seq<char>, o: Option<Seq<char>>) -> Option<Seq<char>> {
    match o {
        Some(r) => Some(a + r),
        None => None,
    }
}

/// Result and end position of reading a zero-terminated UTF-16LE string at
/// `p`, giving up after 1024 characters when `bounded`.
pub open spec fn utf16z_read(s: Seq<u8>, p: int, bounded: bool) -> (Result<Seq<char>, ReadError>, int) {
    let sc = scan_u16z(s, p);
    if bounded && sc.0.len() > 1024 {
        (Err(ReadError::InvalidData), p + 2050)
    } else if sc.0.len() == 0 && sc.2 {
        (Err(ReadError::UnexpectedEof), s.len() as int)
    } else {
        match utf16_decode(sc.0) {
            Some(c) => (Ok(c), sc.1),
            None => (Err(ReadError::InvalidData), sc.1),
        }
    }
}

/// Result and end position of reading a zero-terminated UTF-8 string at `p`,
/// giving up after 1024 bytes when `bounded`.
pub open spec fn utf8z_read(s: Seq<u8>, p: int, bounded: bool) -> (Result<Seq<char>, ReadError>, int) {
    let sc = scan_u8z(s, p);
    if bounded && sc.0.len() > 1024 {
        (Err(ReadError::InvalidData), p + 1025)
    } else if sc.0.len() == 0 && sc.2 {
        (Err(ReadError::UnexpectedEof), s.len() as int)
    } else if valid_utf8(sc.0) {
        (Ok(decode_utf8(sc.0)), sc.1)
    } else {
        (Err(ReadError::InvalidData), sc.1)
    }
}

/// The text of a string read, or the empty text when it failed.
pub open spec fn text_or_empty(r: Result<Seq<char>, ReadError>) -> Seq<char> {
    match r {
        Ok(c) => c,
        Err(_) => seq![],
    }
}

/// `char::from_u32`: claimed to give the character with scalar value `v`
/// exactly when `v` is a Unicode scalar value (as std documents).
#[verifier::external_body]
fn char_from_u32(v: u32) -> (r: Option<char>)
    ensures
        r is Some <==> is_scalar_value(v as int),
        r matches Some(c) ==> c as int == v,
{
    char::from_u32(v)
}

/// `String: FromIterator<&char>`: claimed to give the string made of the
/// characters of `v`, in order.
#[verifier::external_body]
pub(crate) fn string_from_chars(v: &Vec<char>) -> (s: String)
    ensures
        s@ == v@,
{
    v.iter().collect()
}

/// `String::from_utf8`: claimed to succeed exactly on valid UTF-8 and then
/// to give the decoded characters (as std documents).
#[verifier::external_body]
fn string_from_utf8(bytes: Vec<u8>) -> (r: Option<String>)
    ensures
        r is Some <==> valid_utf8(bytes@),
        r matches Some(s) ==> s@ == decode_utf8(bytes@),
{
    String::from_utf8(bytes).ok()
}

/// Decodes UTF-16 code units.
pub fn decode_utf16(u: &Vec<u16>) -> (r: Option<Vec<char>>)
    ensures
        match r {
            Some(v) => utf16_decode(u@) == Some(v@),
            None => utf16_decode(u@) is None,
        },
{
    let mut out: Vec<char> = Vec::new();
    let mut i: usize = 0;
    assert(u@.skip(0) =~= u@);
    while i < u.len()
        invariant
            i <= u@.len(),
            utf16_decode(u@) == prefixed(out@, utf16_decode(u@.skip(i as int))),
        decreases u@.len() - i,
    {
        let ghost rest = u@.skip(i as int);
        let a = u[i];
        if a < 0xD800 || a >= 0xE000 {
            assert(rest.drop_first() =~= u@.skip(i + 1));
            let c = match char_from_u32(a as u32) {
                Some(c) => c,
                None => { return None; },
            };
            proof {
                assert(c == a as char);
                match utf16_decode(u@.skip(i + 1)) {
                    Some(r) => { assert(out@ + (seq![c] + r) =~= out@.push(c) + r); },
                    None => {},
                }
            }
            out.push(c);
            i = i + 1;
        } else if a < 0xDC00 && i + 1 < u.len() && 0xDC00 <= u[i + 1] && u[i + 1] < 0xE000 {
            let b = u[i + 1];
            assert(rest.skip(2) =~= u@.skip(i + 2));
            let v: u32 = 0x10000 + ((a - 0xD800) as u32) * 1024 + ((b - 0xDC00) as u32);
            let c = match char_from_u32(v) {
                Some(c) => c,
                None => { return None; },
            };
            proof {
                assert(c == (0x10000 + (rest[0] - 0xD800) * 1024 + (rest[1] - 0xDC00)) as char);
                match utf16_decode(u@.skip(i + 2)) {
                    Some(r) => { assert(out@ + (seq![c] + r) =~= out@.push(c) + r); },
                    None => {},
                }
            }
            out.push(c);
            i = i + 2;
        } else {
            return None;
        }
    }
    assert(u@.skip(i as int) =~= Seq::<u16>::empty());
    assert(out@ + Seq::<char>::empty() =~= out@);
    Some(out)
}

/// Reads a zero-terminated UTF-16LE string, stopping at the end of the buffer.
/// With `bounded`, more than 1024 characters is an error.
pub fn read_utf16z(r: &mut WireReader, bounded: bool) -> (res: Result<String, ReadError>)
    requires
        old(r).wf(),
    ensures
        final(r).wf(),
        final(r).data@ == old(r).data@,
        ({
            let sp = utf16z_read(old(r).data@, old(r).pos as int, bounded);
            &&& final(r).pos == sp.1
            &&& match res {
                Ok(t) => sp.0 == Ok::<Seq<char>, ReadError>(t@),
                Err(e) => sp.0 == Err::<Seq<char>, ReadError>(e),
            }
        }),
{
    let ghost s = r.data@;
    let ghost p0 = r.pos as int;
    let mut units: Vec<u16> = Vec::new();
    let mut eof = false;
    loop
        invariant_except_break
            r.wf(),
            r.data@ == s,
            !eof,
            s == old(r).data@,
            p0 == old(r).pos,
            bounded ==> units@.len() <= 1025,
            r.pos == p0 + 2 * units@.len(),
            scan_u16z(s, p0).0 == units@ + scan_u16z(s, r.pos as int).0,
            scan_u16z(s, p0).1 == scan_u16z(s, r.pos as int).1,
            scan_u16z(s, p0).2 == scan_u16z(s, r.pos as int).2,
        ensures
            r.wf(),
            r.data@ == s,
            s == old(r).data@,
            p0 == old(r).pos,
            bounded ==> units@.len() <= 1024,
            units@.len() > 0 || !eof,
            scan_u16z(s, p0).0 == units@,
            scan_u16z(s, p0).1 == r.pos,
            scan_u16z(s, p0).2 == eof,
        decreases s.len() - r.pos,
    {
        if bounded && units.len() > 1024 {
            return Err(ReadError::InvalidData);
        }
        let ghost before = r.pos as int;
        match r.read_u16() {
            Some(0) => {
                assert(units@ + Seq::<u16>::empty() =~= units@);
                break;
            },
            Some(ch) => {
                proof {
                    let rest = scan_u16z(s, before + 2);
                    assert(units@ + (seq![ch] + rest.0) =~= units@.push(ch) + rest.0);
                }
                units.push(ch);
            },
            None => {
                assert(units@ + Seq::<u16>::empty() =~= units@);
                if units.len() == 0 {
                    return Err(ReadError::UnexpectedEof);
                }
                eof = true;
                break;
            },
        }
    }
    match decode_utf16(&units) {
        Some(chars) => Ok(string_from_chars(&chars)),
        None => Err(ReadError::InvalidData),
    }
}

/// Reads a zero-terminated 8-bit string that must be UTF-8, stopping at the
/// end of the buffer. With `bounded`, more than 1024 bytes is an error.
pub fn read_utf8z(r: &mut WireReader, bounded: bool) -> (res: Result<String, ReadError>)
    requires
        old(r).wf(),
    ensures
        final(r).wf(),
        final(r).data@ == old(r).data@,
        ({
            let sp = utf8z_read(old(r).data@, old(r).pos as int, bounded);
            &&& final(r).pos == sp.1
            &&& match res {
                Ok(t) => sp.0 == Ok::<Seq<char>, ReadError>(t@),
                Err(e) => sp.0 == Err::<Seq<char>, ReadError>(e),
            }
        }),
{
    let ghost s = r.data@;
    let ghost p0 = r.pos as int;
    let mut bytes: Vec<u8> = Vec::new();
    let mut eof = false;
    loop
        invariant_except_break
            r.wf(),
            r.data@ == s,
            !eof,
            s == old(r).data@,
            p0 == old(r).pos,
            bounded ==> bytes@.len() <= 1025,
            r.pos == p0 + bytes@.len(),
            scan_u8z(s, p0).0 == bytes@ + scan_u8z(s, r.pos as int).0,
            scan_u8z(s, p0).1 == scan_u8z(s, r.pos as int).1,
            scan_u8z(s, p0).2 == scan_u8z(s, r.pos as int).2,
        ensures
            r.wf(),
            r.data@ == s,
            s == old(r).data@,
            p0 == old(r).pos,
            bounded ==> bytes@.len() <= 1024,
            bytes@.len() > 0 || !eof,
            scan_u8z(s, p0).0 == bytes@,
            scan_u8z(s, p0).1 == r.pos,
            scan_u8z(s, p0).2 == eof,
        decreases s.len() - r.pos,
    {
        if bounded && bytes.len() > 1024 {
            return Err(ReadError::InvalidData);
        }
        let ghost before = r.pos as int;
        match r.read_u8() {
            Some(0) => {
                assert(bytes@ + Seq::<u8>::empty() =~= bytes@);
                break;
            },
            Some(b) => {
                proof {
                    let rest = scan_u8z(s, before + 1);
                    assert(bytes@ + (seq![b] + rest.0) =~= bytes@.push(b) + rest.0);
                }
                bytes.push(b);
            },
            None => {
                assert(bytes@ + Seq::<u8>::empty() =~= bytes@);
                if bytes.len() == 0 {
                    return Err(ReadError::UnexpectedEof);
                }
                eof = true;
                break;
            },
        }
    }
    match string_from_utf8(bytes) {
        Some(t) => Ok(t),
        None => Err(ReadError::InvalidData),
    }
}

} // verus!

verus! {

/// Decimal digits of `n`, most significant first, without leading zeros
/// (a single `'0'` for zero).
pub open spec fn decimal(n: nat) -> Seq<char>
    decreases n,
{
    if n < 10 {
        seq![(n + 48) as char]
    } else {
        decimal(n / 10).push(((n % 10) + 48) as char)
    }
}

/// Appends the decimal rendering of `n` to `out`.
pub fn push_decimal(out: &mut Vec<char>, n: u64)
    ensures
        final(out)@ == old(out)@ + decimal(n as nat),
    decreases n,
{
    if n < 10 {
        let c = digit_char(n as u8);
        out.push(c);
        assert(old(out)@.push(c) =~= old(out)@ + decimal(n as nat));
    } else {
        push_decimal(out, n / 10);
        let c = digit_char((n % 10) as u8);
        let ghost mid = out@;
        out.push(c);
        assert(mid.push(c) =~= old(out)@ + decimal(n as nat));
    }
}

/// The ASCII digit for `d`.
pub fn digit_char(d: u8) -> (c: char)
    requires
        d < 10,
    ensures
        c == (d + 48) as char,
{
    if d == 0 { '0' }
    else if d == 1 { '1' }
    else if d == 2 { '2' }
    else if d == 3 { '3' }
    else if d == 4 { '4' }
    else if d == 5 { '5' }
    else if d == 6 { '6' }
    else if d == 7 { '7' }
    else if d == 8 { '8' }
    else { '9' }
}

/// `"#"` followed by the decimal rendering of `n`: how an account is named
/// when only its session number is known.
pub open spec fn hash_number(n: nat) -> Seq<char> {
    seq!['#'] + decimal(n)
}

/// Renders `"#<n>"`.
pub fn hash_number_string(n: u64) -> (s: String)
    ensures
        s@ == hash_number(n as nat),
{
    let mut v: Vec<char> = Vec::new();
    v.push('#');
    push_decimal(&mut v, n);
    string_from_chars(&v)
}

/// ASCII letter or digit.
pub open spec fn ascii_alnum(c: char) -> bool {
    ('0' <= c <= '9') || ('a' <= c <= 'z') || ('A' <= c <= 'Z')
}

/// `char::is_ascii_alphanumeric`.
pub fn is_ascii_alnum(c: char) -> (b: bool)
    ensures
        b == ascii_alnum(c),
{
    ('0' <= c && c <= '9') || ('a' <= c && c <= 'z') || ('A' <= c && c <= 'Z')
}

/// Number of bytes of the UTF-8 encoding of `t`, which is what `str::len`
/// counts.
pub open spec fn utf8_len(t: Seq<char>) -> usize {
    encode_utf8(t).len() as usize
}

/// `str::len` of a string.
pub fn byte_len(s: &String) -> (n: usize)
    ensures
        n == utf8_len(s@),
{
    s.as_str().len()
}

} // verus!

verus! {

/// `char::is_alphanumeric`: whether `c` is alphabetic or numeric in the
/// Unicode tables of the standard library.
pub uninterp spec fn unicode_alphanumeric(c: char) -> bool;

/// `char::is_alphanumeric`: its result is only named; the Unicode tables
/// behind it are not stated.
#[verifier::external_body]
pub(crate) fn char_is_alphanumeric(c: char) -> (r: bool)
    ensures
        r == unicode_alphanumeric(c),
{
    c.is_alphanumeric()
}

/// The character classes that names on the wire are checked against.
#[derive(Debug, Clone, Copy, PartialEq, Eq)]
pub enum CharClass {
    /// ASCII letters and digits, `_` and `-`.
    Account,
    /// ASCII letters and digits and `_`.
    Handle,
    /// ASCII letters and digits.
    Alnum,
    /// Unicode letters and digits, `_`, `-` and space.
    HeroName,
    /// Printable ASCII and ASCII whitespace.
    Printable,
}

/// ASCII whitespace as `char::is_ascii_whitespace` has it.
pub open spec fn ascii_space(c: char) -> bool {
    c == ' ' || c == '\t' || c == '\n' || c == '\x0C' || c == '\r'
}

/// Membership in a character class.
pub open spec fn in_class(k: CharClass, c: char) -> bool {
    match k {
        CharClass::Account => ascii_alnum(c) || c == '_' || c == '-',
        CharClass::Handle => ascii_alnum(c) || c == '_',
        CharClass::Alnum => ascii_alnum(c),
        CharClass::HeroName => unicode_alphanumeric(c) || c == '_' || c == '-' || c == ' ',
        CharClass::Printable => ('!' <= c <= '~') || ascii_space(c),
    }
}

/// Whether every character of `t` is in the class.
pub open spec fn all_in_class(t: Seq<char>, k: CharClass) -> bool {
    forall|i: int| 0 <= i < t.len() ==> in_class(k, #[trigger] t[i])
}

/// Membership test for one character.
pub fn char_in_class(k: CharClass, c: char) -> (b: bool)
    ensures
        b == in_class(k, c),
{
    match k {
        CharClass::Account => is_ascii_alnum(c) || c == '_' || c == '-',
        CharClass::Handle => is_ascii_alnum(c) || c == '_',
        CharClass::Alnum => is_ascii_alnum(c),
        CharClass::HeroName => char_is_alphanumeric(c) || c == '_' || c == '-' || c == ' ',
        CharClass::Printable => ('!' <= c && c <= '~') || c == ' ' || c == '\t' || c == '\n'
            || c == '\x0C' || c == '\r',
    }
}

/// Whether every character of `s` is in the class.
pub fn all_chars_in(s: &String, k: CharClass) -> (b: bool)
    ensures
        b == all_in_class(s@, k),
{
    let t = s.as_str();
    let n = t.unicode_len();
    let mut i: usize = 0;
    while i < n
        invariant
            t@ == s@,
            n == s@.len(),
            i <= n,
            forall|j: int| 0 <= j < i ==> in_class(k, #[trigger] s@[j]),
        decreases n - i,
    {
        let c = t.get_char(i);
        if !char_in_class(k, c) {
            return false;
        }
        i = i + 1;
    }
    true
}

/// The UTF-16 code units of one character: the scalar value itself below
/// 0x10000, a surrogate pair above.
pub open spec fn char_utf16(c: char) -> Seq<u16> {
    let v = c as u32;
    if v < 0x10000 {
        seq![v as u16]
    } else {
        seq![(0xD800 + (v - 0x10000) / 1024) as u16, (0xDC00 + (v - 0x10000) % 1024) as u16]
    }
}

/// UTF-16 encoding of a text.
pub open spec fn utf16_encode(t: Seq<char>) -> Seq<u16>
    decreases t.len(),
{
    if t.len() == 0 {
        seq![]
    } else {
        char_utf16(t[0]) + utf16_encode(t.drop_first())
    }
}

/// Code units laid out little-endian, two bytes each.
pub open spec fn u16s_le(u: Seq<u16>) -> Seq<u8>
    decreases u.len(),
{
    if u.len() == 0 {
        seq![]
    } else {
        seq![(u[0] % 256) as u8, (u[0] / 256) as u8] + u16s_le(u.drop_first())
    }
}

/// Two bytes per code unit.
proof fn lemma_u16s_le_len(u: Seq<u16>)
    ensures
        u16s_le(u).len() == 2 * u.len(),
    decreases u.len(),
{
    if u.len() > 0 {
        lemma_u16s_le_len(u.drop_first());
    }
}

/// Scanning code units laid out little-endian, none of them zero and followed
/// by a zero unit, gives those units back and stops after the terminator.
proof fn lemma_scan_u16z_laid_out(s: Seq<u8>, p: int, u: Seq<u16>)
    requires
        0 <= p,
        p + 2 * u.len() + 2 <= s.len(),
        s.subrange(p, p + 2 * u.len()) == u16s_le(u),
        s[p + 2 * u.len()] == 0,
        s[p + 2 * u.len() + 1] == 0,
        forall|i: int| 0 <= i < u.len() ==> u[i] != 0,
    ensures
        scan_u16z(s, p) == (u, p + 2 * u.len() + 2, false),
    decreases u.len(),
{
    lemma_u16s_le_len(u);
    if u.len() == 0 {
        assert(le16(s, p) == 0);
        assert(u =~= seq![]);
    } else {
        let tail = u.drop_first();
        lemma_u16s_le_len(tail);
        let enc = u16s_le(u);
        assert(enc == seq![(u[0] % 256) as u8, (u[0] / 256) as u8] + u16s_le(tail));
        assert(s[p] == enc[0]);
        assert(s[p + 1] == enc[1]);
        assert(le16(s, p) == u[0]);
        assert(s.subrange(p + 2, p + 2 + 2 * tail.len()) =~= u16s_le(tail)) by {
            assert forall|i: int| 0 <= i < 2 * tail.len() implies
                s.subrange(p + 2, p + 2 + 2 * tail.len())[i] == u16s_le(tail)[i] by {
                assert(s.subrange(p, p + 2 * u.len())[i + 2] == s[p + 2 + i]);
                assert(enc[i + 2] == u16s_le(tail)[i]);
            }
        }
        lemma_scan_u16z_laid_out(s, p + 2, tail);
        assert(seq![le16(s, p) as u16] + tail =~= u);
    }
}

/// No character other than NUL has a zero code unit in its encoding.
proof fn lemma_utf16_encode_nonzero(t: Seq<char>)
    requires
        forall|i: int| 0 <= i < t.len() ==> t[i] != '\0',
    ensures
        forall|i: int| 0 <= i < utf16_encode(t).len() ==> utf16_encode(t)[i] != 0,
    decreases t.len(),
{
    if t.len() > 0 {
        let tail = t.drop_first();
        lemma_utf16_encode_nonzero(tail);
        let head = char_utf16(t[0]);
        let v = t[0] as u32;
        assert(v != 0) by {
            if v == 0 {
                char_u32_cast(t[0], v);
                assert(v as char == '\0');
            }
        }
        if v < 0x10000 {
            assert(head[0] == v);
        } else {
            char_is_scalar(t[0]);
            let w = v - 0x10000;
            assert(0 <= w < 0x100000);
            assert(0xD800 <= 0xD800 + w / 1024 < 0xDC00);
            assert(0xDC00 <= 0xDC00 + w % 1024 < 0xE000);
            assert(head[0] >= 0xD800 && head[1] >= 0xDC00);
        }
        assert forall|i: int| 0 <= i < utf16_encode(t).len() implies utf16_encode(t)[i] != 0 by {
            if i < head.len() {
                assert(utf16_encode(t)[i] == head[i]);
            } else {
                assert(utf16_encode(t)[i] == utf16_encode(tail)[i - head.len()]);
            }
        }
    }
}

/// UTF-16 decoding undoes UTF-16 encoding.
pub proof fn lemma_utf16_decode_encode(t: Seq<char>)
    ensures
        utf16_decode(utf16_encode(t)) == Some(t),
    decreases t.len(),
{
    if t.len() == 0 {
        assert(utf16_encode(t) =~= seq![]);
    } else {
        let tail = t.drop_first();
        lemma_utf16_decode_encode(tail);
        let u = utf16_encode(t);
        let c = t[0];
        let v = c as u32;
        char_is_scalar(c);
        char_u32_cast(c, v);
        assert(v as char == c);
        if v < 0x10000 {
            assert(u == seq![v as u16] + utf16_encode(tail));
            assert(u.drop_first() =~= utf16_encode(tail));
            assert(u[0] == v);
            assert(u[0] < 0xD800 || u[0] >= 0xE000);
            assert(u[0] as char == c);
            assert(seq![c] + tail =~= t);
        } else {
            let w = v - 0x10000;
            let hi = 0xD800 + w / 1024;
            let lo = 0xDC00 + w % 1024;
            assert(0 <= w < 0x100000);
            assert(0xD800 <= hi < 0xDC00);
            assert(0xDC00 <= lo < 0xE000);
            assert(u == seq![hi as u16, lo as u16] + utf16_encode(tail));
            assert(u.skip(2) =~= utf16_encode(tail));
            assert(u[0] == hi && u[1] == lo);
            assert(0x10000 + (hi - 0xD800) * 1024 + (lo - 0xDC00) == v);
            assert(0x10000 + (u[0] - 0xD800) * 1024 + (u[1] - 0xDC00) == v);
            assert((0x10000 + (u[0] - 0xD800) * 1024 + (u[1] - 0xDC00)) as char == c);
            assert(seq![c] + tail =~= t);
        }
    }
}

/// Reading back a written string (what `read_l2_string` of either protocol
/// does at the reader's position): a text with no NUL character, written as
/// UTF-16LE after any bytes `pre` and followed by a zero unit and any bytes
/// `rest`, reads back as that text, and the read ends just after the
/// terminator. A bounded read asks that the encoding have at most 1024 units.
pub proof fn lemma_utf16z_read_written(pre: Seq<u8>, t: Seq<char>, rest: Seq<u8>, bounded: bool)
    requires
        forall|i: int| 0 <= i < t.len() ==> t[i] != '\0',
        bounded ==> utf16_encode(t).len() <= 1024,
    ensures
        utf16z_read(pre + u16s_le(utf16_encode(t)) + seq![0u8, 0u8] + rest, pre.len() as int, bounded)
            == (Ok::<Seq<char>, ReadError>(t), (pre.len() + 2 * utf16_encode(t).len() + 2) as int),
{
    let u = utf16_encode(t);
    let enc = u16s_le(u);
    let s = pre + enc + seq![0u8, 0u8] + rest;
    let p = pre.len() as int;
    lemma_u16s_le_len(u);
    lemma_utf16_encode_nonzero(t);
    lemma_utf16_decode_encode(t);
    assert(s.subrange(p, p + 2 * u.len()) =~= enc);
    assert(s[p + 2 * u.len()] == 0);
    assert(s[p + 2 * u.len() + 1] == 0);
    lemma_scan_u16z_laid_out(s, p, u);
}

} // verus!
