//! Text handling around the wide-character Win32 API, and hexadecimal rendering.
//!
//! Windows takes and returns NUL-terminated UTF-16 buffers. Conversion towards Windows is
//! exact; conversion back is lossy on purpose: Windows filenames are not guaranteed to be
//! valid UTF-16 (lone surrogates are legal on NTFS), and a scan must not abort or silently
//! skip a file because its name is unusual. The replacement character makes such names
//! visible instead.

use vstd::prelude::*;
use vstd::std_specs::iter::IteratorSpec;

verus! {

/// `String::push`: appends one character to the end of the string.
#[verifier::external_body]
pub(crate) fn push_char(s: &mut String, c: char)
    ensures
        final(s)@ == old(s)@.push(c),
{
    s.push(c);
}

/// `String::from_utf16_lossy`: decodes UTF-16, replacing invalid data with U+FFFD.
///
/// The contract claims the decoding that std documents for it and for `char::decode_utf16`,
/// which yields one error per unpaired surrogate: a high surrogate followed by a low
/// surrogate is one supplementary character, any other surrogate is one replacement
/// character, and every other unit is the character of that value.
#[verifier::external_body]
fn from_utf16_lossy(units: &[u16]) -> (s: String)
    ensures
        s@ == decode_utf16_lossy(units@),
{
    String::from_utf16_lossy(units)
}

/// The lower-case hexadecimal digit for a value below 16.
pub open spec fn hex_digit(n: int) -> char {
    if n < 10 {
        (48 + n) as char
    } else {
        (87 + n) as char
    }
}

/// Bytes as lower-case hexadecimal, two digits per byte, most significant digit first.
pub open spec fn hex_lower(b: Seq<u8>) -> Seq<char>
    decreases b.len(),
{
    if b.len() == 0 {
        seq![]
    } else {
        hex_lower(b.drop_last()) + seq![hex_digit(b.last() as int / 16), hex_digit(b.last() as int % 16)]
    }
}

/// Hexadecimal rendering gives two characters per byte, the high digit first, each a
/// lower-case hexadecimal digit whose value is that nibble.
pub proof fn lemma_hex_lower_digits(b: Seq<u8>)
    ensures
        hex_lower(b).len() == 2 * b.len(),
        forall|i: int|
            0 <= i < b.len() ==> {
                let hi = #[trigger] hex_lower(b)[2 * i];
                let lo = hex_lower(b)[2 * i + 1];
                &&& (('0' <= hi <= '9' && hi as int - 48 == b[i] / 16) || ('a' <= hi <= 'f' && hi
                    as int - 87 == b[i] / 16))
                &&& (('0' <= lo <= '9' && lo as int - 48 == b[i] % 16) || ('a' <= lo <= 'f' && lo
                    as int - 87 == b[i] % 16))
            },
    decreases b.len(),
{
    if b.len() > 0 {
        let p = b.drop_last();
        lemma_hex_lower_digits(p);
        let h = hex_lower(b);
        let hp = hex_lower(p);
        assert forall|i: int| 0 <= i < b.len() implies {
            let hi = #[trigger] hex_lower(b)[2 * i];
            let lo = hex_lower(b)[2 * i + 1];
            &&& (('0' <= hi <= '9' && hi as int - 48 == b[i] / 16) || ('a' <= hi <= 'f' && hi
                as int - 87 == b[i] / 16))
            &&& (('0' <= lo <= '9' && lo as int - 48 == b[i] % 16) || ('a' <= lo <= 'f' && lo
                as int - 87 == b[i] % 16))
        } by {
            if i < p.len() {
                assert(h[2 * i] == hp[2 * i]);
                assert(h[2 * i + 1] == hp[2 * i + 1]);
                assert(p[i] == b[i]);
            } else {
                assert(h[2 * i] == hex_digit(b.last() as int / 16));
                assert(h[2 * i + 1] == hex_digit(b.last() as int % 16));
            }
        }
    }
}

fn hex_digit_char(n: u8) -> (c: char)
    requires
        n < 16,
    ensures
        c == hex_digit(n as int),
{
    if n < 10 {
        (48u8 + n) as char
    } else {
        (87u8 + n) as char
    }
}

/// Append the two hexadecimal digits of `b`.
pub(crate) fn push_hex_byte(s: &mut String, b: u8)
    ensures
        final(s)@ == old(s)@ + seq![hex_digit(b as int / 16), hex_digit(b as int % 16)],
{
    push_char(s, hex_digit_char(b / 16));
    push_char(s, hex_digit_char(b % 16));
}

/// Whether a UTF-16 unit is a high (leading) surrogate.
pub open spec fn is_high_surrogate(u: u16) -> bool {
    0xD800 <= u <= 0xDBFF
}

/// Whether a UTF-16 unit is a low (trailing) surrogate.
pub open spec fn is_low_surrogate(u: u16) -> bool {
    0xDC00 <= u <= 0xDFFF
}

/// The supplementary character a surrogate pair encodes.
pub open spec fn surrogate_pair_char(hi: u16, lo: u16) -> char {
    (0x10000 + (hi - 0xD800) * 0x400 + (lo - 0xDC00)) as char
}

/// The UTF-16 units of one character: itself below U+10000, a surrogate pair above.
pub open spec fn utf16_units(c: char) -> Seq<u16> {
    let v = c as int;
    if v < 0x10000 {
        seq![v as u16]
    } else {
        seq![(0xD800 + (v - 0x10000) / 0x400) as u16, (0xDC00 + (v - 0x10000) % 0x400) as u16]
    }
}

/// UTF-16 encoding of a character sequence.
pub open spec fn encode_utf16(s: Seq<char>) -> Seq<u16>
    decreases s.len(),
{
    if s.len() == 0 {
        seq![]
    } else {
        utf16_units(s[0]) + encode_utf16(s.skip(1))
    }
}

/// Lossy UTF-16 decoding: pairs become supplementary characters, unpaired surrogates become
/// U+FFFD, everything else the character of its value.
pub open spec fn decode_utf16_lossy(u: Seq<u16>) -> Seq<char>
    decreases u.len(),
{
    if u.len() == 0 {
        seq![]
    } else if is_high_surrogate(u[0]) && u.len() >= 2 && is_low_surrogate(u[1]) {
        seq![surrogate_pair_char(u[0], u[1])] + decode_utf16_lossy(u.skip(2))
    } else if is_high_surrogate(u[0]) || is_low_surrogate(u[0]) {
        seq!['\u{FFFD}'] + decode_utf16_lossy(u.skip(1))
    } else {
        seq![u[0] as char] + decode_utf16_lossy(u.skip(1))
    }
}

/// The units `from_wide` decodes: everything before the first NUL, or the whole buffer.
pub open spec fn before_nul(u: Seq<u16>) -> Seq<u16>
    decreases u.len(),
{
    if u.len() == 0 {
        seq![]
    } else if u[0] == 0 {
        seq![]
    } else {
        seq![u[0]] + before_nul(u.skip(1))
    }
}

/// A character's value is a Unicode scalar value.
proof fn lemma_char_range(c: char)
    ensures
        0 <= c as int <= 0x10FFFF,
        !(0xD800 <= c as int <= 0xDFFF),
{
}

/// Encoding one sequence after another is encoding their concatenation.
pub proof fn lemma_encode_concat(a: Seq<char>, b: Seq<char>)
    ensures
        encode_utf16(a + b) == encode_utf16(a) + encode_utf16(b),
    decreases a.len(),
{
    if a.len() == 0 {
        assert(a + b =~= b);
    } else {
        assert((a + b).skip(1) =~= a.skip(1) + b);
        lemma_encode_concat(a.skip(1), b);
        assert((a + b)[0] == a[0]);
    }
}

/// Decoding the units of one character yields that character, whatever follows.
pub proof fn lemma_decode_units(c: char, rest: Seq<u16>)
    ensures
        decode_utf16_lossy(utf16_units(c) + rest) == seq![c] + decode_utf16_lossy(rest),
{
    let v = c as int;
    let u = utf16_units(c) + rest;
    if v < 0x10000 {
        assert(u[0] == v as u16);
        assert(!(0xD800 <= v <= 0xDFFF));
        assert(u.skip(1) =~= rest);
        assert(u[0] as char == c);
    } else {
        let w = v - 0x10000;
        assert(w < 0x100000);
        assert(w == (w / 0x400) * 0x400 + w % 0x400) by (nonlinear_arith);
        assert(0 <= w % 0x400 < 0x400) by (nonlinear_arith);
        assert(w / 0x400 < 0x400) by (nonlinear_arith)
            requires
                0 <= w < 0x100000,
        ;
        assert(u[0] == (0xD800 + w / 0x400) as u16);
        assert(u[1] == (0xDC00 + w % 0x400) as u16);
        assert(u.skip(2) =~= rest);
        assert(surrogate_pair_char(u[0], u[1]) == c);
    }
}

/// Decoding the encoding of a character sequence gives the sequence back.
pub proof fn lemma_decode_encode(s: Seq<char>)
    ensures
        decode_utf16_lossy(encode_utf16(s)) == s,
    decreases s.len(),
{
    if s.len() > 0 {
        lemma_decode_encode(s.skip(1));
        lemma_decode_units(s[0], encode_utf16(s.skip(1)));
        assert(seq![s[0]] + s.skip(1) =~= s);
    }
}

/// A character other than NUL encodes to units none of which is zero.
pub proof fn lemma_encode_has_no_nul(s: Seq<char>)
    requires
        !s.contains('\0'),
    ensures
        !encode_utf16(s).contains(0u16),
    decreases s.len(),
{
    if s.len() > 0 {
        assert(!s.skip(1).contains('\0')) by {
            if s.skip(1).contains('\0') {
                let i = choose|i: int| 0 <= i < s.skip(1).len() && s.skip(1)[i] == '\0';
                assert(s[i + 1] == '\0');
            }
        }
        lemma_encode_has_no_nul(s.skip(1));
        assert(s[0] != '\0');
        let u = utf16_units(s[0]);
        assert(!u.contains(0u16)) by {
            let v = s[0] as int;
            lemma_char_range(s[0]);
            assert(v != 0);
            if v < 0x10000 {
                assert(u =~= seq![v as u16]);
                assert(v as u16 == v);
                assert(u[0] != 0u16);
            } else {
                assert(0 <= (v - 0x10000) / 0x400) by (nonlinear_arith)
                    requires
                        v >= 0x10000,
                ;
                assert(0 <= (v - 0x10000) % 0x400);
                assert(u[0] != 0u16);
                assert(u[1] != 0u16);
            }
            if u.contains(0u16) {
                let i = choose|i: int| 0 <= i < u.len() && u[i] == 0u16;
            }
        }
        let e = encode_utf16(s);
        assert(!e.contains(0u16)) by {
            if e.contains(0u16) {
                let i = choose|i: int| 0 <= i < e.len() && e[i] == 0u16;
                if i < u.len() {
                    assert(u[i] == 0u16);
                } else {
                    assert(encode_utf16(s.skip(1))[i - u.len()] == 0u16);
                }
            }
        }
    }
}

/// The units before the first NUL of a buffer that ends in its only NUL are all the others.
pub proof fn lemma_before_terminator(u: Seq<u16>)
    requires
        !u.contains(0u16),
    ensures
        before_nul(u.push(0u16)) == u,
    decreases u.len(),
{
    if u.len() > 0 {
        assert(!u.skip(1).contains(0u16)) by {
            if u.skip(1).contains(0u16) {
                let i = choose|i: int| 0 <= i < u.skip(1).len() && u.skip(1)[i] == 0u16;
                assert(u[i + 1] == 0u16);
            }
        }
        lemma_before_terminator(u.skip(1));
        assert(u.push(0u16).skip(1) =~= u.skip(1).push(0u16));
        assert(u[0] != 0u16) by {
            if u[0] == 0u16 {
                assert(u.contains(0u16));
            }
        }
        assert(seq![u[0]] + u.skip(1) =~= u);
    } else {
        assert(u.push(0u16) =~= seq![0u16]);
    }
}

/// A string without NUL characters survives the trip to a NUL-terminated UTF-16 buffer and
/// back unchanged.
pub proof fn lemma_wide_round_trip(s: Seq<char>)
    requires
        !s.contains('\0'),
    ensures
        decode_utf16_lossy(before_nul(encode_utf16(s).push(0u16))) == s,
{
    lemma_encode_has_no_nul(s);
    lemma_before_terminator(encode_utf16(s));
    lemma_decode_encode(s);
}

/// Append the UTF-16 units of one character.
fn push_units(w: &mut Vec<u16>, c: char)
    ensures
        final(w)@ == old(w)@ + utf16_units(c),
{
    let v = c as u32;
    assert(v as int == c as int);
    assert(v <= 0x10FFFF);
    if v < 0x10000 {
        w.push(v as u16);
        assert(utf16_units(c) =~= seq![v as u16]);
    } else {
        let x = v - 0x10000;
        assert(x / 0x400 < 0x400) by (nonlinear_arith)
            requires
                x < 0x100000,
        ;
        let hi = (0xD800 + x / 0x400) as u16;
        let lo = (0xDC00 + x % 0x400) as u16;
        w.push(hi);
        w.push(lo);
        assert(utf16_units(c) =~= seq![hi, lo]);
    }
}

/// Convert a string into a NUL-terminated UTF-16 buffer.
pub fn to_wide(s: &str) -> (w: Vec<u16>)
    ensures
        w@ == encode_utf16(s@).push(0u16),
{
    let mut w: Vec<u16> = Vec::new();
    let ghost mut done: Seq<char> = Seq::empty();
    let mut chars = s.chars();
    proof {
        broadcast use vstd::string::group_string_axioms;

        assert(encode_utf16(done) =~= Seq::<u16>::empty());
    }
    loop
        invariant
            w@ == encode_utf16(done),
            done + chars.remaining() == s@,
            chars.obeys_prophetic_iter_laws(),
            chars.decrease() is Some,
        ensures
            w@ == encode_utf16(s@),
        decreases chars.decrease()->0,
    {
        let ghost before = chars;
        match chars.next() {
            Some(c) => {
                proof {
                    broadcast use vstd::string::group_string_axioms;

                    lemma_encode_concat(done, seq![c]);
                    assert(done.push(c) =~= done + seq![c]);
                    assert(encode_utf16(seq![c]) =~= utf16_units(c)) by {
                        assert(seq![c].skip(1) =~= Seq::<char>::empty());
                        assert(encode_utf16(Seq::<char>::empty()) =~= Seq::<u16>::empty());
                    }
                    assert(done.push(c) + chars.remaining() =~= s@) by {
                        assert(before.remaining() =~= seq![c] + chars.remaining());
                    }
                    done = done.push(c);
                }
                push_units(&mut w, c);
            },
            None => {
                proof {
                    broadcast use vstd::string::group_string_axioms;

                    assert(done =~= s@);
                }
                break ;
            },
        }
    }
    w.push(0);
    w
}

/// The units before the first NUL are the prefix up to that NUL.
proof fn lemma_before_nul_prefix(u: Seq<u16>, end: int)
    requires
        0 <= end <= u.len(),
        forall|j: int| 0 <= j < end ==> u[j] != 0u16,
        end == u.len() || u[end] == 0u16,
    ensures
        before_nul(u) == u.take(end),
    decreases u.len(),
{
    if u.len() > 0 {
        if end == 0 {
            assert(u.take(0) =~= Seq::<u16>::empty());
        } else {
            let t = u.skip(1);
            assert forall|j: int| 0 <= j < end - 1 implies t[j] != 0u16 by {
                assert(t[j] == u[j + 1]);
            }
            lemma_before_nul_prefix(t, end - 1);
            assert(seq![u[0]] + t.take(end - 1) =~= u.take(end));
        }
    }
}

/// Convert a NUL-terminated UTF-16 buffer back into a string: the units before the first NUL,
/// or the whole buffer when there is none, decoded lossily.
pub fn from_wide(buf: &[u16]) -> (s: String)
    ensures
        s@ == decode_utf16_lossy(before_nul(buf@)),
{
    let mut end: usize = 0;
    while end < buf.len() && buf[end] != 0
        invariant
            end <= buf@.len(),
            forall|j: int| 0 <= j < end ==> buf@[j] != 0u16,
        decreases buf@.len() - end,
    {
        end = end + 1;
    }
    proof {
        lemma_before_nul_prefix(buf@, end as int);
    }
    let (head, _) = buf.split_at(end);
    assert(head@ =~= buf@.take(end as int));
    from_utf16_lossy(head)
}

} // verus!
