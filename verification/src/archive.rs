//! The byte-level archive: little-endian integer layouts, the
//! length-prefixed string layout, and the reader and writer over an
//! in-memory byte buffer.
//!
//! Every layout is defined twice: a specification function gives the
//! exact byte sequence (`..._le_bytes`, `enc_...`) or the exact parse
//! (`dec_...`), and the executable reader and writer are proved to match
//! those functions bit for bit.

use vstd::prelude::*;
use crate::error::Error;
use crate::types::Guid;
use vstd::utf8::is_ascii_chars;

verus! {

// ------------------------------------------------------------------
// Little-endian layouts of the fixed-width integers
// ------------------------------------------------------------------

/// The two little-endian bytes of a 16-bit value.
pub open spec fn u16_le_bytes(x: u16) -> Seq<u8> {
    seq![(x & 0xff) as u8, ((x >> 8) & 0xff) as u8]
}

/// The four little-endian bytes of a 32-bit value.
pub open spec fn u32_le_bytes(x: u32) -> Seq<u8> {
    seq![
        (x & 0xff) as u8,
        ((x >> 8) & 0xff) as u8,
        ((x >> 16) & 0xff) as u8,
        ((x >> 24) & 0xff) as u8,
    ]
}

/// The eight little-endian bytes of a 64-bit value.
pub open spec fn u64_le_bytes(x: u64) -> Seq<u8> {
    seq![
        (x & 0xff) as u8,
        ((x >> 8) & 0xff) as u8,
        ((x >> 16) & 0xff) as u8,
        ((x >> 24) & 0xff) as u8,
        ((x >> 32) & 0xff) as u8,
        ((x >> 40) & 0xff) as u8,
        ((x >> 48) & 0xff) as u8,
        ((x >> 56) & 0xff) as u8,
    ]
}

/// The 16-bit value with the given little-endian bytes.
pub open spec fn u16_from_le(b0: u8, b1: u8) -> u16 {
    (b0 as u16) | ((b1 as u16) << 8)
}

/// The 32-bit value with the given little-endian bytes.
pub open spec fn u32_from_le(b0: u8, b1: u8, b2: u8, b3: u8) -> u32 {
    (b0 as u32) | ((b1 as u32) << 8) | ((b2 as u32) << 16) | ((b3 as u32) << 24)
}

/// The 64-bit value with the given little-endian bytes.
pub open spec fn u64_from_le(
    b0: u8,
    b1: u8,
    b2: u8,
    b3: u8,
    b4: u8,
    b5: u8,
    b6: u8,
    b7: u8,
) -> u64 {
    (b0 as u64) | ((b1 as u64) << 8) | ((b2 as u64) << 16) | ((b3 as u64) << 24) | ((b4 as u64)
        << 32) | ((b5 as u64) << 40) | ((b6 as u64) << 48) | ((b7 as u64) << 56)
}

/// Reading back the two little-endian bytes of a 16-bit value gives the
/// value.
pub proof fn lemma_u16_le_roundtrip(x: u16)
    ensures
        u16_from_le(u16_le_bytes(x)[0], u16_le_bytes(x)[1]) == x,
{
    assert(((x & 0xff) as u8) as u16 | ((((x >> 8) & 0xff) as u8) as u16) << 8 == x)
        by (bit_vector);
}

/// Reading back the four little-endian bytes of a 32-bit value gives the
/// value.
pub proof fn lemma_u32_le_roundtrip(x: u32)
    ensures
        u32_from_le(
            u32_le_bytes(x)[0],
            u32_le_bytes(x)[1],
            u32_le_bytes(x)[2],
            u32_le_bytes(x)[3],
        ) == x,
{
    assert(((x & 0xff) as u8) as u32 | ((((x >> 8) & 0xff) as u8) as u32) << 8 | ((((x >> 16)
        & 0xff) as u8) as u32) << 16 | ((((x >> 24) & 0xff) as u8) as u32) << 24 == x)
        by (bit_vector);
}

/// Reading back the eight little-endian bytes of a 64-bit value gives
/// the value.
pub proof fn lemma_u64_le_roundtrip(x: u64)
    ensures
        u64_from_le(
            u64_le_bytes(x)[0],
            u64_le_bytes(x)[1],
            u64_le_bytes(x)[2],
            u64_le_bytes(x)[3],
            u64_le_bytes(x)[4],
            u64_le_bytes(x)[5],
            u64_le_bytes(x)[6],
            u64_le_bytes(x)[7],
        ) == x,
{
    assert(((x & 0xff) as u8) as u64 | ((((x >> 8) & 0xff) as u8) as u64) << 8 | ((((x >> 16)
        & 0xff) as u8) as u64) << 16 | ((((x >> 24) & 0xff) as u8) as u64) << 24 | ((((x >> 32)
        & 0xff) as u8) as u64) << 32 | ((((x >> 40) & 0xff) as u8) as u64) << 40 | ((((x >> 48)
        & 0xff) as u8) as u64) << 48 | ((((x >> 56) & 0xff) as u8) as u64) << 56 == x)
        by (bit_vector);
}

// ------------------------------------------------------------------
// Parse combinators over a byte sequence
// ------------------------------------------------------------------

/// Parses one byte at `pos`; fails on a truncated input.
pub open spec fn dec_u8(b: Seq<u8>, pos: int) -> Option<(u8, int)> {
    if 0 <= pos && pos + 1 <= b.len() {
        Some((b[pos], pos + 1))
    } else {
        None
    }
}

/// Parses a little-endian 16-bit value at `pos`.
pub open spec fn dec_u16(b: Seq<u8>, pos: int) -> Option<(u16, int)> {
    if 0 <= pos && pos + 2 <= b.len() {
        Some((u16_from_le(b[pos], b[pos + 1]), pos + 2))
    } else {
        None
    }
}

/// Parses a little-endian 32-bit value at `pos`.
pub open spec fn dec_u32(b: Seq<u8>, pos: int) -> Option<(u32, int)> {
    if 0 <= pos && pos + 4 <= b.len() {
        Some((u32_from_le(b[pos], b[pos + 1], b[pos + 2], b[pos + 3]), pos + 4))
    } else {
        None
    }
}

/// Parses a little-endian 64-bit value at `pos`.
pub open spec fn dec_u64(b: Seq<u8>, pos: int) -> Option<(u64, int)> {
    if 0 <= pos && pos + 8 <= b.len() {
        Some(
            (
                u64_from_le(
                    b[pos],
                    b[pos + 1],
                    b[pos + 2],
                    b[pos + 3],
                    b[pos + 4],
                    b[pos + 5],
                    b[pos + 6],
                    b[pos + 7],
                ),
                pos + 8,
            ),
        )
    } else {
        None
    }
}

/// Parses a little-endian signed 32-bit value at `pos`.
pub open spec fn dec_i32(b: Seq<u8>, pos: int) -> Option<(i32, int)> {
    match dec_u32(b, pos) {
        Some((w, p)) => Some(((w as i32), p)),
        None => None,
    }
}

/// Parses a little-endian signed 64-bit value at `pos`.
pub open spec fn dec_i64(b: Seq<u8>, pos: int) -> Option<(i64, int)> {
    match dec_u64(b, pos) {
        Some((w, p)) => Some(((w as i64), p)),
        None => None,
    }
}

/// Parses a 128-bit identifier: four little-endian 32-bit words.
pub open spec fn dec_guid(b: Seq<u8>, pos: int) -> Option<(Guid, int)> {
    if 0 <= pos && pos + 16 <= b.len() {
        let a = u32_from_le(b[pos], b[pos + 1], b[pos + 2], b[pos + 3]);
        let b2 = u32_from_le(b[pos + 4], b[pos + 5], b[pos + 6], b[pos + 7]);
        let c = u32_from_le(b[pos + 8], b[pos + 9], b[pos + 10], b[pos + 11]);
        let d = u32_from_le(b[pos + 12], b[pos + 13], b[pos + 14], b[pos + 15]);
        Some((Guid { a, b: b2, c, d }, pos + 16))
    } else {
        None
    }
}

/// The byte layout of a 128-bit identifier.
pub open spec fn enc_guid(g: Guid) -> Seq<u8> {
    u32_le_bytes(g.a) + u32_le_bytes(g.b) + u32_le_bytes(g.c) + u32_le_bytes(g.d)
}

// ------------------------------------------------------------------
// The length-prefixed string layout
// ------------------------------------------------------------------

/// The UTF-16 code units of one character: one unit for a basic-plane
/// character, a surrogate pair for the rest.
pub open spec fn units_of_char(c: char) -> Seq<u16> {
    if (c as u32) < 0x10000 {
        seq![((c as u32) as u16)]
    } else {
        seq![
            (0xD800 + (((c as u32) - 0x10000) / 0x400)) as u16,
            (0xDC00 + (((c as u32) - 0x10000) % 0x400)) as u16,
        ]
    }
}

/// The UTF-16 code units of a character sequence.
pub open spec fn utf16_units(s: Seq<char>) -> Seq<u16>
    decreases s.len(),
{
    if s.len() == 0 {
        Seq::empty()
    } else {
        units_of_char(s[0]) + utf16_units(s.drop_first())
    }
}

/// Appending a character appends its code units.
pub proof fn lemma_utf16_units_push(s: Seq<char>, c: char)
    ensures
        utf16_units(s.push(c)) == utf16_units(s) + units_of_char(c),
    decreases s.len(),
{
    if s.len() == 0 {
        assert(s.push(c).drop_first() =~= Seq::<char>::empty());
        assert(s.push(c)[0] == c);
        assert(utf16_units(Seq::<char>::empty()) == Seq::<u16>::empty());
        assert(utf16_units(s.push(c)) == units_of_char(c) + Seq::<u16>::empty());
        assert(units_of_char(c) + Seq::<u16>::empty() =~= utf16_units(s) + units_of_char(c));
    } else {
        assert(s.push(c).drop_first() =~= s.drop_first().push(c));
        lemma_utf16_units_push(s.drop_first(), c);
        assert(s.push(c)[0] == s[0]);
        assert(utf16_units(s.push(c)) == units_of_char(s[0]) + utf16_units(s.drop_first().push(c)));
        assert((units_of_char(s[0]) + (utf16_units(s.drop_first()) + units_of_char(c))) =~= (
        units_of_char(s[0]) + utf16_units(s.drop_first())) + units_of_char(c));
    }
}

/// The little-endian bytes of a sequence of 16-bit units.
pub open spec fn u16s_le_bytes(us: Seq<u16>) -> Seq<u8>
    decreases us.len(),
{
    if us.len() == 0 {
        Seq::empty()
    } else {
        u16_le_bytes(us[0]) + u16s_le_bytes(us.drop_first())
    }
}

/// The byte run of a unit sequence has twice its length, and each unit's
/// bytes stand at the doubled offset.
pub proof fn lemma_u16s_le_bytes_index(us: Seq<u16>)
    ensures
        u16s_le_bytes(us).len() == 2 * us.len(),
        forall|i: int|
            0 <= i < us.len() ==> u16s_le_bytes(us)[2 * i] == u16_le_bytes(us[i])[0]
                && u16s_le_bytes(us)[2 * i + 1] == u16_le_bytes(us[i])[1],
    decreases us.len(),
{
    if us.len() > 0 {
        lemma_u16s_le_bytes_index(us.drop_first());
        assert forall|i: int| 0 <= i < us.len() implies u16s_le_bytes(us)[2 * i] == u16_le_bytes(
            us[i],
        )[0] && u16s_le_bytes(us)[2 * i + 1] == u16_le_bytes(us[i])[1] by {
            if i > 0 {
                assert(us.drop_first()[i - 1] == us[i]);
                assert(u16s_le_bytes(us)[2 * i] == u16s_le_bytes(us.drop_first())[2 * (i - 1)]);
                assert(u16s_le_bytes(us)[2 * i + 1] == u16s_le_bytes(us.drop_first())[2 * (i - 1)
                    + 1]);
            }
        }
    }
}

/// Appending a unit appends its two bytes.
pub proof fn lemma_u16s_le_bytes_push(us: Seq<u16>, u: u16)
    ensures
        u16s_le_bytes(us.push(u)) == u16s_le_bytes(us) + u16_le_bytes(u),
    decreases us.len(),
{
    if us.len() == 0 {
        assert(us.push(u).drop_first() =~= Seq::<u16>::empty());
        assert(us.push(u)[0] == u);
        assert(u16s_le_bytes(Seq::<u16>::empty()) == Seq::<u8>::empty());
        assert(u16s_le_bytes(us.push(u)) == u16_le_bytes(u) + Seq::<u8>::empty());
        assert(u16_le_bytes(u) + Seq::<u8>::empty() =~= u16s_le_bytes(us) + u16_le_bytes(u));
    } else {
        assert(us.push(u).drop_first() =~= us.drop_first().push(u));
        lemma_u16s_le_bytes_push(us.drop_first(), u);
        assert(us.push(u)[0] == us[0]);
        assert(u16s_le_bytes(us.push(u)) == u16_le_bytes(us[0]) + u16s_le_bytes(
            us.drop_first().push(u),
        ));
        assert((u16_le_bytes(us[0]) + (u16s_le_bytes(us.drop_first()) + u16_le_bytes(u))) =~= (
        u16_le_bytes(us[0]) + u16s_le_bytes(us.drop_first())) + u16_le_bytes(u));
    }
}

/// The ASCII bytes of a character sequence, one byte per character.
pub open spec fn ascii_bytes(s: Seq<char>) -> Seq<u8> {
    Seq::new(s.len(), |i: int| (s[i] as u32) as u8)
}

/// The byte layout of a length-prefixed string.
///
/// The empty string is a zero length word alone. A string of ASCII
/// characters is its length plus one (for the trailing NUL byte) as a
/// positive 32-bit count, the bytes, and the NUL. Any other string is
/// the negated count of its UTF-16 code units plus one, the units in
/// little-endian order, and a NUL unit.
pub open spec fn enc_fstr(s: Seq<char>) -> Seq<u8> {
    if s.len() == 0 {
        u32_le_bytes(0)
    } else if is_ascii_chars(s) {
        u32_le_bytes((s.len() + 1) as u32) + ascii_bytes(s) + seq![0u8]
    } else {
        u32_le_bytes(((-(utf16_units(s).len() as int + 1)) as i32) as u32) + u16s_le_bytes(
            utf16_units(s),
        ) + seq![0u8, 0u8]
    }
}

/// True when a string fits the length prefix of the layout.
pub open spec fn fstr_len_ok(s: Seq<char>) -> bool {
    s.len() < 0x4000_0000
}

/// Decodes UTF-16 code units into characters; fails on a lone or
/// misplaced surrogate.
pub open spec fn dec_units(us: Seq<u16>) -> Option<Seq<char>>
    decreases us.len(),
{
    if us.len() == 0 {
        Some(Seq::empty())
    } else {
        let u = us[0];
        if u < 0xD800 || u >= 0xE000 {
            match dec_units(us.drop_first()) {
                Some(rest) => Some(seq![((u as u32) as char)] + rest),
                None => None,
            }
        } else if u < 0xDC00 {
            if us.len() >= 2 && 0xDC00 <= us[1] && us[1] < 0xE000 {
                let cp = (0x10000 + ((u - 0xD800) as int) * 0x400 + ((us[1] - 0xDC00) as int))
                    as u32;
                match dec_units(us.skip(2)) {
                    Some(rest) => Some(seq![(cp as char)] + rest),
                    None => None,
                }
            } else {
                None
            }
        } else {
            None
        }
    }
}

/// The 16-bit units standing at `p`, `m` of them, little-endian.
pub open spec fn units_at(b: Seq<u8>, p: int, m: int) -> Seq<u16> {
    Seq::new(m as nat, |i: int| u16_from_le(b[p + 2 * i], b[p + 2 * i + 1]))
}

/// The characters of `n` ASCII bytes standing at `p`.
pub open spec fn ascii_chars_at(b: Seq<u8>, p: int, n: int) -> Seq<char> {
    Seq::new(n as nat, |i: int| ((b[p + i] as u32) as char))
}

/// Parses a length-prefixed string at `pos`.
///
/// A zero length gives the empty string. A positive length `n` takes
/// `n` bytes that must end in NUL and hold ASCII before it. A negative
/// length takes that many 16-bit units, NUL-terminated, decoded as
/// UTF-16.
pub open spec fn dec_fstr(b: Seq<u8>, pos: int) -> Option<(Seq<char>, int)> {
    match dec_u32(b, pos) {
        None => None,
        Some((w, p1)) => {
            let n = w as i32;
            if n == 0 {
                Some((Seq::empty(), p1))
            } else if n > 0 {
                if p1 + n <= b.len() {
                    if b[p1 + n - 1] == 0 && (forall|i: int|
                        p1 <= i < p1 + n - 1 ==> b[i] < 128) {
                        Some((ascii_chars_at(b, p1, n - 1), p1 + n))
                    } else {
                        None
                    }
                } else {
                    None
                }
            } else {
                let m = -(n as int);
                if p1 + 2 * m <= b.len() {
                    let units = units_at(b, p1, m as int);
                    if units[m - 1] == 0 {
                        match dec_units(units.take(m - 1)) {
                            Some(chars) => Some((chars, p1 + 2 * m)),
                            None => None,
                        }
                    } else {
                        None
                    }
                } else {
                    None
                }
            }
        },
    }
}

// ------------------------------------------------------------------
// Round-trip lemmas for the string layout
// ------------------------------------------------------------------

/// A character sequence takes at most two code units per character.
pub proof fn lemma_utf16_units_len(s: Seq<char>)
    ensures
        utf16_units(s).len() <= 2 * s.len(),
    decreases s.len(),
{
    if s.len() > 0 {
        lemma_utf16_units_len(s.drop_first());
    }
}

/// Decoding the code units of a character sequence gives the sequence
/// back.
pub proof fn lemma_dec_units_roundtrip(s: Seq<char>)
    ensures
        dec_units(utf16_units(s)) == Some(s),
    decreases s.len(),
{
    if s.len() == 0 {
    } else {
        let c = s[0];
        vstd::utf8::char_is_scalar(c);
        lemma_dec_units_roundtrip(s.drop_first());
        let us = utf16_units(s);
        let rest = utf16_units(s.drop_first());
        assert(us == units_of_char(c) + rest);
        if (c as u32) < 0x10000 {
            let x = c as u32;
            let u = (x as u16);
            assert(us[0] == u);
            assert(us.drop_first() =~= rest);
            assert(u as u32 == x) by (bit_vector)
                requires
                    u == (x as u16) && x < 0x10000,
            ;
            assert(!(0xD800 <= (c as u32) && (c as u32) < 0xE000));
            assert(u < 0xD800 || u >= 0xE000);
            vstd::utf8::char_u32_cast(c, u as u32);
            assert(((u as u32) as char) == c);
            assert(seq![c] + s.drop_first() =~= s);
        } else {
            let d = (c as u32) - 0x10000;
            assert(0 <= d && d <= 0xFFFFF);
            assert(d / 0x400 <= 0x3FF && d % 0x400 < 0x400) by (nonlinear_arith)
                requires
                    0 <= d && d <= 0xFFFFF,
            ;
            let hi = (0xD800 + (d / 0x400)) as u16;
            let lo = (0xDC00 + (d % 0x400)) as u16;
            assert(us[0] == hi && us[1] == lo);
            assert(us.len() >= 2);
            assert(0xD800 <= hi && hi < 0xDC00);
            assert(0xDC00 <= lo && lo < 0xE000);
            assert(us.skip(2) =~= rest);
            let cp = (0x10000 + ((hi - 0xD800) as int) * 0x400 + ((lo - 0xDC00) as int)) as u32;
            assert((d / 0x400) * 0x400 + d % 0x400 == d) by (nonlinear_arith)
                requires
                    0 <= d,
            ;
            assert(cp == c as u32);
            vstd::utf8::char_u32_cast(c, cp);
            assert((cp as char) == c);
            assert(seq![c] + s.drop_first() =~= s);
        }
    }
}

/// Parsing an encoded string embedded in a larger buffer gives the
/// string back and stops right after it.
pub proof fn lemma_dec_fstr_roundtrip(b: Seq<u8>, pos: int, s: Seq<char>)
    requires
        fstr_len_ok(s),
        0 <= pos,
        pos + enc_fstr(s).len() <= b.len(),
        b.subrange(pos, pos + enc_fstr(s).len()) == enc_fstr(s),
    ensures
        dec_fstr(b, pos) == Some((s, pos + enc_fstr(s).len())),
{
    let e = enc_fstr(s);
    assert forall|i: int| 0 <= i < e.len() implies b[pos + i] == e[i] by {
        assert(b.subrange(pos, pos + e.len())[i] == b[pos + i]);
    }
    if s.len() == 0 {
        lemma_u32_le_roundtrip(0);
        assert(dec_u32(b, pos) == Some((0u32, pos + 4)));
    } else if is_ascii_chars(s) {
        let n = (s.len() + 1) as u32;
        lemma_u32_le_roundtrip(n);
        assert(e.len() == 4 + s.len() + 1) by {
            assert(ascii_bytes(s).len() == s.len());
        }
        assert(b[pos + 0] == e[0] && b[pos + 1] == e[1] && b[pos + 2] == e[2] && b[pos + 3]
            == e[3]);
        assert(e[0] == u32_le_bytes(n)[0] && e[1] == u32_le_bytes(n)[1] && e[2] == u32_le_bytes(
            n,
        )[2] && e[3] == u32_le_bytes(n)[3]);
        assert(dec_u32(b, pos) == Some((n, pos + 4)));
        assert(n as i32 == s.len() + 1) by {
            assert(n < 0x80000000u32);
        }
        let p1 = pos + 4;
        let ni = s.len() + 1;
        assert forall|i: int| 0 <= i < s.len() implies b[p1 + i] == ascii_bytes(s)[i] by {
            assert(e[4 + i] == ascii_bytes(s)[i]);
        }
        assert(b[p1 + ni - 1] == e[4 + s.len() as int]);
        assert(e[4 + s.len() as int] == 0);
        assert forall|i: int| p1 <= i < p1 + ni - 1 implies b[i] < 128 by {
            let k = i - p1;
            assert(b[i] == ascii_bytes(s)[k]);
            assert('\0' <= s[k] && s[k] <= '\u{7f}');
            assert((s[k] as u32) < 128);
        }
        let chars = ascii_chars_at(b, p1, ni - 1);
        assert forall|i: int| 0 <= i < s.len() implies chars[i] == s[i] by {
            assert(ascii_bytes(s)[i] == (s[i] as u32) as u8);
            assert(b[p1 + i] == ascii_bytes(s)[i]);
            assert('\0' <= s[i] && s[i] <= '\u{7f}');
            assert((s[i] as u32) < 128);
            assert((b[p1 + i] as u32) == s[i] as u32);
            vstd::utf8::char_u32_cast(s[i], s[i] as u32);
        }
        assert(chars =~= s);
    } else {
        let us = utf16_units(s);
        lemma_utf16_units_len(s);
        let m = us.len() + 1;
        assert(m <= 0x7fff_ffff);
        let x = (-(us.len() as int + 1)) as i32;
        assert(x == -(m));
        let w = x as u32;
        lemma_u32_le_roundtrip(w);
        lemma_u16s_le_bytes_index(us);
        assert(e.len() == 4 + 2 * us.len() + 2);
        assert(b[pos + 0] == e[0] && b[pos + 1] == e[1] && b[pos + 2] == e[2] && b[pos + 3]
            == e[3]);
        assert(e[0] == u32_le_bytes(w)[0] && e[1] == u32_le_bytes(w)[1] && e[2] == u32_le_bytes(
            w,
        )[2] && e[3] == u32_le_bytes(w)[3]);
        assert(dec_u32(b, pos) == Some((w, pos + 4)));
        assert((x as u32) as i32 == x) by (bit_vector);
        let n = w as i32;
        let p1 = pos + 4;
        assert(-(n as int) == m);
        assert(p1 + 2 * m <= b.len());
        let units = units_at(b, p1, m as int);
        assert forall|i: int| 0 <= i < us.len() implies units[i] == us[i] by {
            assert(e[4 + 2 * i] == u16s_le_bytes(us)[2 * i]);
            assert(e[4 + 2 * i + 1] == u16s_le_bytes(us)[2 * i + 1]);
            assert(b[p1 + 2 * i] == u16_le_bytes(us[i])[0]);
            assert(b[p1 + 2 * i + 1] == u16_le_bytes(us[i])[1]);
            lemma_u16_le_roundtrip(us[i]);
        }
        assert(units[m - 1] == 0) by {
            assert(e[4 + 2 * us.len() as int] == 0 && e[4 + 2 * us.len() as int + 1] == 0);
            assert(b[p1 + 2 * (m - 1)] == 0 && b[p1 + 2 * (m - 1) + 1] == 0);
            assert(u16_from_le(0, 0) == 0) by (bit_vector);
        }
        assert(units.take(m - 1) =~= us);
        lemma_dec_units_roundtrip(s);
    }
}

// ------------------------------------------------------------------
// The reader
// ------------------------------------------------------------------

/// What a reader or writer is for: the archive kinds of the format.
#[derive(Debug, Clone, Copy, PartialEq, Eq, Hash, Structural)]
pub enum ArchiveType {
    /// A raw byte stream.
    Raw,
    /// A package file.
    UAsset,
    /// A type-mapping file.
    Usmap,
}

/// A positioned reader over an in-memory byte buffer.
pub struct BinaryArchive {
    data: Vec<u8>,
    pos: usize,
}

impl BinaryArchive {
    /// The bytes the reader walks over.
    pub closed spec fn bytes(&self) -> Seq<u8> {
        self.data@
    }

    /// The current read position.
    pub closed spec fn position(&self) -> int {
        self.pos as int
    }

    /// The position never passes the end of the buffer.
    pub open spec fn wf(&self) -> bool {
        self.position() <= self.bytes().len()
    }

    /// A reader standing at the start of the given bytes.
    pub fn new(data: Vec<u8>) -> (r: Self)
        ensures
            r.bytes() == data@,
            r.position() == 0,
            r.wf(),
    {
        BinaryArchive { data, pos: 0 }
    }

    /// The current read position.
    pub fn tell(&self) -> (r: usize)
        ensures
            r == self.position(),
    {
        self.pos
    }

    /// The total number of bytes.
    pub fn size(&self) -> (r: usize)
        ensures
            r == self.bytes().len(),
    {
        self.data.len()
    }

    /// Moves the read position.
    pub fn seek(&mut self, pos: usize)
        requires
            pos <= old(self).bytes().len(),
        ensures
            final(self).wf(),
            final(self).bytes() == old(self).bytes(),
            final(self).position() == pos,
    {
        self.pos = pos;
    }

    /// The number of bytes left to read.
    pub fn remaining(&self) -> (r: usize)
        requires
            self.wf(),
        ensures
            r == self.bytes().len() - self.position(),
    {
        self.data.len() - self.pos
    }

    /// Reads one byte.
    pub fn read_u8(&mut self) -> (r: Result<u8, Error>)
        requires
            old(self).wf(),
        ensures
            final(self).wf(),
            final(self).bytes() == old(self).bytes(),
            match dec_u8(old(self).bytes(), old(self).position()) {
                Some(p) => r matches Ok(v) && v == p.0 && final(self).position() == p.1,
                None => r == Err::<u8, Error>(Error::NoData) && final(self).position() == old(
                    self,
                ).position(),
            },
    {
        if self.pos < self.data.len() {
            let v = self.data[self.pos];
            self.pos = self.pos + 1;
            Ok(v)
        } else {
            Err(Error::NoData)
        }
    }

    /// Reads a little-endian 16-bit value.
    pub fn read_u16(&mut self) -> (r: Result<u16, Error>)
        requires
            old(self).wf(),
        ensures
            final(self).wf(),
            final(self).bytes() == old(self).bytes(),
            match dec_u16(old(self).bytes(), old(self).position()) {
                Some(p) => r matches Ok(v) && v == p.0 && final(self).position() == p.1,
                None => r == Err::<u16, Error>(Error::NoData) && final(self).position() == old(
                    self,
                ).position(),
            },
    {
        if self.data.len() - self.pos >= 2 {
            let b0 = self.data[self.pos];
            let b1 = self.data[self.pos + 1];
            self.pos = self.pos + 2;
            Ok((b0 as u16) | ((b1 as u16) << 8))
        } else {
            Err(Error::NoData)
        }
    }

    /// Reads a little-endian 32-bit value.
    pub fn read_u32(&mut self) -> (r: Result<u32, Error>)
        requires
            old(self).wf(),
        ensures
            final(self).wf(),
            final(self).bytes() == old(self).bytes(),
            match dec_u32(old(self).bytes(), old(self).position()) {
                Some(p) => r matches Ok(v) && v == p.0 && final(self).position() == p.1,
                None => r == Err::<u32, Error>(Error::NoData) && final(self).position() == old(
                    self,
                ).position(),
            },
    {
        if self.data.len() - self.pos >= 4 {
            let b0 = self.data[self.pos];
            let b1 = self.data[self.pos + 1];
            let b2 = self.data[self.pos + 2];
            let b3 = self.data[self.pos + 3];
            self.pos = self.pos + 4;
            Ok((b0 as u32) | ((b1 as u32) << 8) | ((b2 as u32) << 16) | ((b3 as u32) << 24))
        } else {
            Err(Error::NoData)
        }
    }

    /// Reads a little-endian 64-bit value.
    pub fn read_u64(&mut self) -> (r: Result<u64, Error>)
        requires
            old(self).wf(),
        ensures
            final(self).wf(),
            final(self).bytes() == old(self).bytes(),
            match dec_u64(old(self).bytes(), old(self).position()) {
                Some(p) => r matches Ok(v) && v == p.0 && final(self).position() == p.1,
                None => r == Err::<u64, Error>(Error::NoData) && final(self).position() == old(
                    self,
                ).position(),
            },
    {
        if self.data.len() - self.pos >= 8 {
            let b0 = self.data[self.pos];
            let b1 = self.data[self.pos + 1];
            let b2 = self.data[self.pos + 2];
            let b3 = self.data[self.pos + 3];
            let b4 = self.data[self.pos + 4];
            let b5 = self.data[self.pos + 5];
            let b6 = self.data[self.pos + 6];
            let b7 = self.data[self.pos + 7];
            self.pos = self.pos + 8;
            Ok(
                (b0 as u64) | ((b1 as u64) << 8) | ((b2 as u64) << 16) | ((b3 as u64) << 24) | ((
                b4 as u64) << 32) | ((b5 as u64) << 40) | ((b6 as u64) << 48) | ((b7 as u64)
                    << 56),
            )
        } else {
            Err(Error::NoData)
        }
    }

    /// Reads a little-endian signed 32-bit value.
    pub fn read_i32(&mut self) -> (r: Result<i32, Error>)
        requires
            old(self).wf(),
        ensures
            final(self).wf(),
            final(self).bytes() == old(self).bytes(),
            match dec_i32(old(self).bytes(), old(self).position()) {
                Some(p) => r matches Ok(v) && v == p.0 && final(self).position() == p.1,
                None => r == Err::<i32, Error>(Error::NoData) && final(self).position() == old(
                    self,
                ).position(),
            },
    {
        match self.read_u32() {
            Ok(w) => Ok(w as i32),
            Err(e) => Err(e),
        }
    }

    /// Reads a little-endian signed 64-bit value.
    pub fn read_i64(&mut self) -> (r: Result<i64, Error>)
        requires
            old(self).wf(),
        ensures
            final(self).wf(),
            final(self).bytes() == old(self).bytes(),
            match dec_i64(old(self).bytes(), old(self).position()) {
                Some(p) => r matches Ok(v) && v == p.0 && final(self).position() == p.1,
                None => r == Err::<i64, Error>(Error::NoData) && final(self).position() == old(
                    self,
                ).position(),
            },
    {
        match self.read_u64() {
            Ok(w) => Ok(w as i64),
            Err(e) => Err(e),
        }
    }

    /// Reads a 128-bit identifier.
    pub fn read_guid(&mut self) -> (r: Result<Guid, Error>)
        requires
            old(self).wf(),
        ensures
            final(self).wf(),
            final(self).bytes() == old(self).bytes(),
            match dec_guid(old(self).bytes(), old(self).position()) {
                Some(p) => r matches Ok(v) && v == p.0 && final(self).position() == p.1,
                None => r is Err && final(self).position() == old(self).position(),
            },
    {
        let start = self.pos;
        if self.data.len() - self.pos >= 16 {
            let a = match self.read_u32() {
                Ok(v) => v,
                Err(e) => {
                    return Err(e);
                },
            };
            let b = match self.read_u32() {
                Ok(v) => v,
                Err(e) => {
                    return Err(e);
                },
            };
            let c = match self.read_u32() {
                Ok(v) => v,
                Err(e) => {
                    return Err(e);
                },
            };
            let d = match self.read_u32() {
                Ok(v) => v,
                Err(e) => {
                    return Err(e);
                },
            };
            Ok(Guid { a, b, c, d })
        } else {
            Err(Error::NoData)
        }
    }

    /// Reads a length-prefixed string; the empty string stands for an
    /// absent one.
    #[verifier::rlimit(60)]
    #[verifier::spinoff_prover]
    pub fn read_fstring(&mut self) -> (r: Result<String, Error>)
        requires
            old(self).wf(),
        ensures
            final(self).wf(),
            final(self).bytes() == old(self).bytes(),
            match dec_fstr(old(self).bytes(), old(self).position()) {
                Some(p) => r matches Ok(s) && s@ == p.0 && final(self).position() == p.1,
                None => r is Err && final(self).position() == old(self).position(),
            },
    {
        let start = self.pos;
        let ghost b = self.data@;
        let total = self.data.len();
        proof {
            assert(b.len() <= usize::MAX);
        }
        let w = match self.read_u32() {
            Ok(w) => w,
            Err(e) => {
                return Err(e);
            },
        };
        let n = w as i32;
        if n == 0 {
            return Ok(String::new());
        }
        if n > 0 {
            let len = n as usize;
            let ghost p1 = start + 4;
            if self.data.len() - self.pos < len {
                self.pos = start;
                return Err(Error::NoData);
            }
            if self.data[self.pos + len - 1] != 0 {
                self.pos = start;
                return Err(Error::Serialization("string terminator missing".to_owned()));
            }
            let ghost chars = ascii_chars_at(b, p1, (len - 1) as int);
            let mut out = String::new();
            let mut j: usize = 0;
            while j < len - 1
                invariant
                    self.wf(),
                    self.data@ == b,
                    b == old(self).bytes(),
                    start == old(self).position(),
                    b.len() <= usize::MAX,
                    self.pos == start + 4,
                    p1 == start + 4,
                    1 <= len,
                    j <= len - 1,
                    p1 + len <= b.len(),
                    dec_u32(b, start as int) == Some((w, p1)),
                    n == w as i32,
                    0 < n,
                    len == n as usize,
                    b[p1 + len - 1] == 0,
                    chars == ascii_chars_at(b, p1, (len - 1) as int),
                    forall|i: int| p1 <= i < p1 + j ==> b[i] < 128,
                    out@ =~= chars.take(j as int),
                decreases len - 1 - j,
            {
                let byte = self.data[self.pos + j];
                if byte >= 128 {
                    self.pos = start;
                    return Err(Error::InvalidData("string byte out of range".to_owned()));
                }
                match char::from_u32(byte as u32) {
                    Some(c) => {
                        out.push(c);
                        proof {
                            assert(c as u32 == byte as u32);
                            vstd::utf8::char_u32_cast(c, byte as u32);
                            assert(chars[j as int] == c);
                            assert(out@ =~= chars.take(j as int + 1));
                        }
                    },
                    None => {
                        proof {
                            assert(false);
                        }
                        self.pos = start;
                        return Err(Error::NoData);
                    },
                }
                j += 1;
            }
            proof {
                assert(chars.take((len - 1) as int) =~= chars);
            }
            self.pos = self.pos + len;
            Ok(out)
        } else {
            let m = (-(n as i64)) as usize;
            proof {
                assert(m <= 0x8000_0000);
            }
            let ghost p1 = start + 4;
            if (self.data.len() - self.pos) / 2 < m {
                self.pos = start;
                return Err(Error::NoData);
            }
            proof {
                assert(p1 + 2 * m <= b.len());
            }
            let ghost uspec_full = units_at(b, p1, m as int);
            let mut units: Vec<u16> = Vec::new();
            let mut j: usize = 0;
            while j < m
                invariant
                    self.wf(),
                    self.data@ == b,
                    b == old(self).bytes(),
                    start == old(self).position(),
                    b.len() <= usize::MAX,
                    self.pos == start + 4,
                    p1 == start + 4,
                    j <= m,
                    m <= 0x8000_0000,
                    p1 + 2 * m <= b.len(),
                    uspec_full == units_at(b, p1, m as int),
                    units@ =~= uspec_full.take(j as int),
                decreases m - j,
            {
                let b0 = self.data[self.pos + 2 * j];
                let b1 = self.data[self.pos + 2 * j + 1];
                units.push((b0 as u16) | ((b1 as u16) << 8));
                proof {
                    assert(uspec_full[j as int] == u16_from_le(b[p1 + 2 * j], b[p1 + 2 * j + 1]));
                    assert(units@ =~= uspec_full.take(j as int + 1));
                }
                j += 1;
            }
            proof {
                assert(uspec_full.take(m as int) =~= uspec_full);
            }
            if m == 0 || units[m - 1] != 0 {
                self.pos = start;
                return Err(Error::Serialization("string terminator missing".to_owned()));
            }
            let ghost uspec = uspec_full.take((m - 1) as int);
            let mut out = String::new();
            let mut k: usize = 0;
            proof {
                assert(uspec.skip(0) =~= uspec);
            }
            while k < m - 1
                invariant
                    self.wf(),
                    self.data@ == b,
                    b == old(self).bytes(),
                    start == old(self).position(),
                    b.len() <= usize::MAX,
                    self.pos == start + 4,
                    p1 == start + 4,
                    1 <= m,
                    k <= m - 1,
                    m <= 0x8000_0000,
                    p1 + 2 * m <= b.len(),
                    units@ == uspec_full,
                    uspec_full == units_at(b, p1, m as int),
                    uspec_full.len() == m,
                    uspec == uspec_full.take((m - 1) as int),
                    uspec.len() == m - 1,
                    dec_u32(b, start as int) == Some((w, p1)),
                    n == w as i32,
                    n < 0,
                    m == -(n as int),
                    uspec_full[(m - 1) as int] == 0,
                    match dec_units(uspec.skip(k as int)) {
                        Some(rest) => dec_units(uspec) matches Some(whole) && whole =~= out@
                            + rest,
                        None => dec_units(uspec) is None,
                    },
                decreases m - 1 - k,
            {
                let u = units[k];
                let ghost out_pre = out@;
                proof {
                    assert(uspec.skip(k as int)[0] == uspec[k as int]);
                    assert(uspec[k as int] == uspec_full[k as int]);
                }
                if u < 0xD800 || u >= 0xE000 {
                    match char::from_u32(u as u32) {
                        Some(c) => {
                            out.push(c);
                            proof {
                                vstd::utf8::char_u32_cast(c, u as u32);
                                assert(uspec.skip(k as int).drop_first() =~= uspec.skip(k as int
                                    + 1));
                                if let Some(rest2) = dec_units(uspec.skip(k as int + 1)) {
                                    assert(dec_units(uspec.skip(k as int)) == Some(
                                        seq![((u as u32) as char)] + rest2,
                                    ));
                                    assert((out_pre + (seq![(c)] + rest2)) =~= (out@ + rest2));
                                }
                            }
                        },
                        None => {
                            proof {
                                assert(false);
                            }
                            self.pos = start;
                            return Err(Error::NoData);
                        },
                    }
                    k += 1;
                } else if u < 0xDC00 {
                    if k + 1 >= m - 1 {
                        proof {
                            assert(uspec.skip(k as int).len() == 1);
                            assert(uspec.skip(k as int)[0] == u);
                            assert(0xD800 <= u && u < 0xDC00);
                            assert(dec_units(uspec.skip(k as int)) is None);
                            assert(dec_units(uspec) is None);
                            assert(dec_u32(b, start as int) == Some((w, p1)));
                            assert((w as i32) < 0);
                            assert(-((w as i32) as int) == m as int);
                            assert(p1 + 2 * (m as int) <= b.len());
                            assert(units_at(b, p1, m as int) == uspec_full);
                            assert(uspec_full[m as int - 1] == 0);
                            assert(uspec_full.take(m as int - 1) == uspec);
                            assert(dec_fstr(b, start as int) is None);
                        }
                        self.pos = start;
                        return Err(Error::InvalidData("lone surrogate".to_owned()));
                    }
                    let u2 = units[k + 1];
                    proof {
                        assert(uspec.skip(k as int)[1] == uspec[k as int + 1]);
                        assert(uspec[k as int + 1] == uspec_full[k as int + 1]);
                    }
                    if !(0xDC00 <= u2 && u2 < 0xE000) {
                        proof {
                            assert(uspec.skip(k as int)[0] == u);
                            assert(dec_units(uspec.skip(k as int)) is None);
                            assert(dec_units(uspec) is None);
                            assert(dec_fstr(b, start as int) is None);
                        }
                        self.pos = start;
                        return Err(Error::InvalidData("lone surrogate".to_owned()));
                    }
                    let cp = 0x10000 + ((u - 0xD800) as u32) * 0x400 + ((u2 - 0xDC00) as u32);
                    match char::from_u32(cp) {
                        Some(c) => {
                            out.push(c);
                            proof {
                                vstd::utf8::char_u32_cast(c, cp);
                                assert(uspec.skip(k as int).skip(2) =~= uspec.skip(k as int + 2));
                                if let Some(rest2) = dec_units(uspec.skip(k as int + 2)) {
                                    assert(dec_units(uspec.skip(k as int)) == Some(
                                        seq![(cp as char)] + rest2,
                                    ));
                                    assert((out_pre + (seq![(c)] + rest2)) =~= (out@ + rest2));
                                }
                            }
                        },
                        None => {
                            proof {
                                assert(false);
                            }
                            self.pos = start;
                            return Err(Error::NoData);
                        },
                    }
                    k += 2;
                } else {
                    proof {
                        assert(uspec.skip(k as int)[0] == u);
                        assert(0xDC00 <= u && u < 0xE000);
                        assert(dec_units(uspec.skip(k as int)) is None);
                        assert(dec_units(uspec) is None);
                        assert(dec_fstr(b, start as int) is None);
                    }
                    self.pos = start;
                    return Err(Error::InvalidData("lone surrogate".to_owned()));
                }
            }
            proof {
                assert(uspec.skip((m - 1) as int) =~= Seq::<u16>::empty());
                assert(dec_units(Seq::<u16>::empty()) == Some(Seq::<char>::empty()));
                assert(out@ + Seq::<char>::empty() =~= out@);
            }
            self.pos = self.pos + 2 * m;
            Ok(out)
        }
    }

    /// Reads `n` raw bytes.
    pub fn read_bytes(&mut self, n: usize) -> (r: Result<Vec<u8>, Error>)
        requires
            old(self).wf(),
        ensures
            final(self).wf(),
            final(self).bytes() == old(self).bytes(),
            old(self).position() + n <= old(self).bytes().len() ==> (r matches Ok(v)
                && v@ == old(self).bytes().subrange(old(self).position(), old(self).position() + n)
                && final(self).position() == old(self).position() + n),
            old(self).position() + n > old(self).bytes().len() ==> (r == Err::<Vec<u8>, Error>(
                Error::NoData,
            ) && final(self).position() == old(self).position()),
    {
        if self.data.len() - self.pos >= n {
            let total = self.data.len();
            let mut out: Vec<u8> = Vec::new();
            let mut i: usize = 0;
            while i < n
                invariant
                    self.wf(),
                    self == old(self),
                    i <= n,
                    total == self.data@.len(),
                    self.pos + n <= self.data@.len(),
                    out@ =~= self.data@.subrange(self.pos as int, self.pos + i),
                decreases n - i,
            {
                proof {
                    assert(self.pos + i < self.data@.len());
                }
                out.push(self.data[self.pos + i]);
                proof {
                    assert(out@ =~= self.data@.subrange(self.pos as int, self.pos + i + 1));
                }
                i += 1;
            }
            self.pos = self.pos + n;
            Ok(out)
        } else {
            Err(Error::NoData)
        }
    }
}

// ------------------------------------------------------------------
// The writer
// ------------------------------------------------------------------

/// A writer that appends the little-endian layouts to an in-memory
/// buffer.
pub struct BinaryArchiveWriter {
    data: Vec<u8>,
}

impl BinaryArchiveWriter {
    /// The bytes written so far.
    pub closed spec fn out(&self) -> Seq<u8> {
        self.data@
    }

    /// An empty writer.
    pub fn new() -> (r: Self)
        ensures
            r.out() == Seq::<u8>::empty(),
    {
        BinaryArchiveWriter { data: Vec::new() }
    }

    /// The number of bytes written so far: the current stream position.
    pub fn position(&self) -> (r: usize)
        ensures
            r == self.out().len(),
    {
        self.data.len()
    }

    /// Hands the buffer out.
    pub fn into_bytes(self) -> (r: Vec<u8>)
        ensures
            r@ == self.out(),
    {
        self.data
    }

    /// Appends one byte.
    pub fn write_u8(&mut self, x: u8)
        ensures
            final(self).out() == old(self).out().push(x),
    {
        self.data.push(x);
    }

    /// Appends a 16-bit value in little-endian order.
    pub fn write_u16(&mut self, x: u16)
        ensures
            final(self).out() == old(self).out() + u16_le_bytes(x),
    {
        self.data.push((x & 0xff) as u8);
        self.data.push(((x >> 8) & 0xff) as u8);
        proof {
            assert(final(self).out() =~= old(self).out() + u16_le_bytes(x));
        }
    }

    /// Appends a 32-bit value in little-endian order.
    pub fn write_u32(&mut self, x: u32)
        ensures
            final(self).out() == old(self).out() + u32_le_bytes(x),
    {
        self.data.push((x & 0xff) as u8);
        self.data.push(((x >> 8) & 0xff) as u8);
        self.data.push(((x >> 16) & 0xff) as u8);
        self.data.push(((x >> 24) & 0xff) as u8);
        proof {
            assert(final(self).out() =~= old(self).out() + u32_le_bytes(x));
        }
    }

    /// Appends a 64-bit value in little-endian order.
    pub fn write_u64(&mut self, x: u64)
        ensures
            final(self).out() == old(self).out() + u64_le_bytes(x),
    {
        self.data.push((x & 0xff) as u8);
        self.data.push(((x >> 8) & 0xff) as u8);
        self.data.push(((x >> 16) & 0xff) as u8);
        self.data.push(((x >> 24) & 0xff) as u8);
        self.data.push(((x >> 32) & 0xff) as u8);
        self.data.push(((x >> 40) & 0xff) as u8);
        self.data.push(((x >> 48) & 0xff) as u8);
        self.data.push(((x >> 56) & 0xff) as u8);
        proof {
            assert(final(self).out() =~= old(self).out() + u64_le_bytes(x));
        }
    }

    /// Appends a signed 32-bit value in little-endian order.
    pub fn write_i32(&mut self, x: i32)
        ensures
            final(self).out() == old(self).out() + u32_le_bytes(x as u32),
    {
        self.write_u32(x as u32);
    }

    /// Appends a signed 64-bit value in little-endian order.
    pub fn write_i64(&mut self, x: i64)
        ensures
            final(self).out() == old(self).out() + u64_le_bytes(x as u64),
    {
        self.write_u64(x as u64);
    }

    /// Appends a 128-bit identifier.
    pub fn write_guid(&mut self, g: &Guid)
        ensures
            final(self).out() == old(self).out() + enc_guid(*g),
    {
        let ghost pre = self.out();
        self.write_u32(g.a);
        self.write_u32(g.b);
        self.write_u32(g.c);
        self.write_u32(g.d);
        proof {
            assert(final(self).out() =~= pre + enc_guid(*g));
        }
    }

    /// Appends a length-prefixed string.
    #[verifier::rlimit(60)]
    #[verifier::spinoff_prover]
    pub fn write_fstring(&mut self, s: &str)
        requires
            fstr_len_ok(s@),
        ensures
            final(self).out() == old(self).out() + enc_fstr(s@),
    {
        let n = s.unicode_len();
        if n == 0 {
            self.write_u32(0);
            return ;
        }
        if s.is_ascii() {
            let ghost pre = self.out();
            self.write_u32((n + 1) as u32);
            let mut i: usize = 0;
            while i < n
                invariant
                    i <= n,
                    n == s@.len(),
                    n < 0x4000_0000,
                    s.is_ascii(),
                    pre == old(self).out(),
                    self.out() =~= pre + u32_le_bytes((n + 1) as u32) + ascii_bytes(s@.take(
                        i as int,
                    )),
                decreases n - i,
            {
                let byte = s.get_ascii(i);
                self.write_u8(byte);
                proof {
                    assert(ascii_bytes(s@.take(i as int + 1)) =~= ascii_bytes(s@.take(i as int)).push(
                        (s@[i as int] as u32) as u8,
                    ));
                    assert(byte == (s@[i as int] as u32) as u8) by {
                        assert('\0' <= s@[i as int] && s@[i as int] <= '\u{7f}');
                    }
                    assert(self.out() =~= pre + u32_le_bytes((n + 1) as u32) + ascii_bytes(
                        s@.take(i as int + 1),
                    ));
                }
                i += 1;
            }
            self.write_u8(0);
            proof {
                assert(s@.take(n as int) =~= s@);
                assert(self.out() =~= old(self).out() + enc_fstr(s@));
            }
        } else {
            let ghost pre = self.out();
            let mut units: Vec<u16> = Vec::new();
            let mut i: usize = 0;
            while i < n
                invariant
                    i <= n,
                    n == s@.len(),
                    n < 0x4000_0000,
                    units@ == utf16_units(s@.take(i as int)),
                    units@.len() <= 2 * i,
                decreases n - i,
            {
                let c = s.get_char(i);
                let cp = c as u32;
                proof {
                    vstd::utf8::char_is_scalar(c);
                    lemma_utf16_units_push(s@.take(i as int), s@[i as int]);
                    assert(s@.take(i as int + 1) =~= s@.take(i as int).push(s@[i as int]));
                }
                if cp < 0x10000 {
                    units.push(cp as u16);
                    proof {
                        assert(units_of_char(c) =~= seq![(cp as u16)]);
                        assert(units@ =~= utf16_units(s@.take(i as int + 1)));
                    }
                } else {
                    let d = cp - 0x10000;
                    proof {
                        assert(d <= 0xFFFFF);
                        assert(d / 0x400 <= 0x3FF && d % 0x400 < 0x400) by (nonlinear_arith)
                            requires
                                0 <= d && d <= 0xFFFFFu32,
                        ;
                    }
                    let hi = (0xD800 + (d / 0x400)) as u16;
                    let lo = (0xDC00 + (d % 0x400)) as u16;
                    units.push(hi);
                    units.push(lo);
                    proof {
                        assert(units_of_char(c) =~= seq![hi, lo]);
                        assert(units@ =~= utf16_units(s@.take(i as int + 1)));
                    }
                }
                i += 1;
            }
            proof {
                assert(s@.take(n as int) =~= s@);
                assert(units@ == utf16_units(s@));
            }
            let count = units.len() + 1;
            let neg = -(count as i32);
            self.write_i32(neg);
            let ghost mid = self.out();
            let total = units.len();
            let mut j: usize = 0;
            while j < total
                invariant
                    j <= total,
                    total == units@.len(),
                    mid == self.out().take(mid.len() as int) && mid.len() <= self.out().len(),
                    self.out() =~= mid + u16s_le_bytes(units@.take(j as int)),
                decreases total - j,
            {
                let u = units[j];
                self.write_u16(u);
                proof {
                    lemma_u16s_le_bytes_push(units@.take(j as int), u);
                    assert(units@.take(j as int + 1) =~= units@.take(j as int).push(u));
                    assert(self.out() =~= mid + u16s_le_bytes(units@.take(j as int + 1)));
                }
                j += 1;
            }
            self.write_u16(0);
            proof {
                assert(units@.take(total as int) =~= units@);
                assert(u16_le_bytes(0) =~= seq![0u8, 0u8]) by {
                    assert((0u16 & 0xff) as u8 == 0 && ((0u16 >> 8) & 0xff) as u8 == 0)
                        by (bit_vector);
                }
                assert(!is_ascii_chars(s@));
                assert(neg as u32 == ((-(utf16_units(s@).len() as int + 1)) as i32) as u32);
                assert(self.out() =~= old(self).out() + enc_fstr(s@));
            }
        }
    }

    /// Appends raw bytes.
    pub fn write_bytes(&mut self, bytes: &Vec<u8>)
        ensures
            final(self).out() == old(self).out() + bytes@,
    {
        let n = bytes.len();
        let mut i: usize = 0;
        while i < n
            invariant
                n == bytes@.len(),
                i <= n,
                self.out() =~= old(self).out() + bytes@.take(i as int),
            decreases n - i,
        {
            self.data.push(bytes[i]);
            proof {
                assert(self.out() =~= old(self).out() + bytes@.take(i + 1));
            }
            i += 1;
        }
        proof {
            assert(bytes@.take(n as int) =~= bytes@);
        }
    }
}

} // verus!
