//! Executable UTF-8 handling: scalar-by-scalar validation of byte ranges,
//! and the UTF-8 encoding of a single `char`, verified against the UTF-8
//! specification functions of vstd.

use vstd::prelude::*;
use vstd::utf8::*;

verus! {

/// Checks whether `buf[from..to]` begins with the well-formed UTF-8
/// encoding of one Unicode scalar; returns the scalar and its byte width.
pub fn scalar_check(buf: &Vec<u8>, from: usize, to: usize) -> (r: Option<(u32, usize)>)
    requires
        from <= to <= buf.len(),
    ensures
        ({
            let sub = buf@.subrange(from as int, to as int);
            &&& (r is Some <==> valid_first_scalar(sub))
            &&& (r matches Some(p) ==> {
                &&& p.0 == decode_first_scalar(sub)
                &&& p.1 == length_of_first_scalar(sub)
                &&& 1 <= p.1 <= 4
                &&& from + p.1 <= to
                &&& is_scalar(p.0)
            })
        }),
{
    let ghost sub = buf@.subrange(from as int, to as int);
    let avail = to - from;
    if avail == 0 {
        return None;
    }
    let b0 = buf[from];
    assert(sub[0] == b0);
    if b0 <= 0x7f {
        assert(b0 & 0x7f == b0) by (bit_vector)
            requires
                b0 <= 0x7f,
        ;
        Some(((b0 & 0x7f) as u32, 1))
    } else if 0xc0 <= b0 && b0 <= 0xdf {
        if avail < 2 {
            return None;
        }
        let b1 = buf[from + 1];
        assert(sub[1] == b1);
        if !(0x80 <= b1 && b1 <= 0xbf) {
            return None;
        }
        let cp: u32 = (((b0 & 0x1f) as u32) << 6) | ((b1 & 0x3f) as u32);
        if cp < 0x80 {
            return None;
        }
        assert(cp <= 0x7ff) by (bit_vector)
            requires
                cp == (((b0 & 0x1f) as u32) << 6) | ((b1 & 0x3f) as u32),
        ;
        Some((cp, 2))
    } else if 0xe0 <= b0 && b0 <= 0xef {
        if avail < 3 {
            return None;
        }
        let b1 = buf[from + 1];
        let b2 = buf[from + 2];
        assert(sub[1] == b1 && sub[2] == b2);
        if !(0x80 <= b1 && b1 <= 0xbf) || !(0x80 <= b2 && b2 <= 0xbf) {
            return None;
        }
        let cp: u32 = (((b0 & 0x0f) as u32) << 12) | (((b1 & 0x3f) as u32) << 6) | ((b2
            & 0x3f) as u32);
        if cp < 0x800 || (0xd800 <= cp && cp <= 0xdfff) {
            return None;
        }
        assert(cp <= 0xffff) by (bit_vector)
            requires
                cp == (((b0 & 0x0f) as u32) << 12) | (((b1 & 0x3f) as u32) << 6) | ((b2
                    & 0x3f) as u32),
        ;
        Some((cp, 3))
    } else if 0xf0 <= b0 && b0 <= 0xf7 {
        if avail < 4 {
            return None;
        }
        let b1 = buf[from + 1];
        let b2 = buf[from + 2];
        let b3 = buf[from + 3];
        assert(sub[1] == b1 && sub[2] == b2 && sub[3] == b3);
        if !(0x80 <= b1 && b1 <= 0xbf) || !(0x80 <= b2 && b2 <= 0xbf) || !(0x80 <= b3 && b3
            <= 0xbf) {
            return None;
        }
        let cp: u32 = (((b0 & 0x07) as u32) << 18) | (((b1 & 0x3f) as u32) << 12) | (((b2
            & 0x3f) as u32) << 6) | ((b3 & 0x3f) as u32);
        if cp < 0x10000 || cp > 0x10ffff {
            return None;
        }
        Some((cp, 4))
    } else {
        None
    }
}

/// Checks whether `buf[from..to]` is entirely valid UTF-8.
pub fn utf8_check(buf: &Vec<u8>, from: usize, to: usize) -> (r: bool)
    requires
        from <= to <= buf.len(),
    ensures
        r == valid_utf8(buf@.subrange(from as int, to as int)),
{
    let ghost sub = buf@.subrange(from as int, to as int);
    let mut i = from;
    while i < to
        invariant
            from <= i <= to <= buf.len(),
            sub == buf@.subrange(from as int, to as int),
            valid_utf8(sub) == valid_utf8(buf@.subrange(i as int, to as int)),
        decreases to - i,
    {
        let ghost rem = buf@.subrange(i as int, to as int);
        match scalar_check(buf, i, to) {
            Option::None => {
                assert(rem.len() > 0);
                return false;
            },
            Option::Some((_cp, width)) => {
                proof {
                    assert(pop_first_scalar(rem) =~= buf@.subrange(i + width as int, to as int));
                }
                i = i + width;
            },
        }
    }
    assert(buf@.subrange(i as int, to as int).len() == 0);
    true
}

/// Appends the UTF-8 encoding of one `char` to the output.
pub fn push_char_utf8(out: &mut Vec<u8>, c: char)
    ensures
        final(out)@ == old(out)@ + encode_scalar(c as u32),
{
    let s = c as u32;
    proof {
        char_is_scalar(c);
    }
    if s <= 0x7f {
        assert((s & 0x7f) == s) by (bit_vector)
            requires
                s <= 0x7f,
        ;
        out.push((s & 0x7f) as u8);
        assert(out@ =~= old(out)@ + encode_scalar(c as u32));
    } else if s <= 0x7ff {
        out.push(0xc0 | ((s >> 6) & 0x1f) as u8);
        out.push(0x80 | (s & 0x3f) as u8);
        assert(out@ =~= old(out)@ + encode_scalar(c as u32));
    } else if s <= 0xffff {
        out.push(0xe0 | ((s >> 12) & 0x0f) as u8);
        out.push(0x80 | ((s >> 6) & 0x3f) as u8);
        out.push(0x80 | (s & 0x3f) as u8);
        assert(out@ =~= old(out)@ + encode_scalar(c as u32));
    } else {
        out.push(0xf0 | ((s >> 18) & 0x7) as u8);
        out.push(0x80 | ((s >> 12) & 0x3f) as u8);
        out.push(0x80 | ((s >> 6) & 0x3f) as u8);
        out.push(0x80 | (s & 0x3f) as u8);
        assert(out@ =~= old(out)@ + encode_scalar(c as u32));
    }
}

/// Relies on `char::from_u32` of std: it returns `Some` exactly for Unicode
/// scalar values, and the returned `char` casts back to the argument.
#[verifier::external_body]
pub fn char_from_u32(u: u32) -> (r: Option<char>)
    ensures
        r is Some <==> is_scalar(u),
        r matches Some(c) ==> c as u32 == u,
{
    char::from_u32(u)
}

} // verus!
