//! Variable-length integer encoding: zig-zag mapping of signed values onto
//! unsigned ones, followed by base-128 little-endian groups with a
//! continuation bit. This is the primitive layer of the binary body format;
//! every int, long, string length and array count is written this way.

use vstd::prelude::*;

verus! {

/// Zig-zag mapping: non-negative x becomes 2x, negative x becomes -2x - 1,
/// so that values of small magnitude get short encodings.
pub open spec fn zigzag(x: i64) -> u64 {
    if x >= 0 {
        (2 * (x as int)) as u64
    } else {
        ((-2 * (x as int)) - 1) as u64
    }
}

/// Inverse of the zig-zag mapping.
pub open spec fn unzigzag(n: u64) -> i64 {
    if n % 2 == 0 {
        ((n / 2) as int) as i64
    } else {
        (-((n / 2) as int) - 1) as i64
    }
}

pub proof fn lemma_zigzag_roundtrip(x: i64)
    ensures
        unzigzag(zigzag(x)) == x,
{
    if x >= 0 {
        assert((2 * (x as int)) % 2 == 0);
        assert((2 * (x as int)) / 2 == x as int);
    } else {
        let n: int = -2 * (x as int) - 1;
        assert(n % 2 == 1) by {
            assert(n == 2 * (-(x as int) - 1) + 1);
        };
        assert(n / 2 == -(x as int) - 1) by {
            assert(n == 2 * (-(x as int) - 1) + 1);
        };
    }
}

/// Zig-zag a signed value.
pub fn zigzag_encode(x: i64) -> (r: u64)
    ensures
        r == zigzag(x),
{
    if x >= 0 {
        2 * (x as u64)
    } else {
        let m: i64 = -(x + 1);
        2 * (m as u64) + 1
    }
}

/// Undo the zig-zag mapping.
pub fn zigzag_decode(n: u64) -> (r: i64)
    ensures
        r == unzigzag(n),
{
    let h: u64 = n / 2;
    if n % 2 == 0 {
        h as i64
    } else {
        -(h as i64) - 1
    }
}

/// The base-128 byte groups of n, least significant first; every byte but
/// the last carries the continuation bit.
pub open spec fn varint(n: u64) -> Seq<u8>
    decreases n,
{
    if n < 128 {
        seq![n as u8]
    } else {
        seq![((n % 128) + 128) as u8] + varint((n / 128) as u64)
    }
}

/// Parse a varint from s starting at index i: the value and the index just
/// past it, or None when the bytes run out or the value overflows 64 bits.
pub open spec fn parse_varint(s: Seq<u8>, i: int) -> Option<(u64, int)>
    decreases s.len() - i,
{
    if i < 0 || i >= s.len() {
        None
    } else if s[i] < 128 {
        Some((s[i] as u64, i + 1))
    } else {
        match parse_varint(s, i + 1) {
            None => None,
            Some((v, j)) => {
                if v <= (u64::MAX - ((s[i] as int) - 128)) / 128 {
                    Some(((((s[i] as int) - 128) + 128 * (v as int)) as u64, j))
                } else {
                    None
                }
            },
        }
    }
}

/// A successful parse always consumes at least one byte and stays in bounds.
pub proof fn lemma_parse_varint_bounds(s: Seq<u8>, i: int)
    requires
        parse_varint(s, i) is Some,
    ensures
        i < parse_varint(s, i)->Some_0.1 <= s.len(),
    decreases s.len() - i,
{
    if !(i < 0 || i >= s.len()) && s[i] >= 128 {
        lemma_parse_varint_bounds(s, i + 1);
    }
}

/// Parsing at the start of the encoding of n yields n and consumes exactly
/// the encoding, whatever follows it.
pub proof fn lemma_parse_varint_of_encoding(s: Seq<u8>, i: int, n: u64)
    requires
        0 <= i,
        i + varint(n).len() <= s.len(),
        s.subrange(i, i + varint(n).len() as int) == varint(n),
    ensures
        parse_varint(s, i) == Some((n, i + varint(n).len() as int)),
    decreases n,
{
    let enc = varint(n);
    assert(s[i] == enc[0]);
    if n < 128 {
        assert(enc =~= seq![n as u8]);
        assert(s[i] == n as u8);
    } else {
        let b: u8 = ((n % 128) + 128) as u8;
        assert(enc[0] == b);
        assert(s[i] == b);
        assert(b >= 128);
        let tail = varint((n / 128) as u64);
        assert(enc =~= seq![b] + tail);
        assert(s.subrange(i + 1, i + 1 + tail.len() as int) =~= tail) by {
            assert forall|k: int| 0 <= k < tail.len() implies s.subrange(
                i + 1,
                i + 1 + tail.len() as int,
            )[k] == tail[k] by {
                assert(s.subrange(i, i + enc.len() as int)[k + 1] == enc[k + 1]);
            }
        };
        lemma_parse_varint_of_encoding(s, i + 1, (n / 128) as u64);
        let v: u64 = (n / 128) as u64;
        assert(128 * (v as int) + (n as int) % 128 == n as int) by {
            vstd::arithmetic::div_mod::lemma_fundamental_div_mod(n as int, 128);
        };
        assert((v as int) <= (u64::MAX - ((b as int) - 128)) / 128) by {
            assert((b as int) - 128 == (n as int) % 128);
            assert(128 * (v as int) <= u64::MAX - (n as int) % 128);
            vstd::arithmetic::div_mod::lemma_div_is_ordered(
                128 * (v as int),
                u64::MAX - (n as int) % 128,
                128,
            );
            assert((128 * (v as int)) / 128 == v as int) by {
                vstd::arithmetic::div_mod::lemma_div_by_multiple(v as int, 128);
            };
        };
        assert((((b as int) - 128) + 128 * (v as int)) as u64 == n);
    }
}

/// Append the varint encoding of n to out.
pub fn encode_varint(n: u64, out: &mut Vec<u8>)
    ensures
        final(out)@ == old(out)@ + varint(n),
    decreases n,
{
    if n < 128 {
        out.push(n as u8);
        assert(out@ =~= old(out)@ + varint(n));
    } else {
        out.push(((n % 128) + 128) as u8);
        encode_varint(n / 128, out);
        assert(out@ =~= old(out)@ + varint(n));
    }
}

/// Read a varint from bytes at index i, mirroring parse_varint.
pub fn decode_varint(bytes: &Vec<u8>, i: usize) -> (r: Option<(u64, usize)>)
    ensures
        match r {
            None => parse_varint(bytes@, i as int) is None,
            Some((v, j)) => parse_varint(bytes@, i as int) == Some((v, j as int)),
        },
    decreases bytes@.len() - i,
{
    if i >= bytes.len() {
        return None;
    }
    let b: u8 = bytes[i];
    if b < 128 {
        Some((b as u64, i + 1))
    } else {
        match decode_varint(bytes, i + 1) {
            None => None,
            Some((v, j)) => {
                let low: u64 = (b - 128) as u64;
                if v <= (u64::MAX - low) / 128 {
                    assert(128 * (v as int) <= u64::MAX - low) by {
                        vstd::arithmetic::div_mod::lemma_fundamental_div_mod(
                            (u64::MAX - low) as int,
                            128,
                        );
                    };
                    Some((low + 128 * v, j))
                } else {
                    None
                }
            },
        }
    }
}

} // verus!
