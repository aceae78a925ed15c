//! Base-128 variable-length integers, the primitive of the wire format.
//!
//! A value is written in groups of seven bits, least significant group first;
//! every byte but the last has its high bit set. The decoder also accepts
//! non-canonical spellings (leading zero groups), but never more than ten
//! bytes, and never a value that overflows 64 bits.

use vstd::prelude::*;

verus! {

/// The longest accepted encoding: ten groups of seven bits cover 64 bits.
pub const MAX_VARINT_LEN: usize = 10;

/// The canonical encoding of `n`.
pub open spec fn spec_varint(n: u64) -> Seq<u8>
    decreases n,
{
    if n < 128 {
        seq![n as u8]
    } else {
        seq![(n % 128 + 128) as u8] + spec_varint(n / 128)
    }
}

/// What decoding from the front of `bytes` yields: the value and the number
/// of bytes consumed, or `None` if the bytes do not begin with an encoding
/// of at most [`MAX_VARINT_LEN`] bytes of a value that fits in 64 bits.
pub open spec fn spec_take_varint(bytes: Seq<u8>) -> Option<(u64, int)>
    decreases bytes.len(),
{
    if bytes.len() == 0 {
        None
    } else if bytes[0] < 128 {
        Some((bytes[0] as u64, 1))
    } else {
        let low = (bytes[0] - 128) as u64;
        match spec_take_varint(bytes.drop_first()) {
            None => None,
            Some((high, used)) => if used >= MAX_VARINT_LEN {
                None
            } else if high > (u64::MAX - low) / 128 {
                None
            } else {
                Some(((low + 128 * high) as u64, used + 1))
            },
        }
    }
}

/// A canonical encoding takes at most ten bytes.
pub proof fn lemma_varint_len(n: u64)
    ensures
        1 <= spec_varint(n).len() <= MAX_VARINT_LEN,
        n < 128 ==> spec_varint(n).len() == 1,
    decreases n,
{
    lemma_u64_fits_ten_groups(n);
    lemma_varint_len_bound(n, 10);
}

/// If `n` fits in `k` seven-bit groups, its encoding is at most `k` bytes.
proof fn lemma_varint_len_bound(n: u64, k: nat)
    requires
        1 <= k,
        n < pow128(k),
    ensures
        spec_varint(n).len() <= k,
    decreases n,
{
    if n >= 128 {
        assert(k >= 2) by {
            reveal_with_fuel(pow128, 3);
        }
        assert(pow128(k) == 128 * pow128((k - 1) as nat));
        assert(n / 128 < pow128((k - 1) as nat)) by (nonlinear_arith)
            requires
                n < 128 * pow128((k - 1) as nat),
                n >= 128,
        ;
        lemma_varint_len_bound(n / 128, (k - 1) as nat);
    }
}

/// 128 raised to `k`.
spec fn pow128(k: nat) -> int
    decreases k,
{
    if k == 0 {
        1
    } else {
        128 * pow128((k - 1) as nat)
    }
}

/// Every `u64` fits in ten seven-bit groups.
proof fn lemma_u64_fits_ten_groups(n: u64)
    ensures
        n < pow128(10),
{
    reveal_with_fuel(pow128, 11);
    assert(pow128(10) == 0x400000000000000000_int);
}

/// Decoding the front of a buffer that begins with the canonical encoding of
/// `n` yields exactly `n` and consumes exactly the encoding.
pub proof fn lemma_take_varint_of_encoding(n: u64, tail: Seq<u8>)
    ensures
        spec_take_varint(spec_varint(n) + tail) == Some((n, spec_varint(n).len() as int)),
    decreases n,
{
    let whole = spec_varint(n) + tail;
    if n < 128 {
        assert(whole[0] == n as u8);
    } else {
        let head = (n % 128 + 128) as u8;
        assert(whole[0] == head);
        assert(whole.drop_first() =~= spec_varint(n / 128) + tail);
        lemma_take_varint_of_encoding(n / 128, tail);
        lemma_varint_len(n / 128);
        lemma_u64_fits_ten_groups(n);
        assert(spec_varint(n / 128).len() < MAX_VARINT_LEN) by {
            assert(n / 128 < pow128(9)) by {
                assert(pow128(10) == 128 * pow128(9));
            }
            lemma_varint_len_bound(n / 128, 9);
        }
        let low = (head - 128) as u64;
        assert(low == n % 128);
        assert(n / 128 <= (u64::MAX - low) / 128) by {
            assert(128 * (n / 128) + n % 128 == n);
        }
        assert(low + 128 * (n / 128) == n);
        assert(spec_varint(n).len() == 1 + spec_varint(n / 128).len());
    }
}

/// Appends the canonical encoding of `n` to `out`.
pub fn encode_varint(n: u64, out: &mut Vec<u8>)
    ensures
        final(out)@ == old(out)@ + spec_varint(n),
    decreases n,
{
    if n < 128 {
        out.push(n as u8);
        assert(out@ =~= old(out)@ + spec_varint(n));
    } else {
        let ghost prefix = out@;
        out.push((n % 128 + 128) as u8);
        encode_varint(n / 128, out);
        assert(out@ =~= prefix + spec_varint(n));
    }
}

/// Decodes a variable-length integer starting at `pos`; returns the value and
/// the position just past its last byte.
pub fn take_varint(data: &[u8], pos: usize) -> (r: Option<(u64, usize)>)
    requires
        pos <= data@.len(),
    ensures
        match r {
            Some((value, end)) => {
                &&& pos < end <= data@.len()
                &&& spec_take_varint(data@.skip(pos as int)) == Some((value, end - pos))
            },
            None => spec_take_varint(data@.skip(pos as int)) is None,
        },
    decreases data@.len() - pos,
{
    if pos == data.len() {
        None
    } else {
        let b = data[pos];
        assert(data@.skip(pos as int)[0] == b);
        if b < 128 {
            Some((b as u64, pos + 1))
        } else {
            assert(data@.skip(pos as int).drop_first() =~= data@.skip(pos as int + 1));
            match take_varint(data, pos + 1) {
                None => None,
                Some((high, end)) => {
                    let low = (b - 128) as u64;
                    if end - (pos + 1) >= MAX_VARINT_LEN {
                        None
                    } else if high > (u64::MAX - low) / 128 {
                        None
                    } else {
                        assert(low + 128 * high <= u64::MAX) by {
                            assert(128 * high <= 128 * ((u64::MAX - low) / 128)) by (nonlinear_arith)
                                requires
                                    high <= (u64::MAX - low) / 128,
                            ;
                            assert(128 * ((u64::MAX - low) / 128) <= u64::MAX - low);
                        }
                        Some((low + 128 * high, end))
                    }
                },
            }
        }
    }
}

} // verus!
