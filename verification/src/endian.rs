//! The mathematical model of the wire format: big-endian octet encodings.
//!
//! `be_bytes` gives the octet sequence that encodes an unsigned value in a
//! fixed number of octets, most significant octet first; `be_value` reads such
//! a sequence back.  Every stream operation's contract is stated over these
//! two functions, and the round-trip lemmas at the end of this module tie them
//! together for each supported width.

use vstd::arithmetic::div_mod::{
    lemma_div_basics, lemma_div_denominator, lemma_fundamental_div_mod, lemma_mod_bound,
};
use vstd::prelude::*;

verus! {

/// 256 raised to `n`: the number of distinct values of an `n`-octet field.
pub open spec fn pow256(n: nat) -> nat
    decreases n,
{
    if n == 0 {
        1
    } else {
        256 * pow256((n - 1) as nat)
    }
}

/// The big-endian encoding of `v` in exactly `n` octets: the low `n` base-256
/// digits of `v`, most significant first.
pub open spec fn be_bytes(v: nat, n: nat) -> Seq<u8>
    decreases n,
{
    if n == 0 {
        Seq::<u8>::empty()
    } else {
        be_bytes(v / 256, (n - 1) as nat).push((v % 256) as u8)
    }
}

/// The unsigned value of a big-endian octet sequence.
pub open spec fn be_value(s: Seq<u8>) -> nat
    decreases s.len(),
{
    if s.len() == 0 {
        0nat
    } else {
        be_value(s.drop_last()) * 256 + (s.last() as nat)
    }
}

/// `pow256` is never zero.
pub proof fn lemma_pow256_pos(n: nat)
    ensures
        pow256(n) >= 1,
    decreases n,
{
    if n > 0 {
        lemma_pow256_pos((n - 1) as nat);
    }
}

/// `pow256` is monotone.
pub proof fn lemma_pow256_le(m: nat, n: nat)
    requires
        m <= n,
    ensures
        pow256(m) <= pow256(n),
    decreases n,
{
    if m < n {
        lemma_pow256_le(m, (n - 1) as nat);
        lemma_pow256_pos((n - 1) as nat);
    }
}

/// The concrete powers of 256 for the widths the streams use.
pub proof fn lemma_pow256_values()
    ensures
        pow256(0) == 1,
        pow256(1) == 0x100,
        pow256(2) == 0x1_0000,
        pow256(3) == 0x100_0000,
        pow256(4) == 0x1_0000_0000,
        pow256(5) == 0x100_0000_0000,
        pow256(6) == 0x1_0000_0000_0000,
        pow256(7) == 0x100_0000_0000_0000,
        pow256(8) == 0x1_0000_0000_0000_0000,
{
    reveal_with_fuel(pow256, 9);
}

/// An encoding is exactly as long as the width asked for.
pub proof fn lemma_be_bytes_len(v: nat, n: nat)
    ensures
        be_bytes(v, n).len() == n,
    decreases n,
{
    if n > 0 {
        lemma_be_bytes_len(v / 256, (n - 1) as nat);
    }
}

/// Peeling the most significant octet off an encoding: the first octet of an
/// `n + 1`-octet encoding holds digit `n` of the value.
pub proof fn lemma_be_bytes_split_high(v: nat, n: nat)
    ensures
        be_bytes(v, (n + 1) as nat) == seq![((v / pow256(n)) % 256) as u8] + be_bytes(v, n),
    decreases n,
{
    if n == 0 {
        lemma_div_basics(v as int);
        reveal_with_fuel(be_bytes, 3);
        assert(be_bytes(v, 1nat) =~= seq![((v / pow256(0)) % 256) as u8] + be_bytes(v, 0nat));
    } else {
        lemma_be_bytes_split_high(v / 256, (n - 1) as nat);
        lemma_pow256_pos((n - 1) as nat);
        lemma_div_denominator(v as int, 256, pow256((n - 1) as nat) as int);
        assert(256 * pow256((n - 1) as nat) == pow256(n));
        assert(be_bytes(v, (n + 1) as nat) =~= seq![((v / pow256(n)) % 256) as u8] + be_bytes(
            v,
            n,
        ));
    }
}

/// Octet `i` of an `n`-octet encoding is digit `n - 1 - i` of the value: the
/// most significant octet comes first.
pub proof fn lemma_be_bytes_index(v: nat, n: nat, i: int)
    requires
        0 <= i < n,
    ensures
        be_bytes(v, n)[i] == ((v / pow256((n - 1 - i) as nat)) % 256) as u8,
    decreases n,
{
    lemma_be_bytes_split_high(v, (n - 1) as nat);
    lemma_be_bytes_len(v, (n - 1) as nat);
    if i > 0 {
        lemma_be_bytes_index(v, (n - 1) as nat, i - 1);
    }
}

/// Decoding inverts encoding: reading back the `n`-octet big-endian encoding
/// of any value below `256^n` yields that value again.
pub proof fn lemma_be_round_trip(v: nat, n: nat)
    requires
        v < pow256(n),
    ensures
        be_value(be_bytes(v, n)) == v,
    decreases n,
{
    if n == 0 {
    } else {
        let s: Seq<u8> = be_bytes(v, n);
        lemma_be_bytes_len(v, n);
        lemma_be_bytes_len(v / 256, (n - 1) as nat);
        assert(s.drop_last() =~= be_bytes(v / 256, (n - 1) as nat));
        lemma_fundamental_div_mod(v as int, 256);
        lemma_mod_bound(v as int, 256);
        assert(v / 256 < pow256((n - 1) as nat));
        lemma_be_round_trip(v / 256, (n - 1) as nat);
    }
}

/// Round trip at width one: any `u8` survives encoding and decoding.
pub proof fn lemma_round_trip_u8(v: u8)
    ensures
        be_value(be_bytes(v as nat, 1)) == v as nat,
{
    lemma_pow256_values();
    lemma_be_round_trip(v as nat, 1);
}

/// Round trip at width two: any `u16` survives encoding and decoding.
pub proof fn lemma_round_trip_u16(v: u16)
    ensures
        be_value(be_bytes(v as nat, 2)) == v as nat,
{
    lemma_pow256_values();
    lemma_be_round_trip(v as nat, 2);
}

/// Round trip at width four: any `u32` survives encoding and decoding.
pub proof fn lemma_round_trip_u32(v: u32)
    ensures
        be_value(be_bytes(v as nat, 4)) == v as nat,
{
    lemma_pow256_values();
    lemma_be_round_trip(v as nat, 4);
}

/// Round trip at width eight: any `u64` survives encoding and decoding.
pub proof fn lemma_round_trip_u64(v: u64)
    ensures
        be_value(be_bytes(v as nat, 8)) == v as nat,
{
    lemma_pow256_values();
    lemma_be_round_trip(v as nat, 8);
}

/// Round trip for `i8`: the two's-complement octet pattern of any `i8` comes
/// back as the same value.
pub proof fn lemma_round_trip_i8(v: i8)
    ensures
        (be_value(be_bytes((v as u8) as nat, 1)) as u8) as i8 == v,
{
    lemma_round_trip_u8(v as u8);
    assert((v as u8) as i8 == v) by (bit_vector);
}

/// Round trip for `i16`: the two's-complement octet pattern of any `i16`
/// comes back as the same value.
pub proof fn lemma_round_trip_i16(v: i16)
    ensures
        (be_value(be_bytes((v as u16) as nat, 2)) as u16) as i16 == v,
{
    lemma_round_trip_u16(v as u16);
    assert((v as u16) as i16 == v) by (bit_vector);
}

/// Round trip for `i32`: the two's-complement octet pattern of any `i32`
/// comes back as the same value.
pub proof fn lemma_round_trip_i32(v: i32)
    ensures
        (be_value(be_bytes((v as u32) as nat, 4)) as u32) as i32 == v,
{
    lemma_round_trip_u32(v as u32);
    assert((v as u32) as i32 == v) by (bit_vector);
}

/// Round trip for `i64`: the two's-complement octet pattern of any `i64`
/// comes back as the same value.
pub proof fn lemma_round_trip_i64(v: i64)
    ensures
        (be_value(be_bytes((v as u64) as nat, 8)) as u64) as i64 == v,
{
    lemma_round_trip_u64(v as u64);
    assert((v as u64) as i64 == v) by (bit_vector);
}

/// Marker framing round trip: with both marker flags enabled and matching
/// sentinels, a frame of one sentinel octet followed by a `w`-octet encoding
/// is exactly `1 + w` octets long, opens with the sentinel, and its remainder
/// decodes to the original value; the flags-disabled frame is the bare
/// `w`-octet encoding.
pub proof fn lemma_marker_frame_round_trip(m: u8, v: nat, w: nat)
    requires
        v < pow256(w),
    ensures
        ({
            let frame = seq![m] + be_bytes(v, w);
            &&& frame.len() == 1 + w
            &&& frame[0] == m
            &&& be_value(frame.subrange(1, 1 + w as int)) == v
            &&& be_bytes(v, w).len() == w
        }),
{
    lemma_be_bytes_len(v, w);
    lemma_be_round_trip(v, w);
    assert((seq![m] + be_bytes(v, w)).subrange(1, 1 + w as int) =~= be_bytes(v, w));
}

/// Encodes the low `width` octets of `v` in big-endian order.
pub fn encode_be(v: u64, width: usize) -> (r: Vec<u8>)
    requires
        width <= 8,
    ensures
        r@ == be_bytes(v as nat, width as nat),
        r@.len() == width,
{
    let mut out: Vec<u8> = Vec::new();
    let mut w: u64 = v;
    let mut i: usize = 0;
    proof {
        lemma_div_basics(v as int);
    }
    while i < width
        invariant
            i <= width <= 8,
            out@ == be_bytes(v as nat, i as nat),
            out@.len() == i,
            w as nat == v as nat / pow256(i as nat),
        decreases width - i,
    {
        let b: u8 = (w % 256) as u8;
        out.insert(0, b);
        w = w / 256;
        i = i + 1;
        proof {
            let j: nat = (i - 1) as nat;
            lemma_be_bytes_split_high(v as nat, j);
            lemma_be_bytes_len(v as nat, j);
            lemma_pow256_pos(j);
            lemma_div_denominator(v as int, pow256(j) as int, 256);
            assert(pow256(j) * 256 == pow256(i as nat));
            assert(out@ =~= seq![((v as nat / pow256(j)) % 256) as u8] + be_bytes(v as nat, j));
        }
    }
    out
}

/// Decodes `width` big-endian octets of `data`, starting at `pos`.
pub fn decode_be(data: &[u8], pos: usize, width: usize) -> (r: u64)
    requires
        width <= 8,
        pos + width <= data@.len(),
    ensures
        r as nat == be_value(data@.subrange(pos as int, pos + width)),
        (r as nat) < pow256(width as nat),
{
    let dlen: usize = data.len();
    let mut acc: u64 = 0;
    let mut i: usize = 0;
    proof {
        lemma_pow256_values();
        assert(data@.subrange(pos as int, pos as int) =~= Seq::<u8>::empty());
    }
    while i < width
        invariant
            i <= width <= 8,
            pos + width <= dlen == data@.len(),
            acc as nat == be_value(data@.subrange(pos as int, pos + i)),
            (acc as nat) < pow256(i as nat),
        decreases width - i,
    {
        proof {
            lemma_pow256_le(i as nat, 7);
            lemma_pow256_values();
        }
        let b: u8 = data[pos + i];
        acc = acc * 256 + (b as u64);
        i = i + 1;
        proof {
            let s: Seq<u8> = data@.subrange(pos as int, pos + i);
            assert(s.drop_last() =~= data@.subrange(pos as int, pos + i - 1));
            assert(s.last() == b);
        }
    }
    acc
}

} // verus!
