//! Byte-level encodings used on the wire: little- and big-endian integers.
use vstd::prelude::*;

verus! {

/// 256 to the power `n`: how many distinct values `n` bytes can hold.
pub open spec fn byte_range(n: nat) -> nat
    decreases n,
{
    if n == 0 {
        1
    } else {
        256 * byte_range((n - 1) as nat)
    }
}

/// The `n` little-endian bytes of `value` (the value is taken modulo `256^n`).
pub open spec fn le_bytes(value: nat, n: nat) -> Seq<u8>
    decreases n,
{
    if n == 0 {
        Seq::empty()
    } else {
        seq![(value % 256) as u8] + le_bytes(value / 256, (n - 1) as nat)
    }
}

/// The unsigned number that a sequence of little-endian bytes encodes.
pub open spec fn le_value(bytes: Seq<u8>) -> nat
    decreases bytes.len(),
{
    if bytes.len() == 0 {
        0
    } else {
        bytes[0] as nat + 256 * le_value(bytes.drop_first())
    }
}

/// The two big-endian bytes of a 16-bit value.
pub open spec fn be16(value: u16) -> Seq<u8> {
    seq![(value / 256) as u8, (value % 256) as u8]
}

/// The two little-endian bytes of a 16-bit value.
pub open spec fn le16(value: u16) -> Seq<u8> {
    seq![(value % 256) as u8, (value / 256) as u8]
}

/// The four big-endian bytes of a 32-bit value.
pub open spec fn be32_value(bytes: Seq<u8>) -> nat {
    bytes[0] as nat * 16777216 + bytes[1] as nat * 65536 + bytes[2] as nat * 256 + bytes[3] as nat
}

pub proof fn lemma_byte_range_values()
    ensures
        byte_range(0) == 1,
        byte_range(1) == 0x100,
        byte_range(2) == 0x1_0000,
        byte_range(4) == 0x1_0000_0000,
        byte_range(8) == 0x1_0000_0000_0000_0000,
        byte_range(16) == 0x1_0000_0000_0000_0000_0000_0000_0000_0000,
{
    reveal_with_fuel(byte_range, 17);
}

pub proof fn lemma_byte_range_monotonic(a: nat, b: nat)
    requires
        a <= b,
    ensures
        byte_range(a) <= byte_range(b),
    decreases b,
{
    if a < b {
        lemma_byte_range_monotonic(a, (b - 1) as nat);
    }
}

pub proof fn lemma_le_bytes_len(value: nat, n: nat)
    ensures
        le_bytes(value, n).len() == n,
    decreases n,
{
    if n > 0 {
        lemma_le_bytes_len(value / 256, (n - 1) as nat);
    }
}

/// Bytes hold no more than `256^len` values.
pub proof fn lemma_le_value_bound(bytes: Seq<u8>)
    ensures
        le_value(bytes) < byte_range(bytes.len()),
    decreases bytes.len(),
{
    if bytes.len() > 0 {
        lemma_le_value_bound(bytes.drop_first());
        let r = byte_range((bytes.len() - 1) as nat);
        let t = le_value(bytes.drop_first());
        assert(bytes[0] as nat + 256 * t < 256 * r) by (nonlinear_arith)
            requires
                t < r,
                bytes[0] < 256,
        ;
    }
}

/// The value of two byte sequences one after the other: the first gives the low part,
/// the second the high part, scaled past the first.
pub proof fn lemma_le_value_concat(low: Seq<u8>, high: Seq<u8>)
    ensures
        le_value(low + high) == le_value(low) + byte_range(low.len()) * le_value(high),
    decreases low.len(),
{
    if low.len() == 0 {
        assert(low + high =~= high);
        assert(byte_range(0) == 1);
        assert(1 * le_value(high) == le_value(high));
    } else {
        lemma_le_value_concat(low.drop_first(), high);
        assert((low + high).drop_first() =~= low.drop_first() + high);
        assert((low + high)[0] == low[0]);
        let a = le_value(low.drop_first());
        let r = byte_range((low.len() - 1) as nat);
        let h = le_value(high);
        assert(256 * (a + r * h) == 256 * a + (256 * r) * h) by (nonlinear_arith);
        assert(le_value(low + high) == low[0] as nat + 256 * (a + r * h));
        assert(le_value(low) == low[0] as nat + 256 * a);
        assert(byte_range(low.len()) == 256 * r);
        assert(byte_range(low.len()) * h == (256 * r) * h);
    }
}

/// Decoding the little-endian bytes of a value that fits gives the value back.
pub proof fn lemma_le_roundtrip(value: nat, n: nat)
    requires
        value < byte_range(n),
    ensures
        le_value(le_bytes(value, n)) == value,
    decreases n,
{
    if n > 0 {
        let r = byte_range((n - 1) as nat);
        assert(value / 256 < r) by (nonlinear_arith)
            requires
                value < 256 * r,
        ;
        lemma_le_roundtrip(value / 256, (n - 1) as nat);
        let s = le_bytes(value, n);
        assert(s.drop_first() =~= le_bytes(value / 256, (n - 1) as nat));
        assert(value == value % 256 + 256 * (value / 256)) by (nonlinear_arith);
    }
}

/// Encoding the value of a byte sequence gives the same bytes back.
pub proof fn lemma_le_bytes_of_value(bytes: Seq<u8>)
    ensures
        le_bytes(le_value(bytes), bytes.len()) == bytes,
    decreases bytes.len(),
{
    if bytes.len() > 0 {
        let t = le_value(bytes.drop_first());
        let v = le_value(bytes);
        assert(v % 256 == bytes[0] as nat && v / 256 == t) by (nonlinear_arith)
            requires
                v == bytes[0] as nat + 256 * t,
                bytes[0] < 256,
        ;
        lemma_le_bytes_of_value(bytes.drop_first());
        assert(le_bytes(v, bytes.len()) =~= bytes);
    }
}

/// Unfolds `le_value` at an inner position: the bytes from `i` are the byte at `i`
/// followed by the bytes from `i + 1`.
proof fn lemma_le_value_step(bytes: Seq<u8>, i: int, end: int)
    requires
        0 <= i < end <= bytes.len(),
    ensures
        le_value(bytes.subrange(i, end)) == bytes[i] as nat + 256 * le_value(
            bytes.subrange(i + 1, end),
        ),
{
    assert(bytes.subrange(i, end).drop_first() =~= bytes.subrange(i + 1, end));
}

/// The `n` little-endian bytes of `value`.
pub fn encode_le(value: u128, n: usize) -> (out: Vec<u8>)
    requires
        n <= 16,
    ensures
        out@ == le_bytes(value as nat, n as nat),
        out@.len() == n,
{
    let mut out: Vec<u8> = Vec::new();
    let mut rest: u128 = value;
    let mut i: usize = 0;
    while i < n
        invariant
            i <= n,
            out@ + le_bytes(rest as nat, (n - i) as nat) == le_bytes(value as nat, n as nat),
        decreases n - i,
    {
        let ghost before = out@;
        let ghost x = (rest % 256) as u8;
        let ghost tail = le_bytes((rest / 256) as nat, (n - i - 1) as nat);
        assert(le_bytes(rest as nat, (n - i) as nat) == seq![x] + tail);
        out.push((rest % 256) as u8);
        rest = rest / 256;
        i = i + 1;
        assert(before + (seq![x] + tail) =~= out@ + tail);
    }
    proof {
        lemma_le_bytes_len(value as nat, n as nat);
        assert(le_bytes(rest as nat, 0) =~= Seq::<u8>::empty());
        assert(out@ + Seq::<u8>::empty() =~= out@);
    }
    out
}

/// The unsigned number encoded by `n` little-endian bytes of `bytes` from `start`.
pub fn decode_le(bytes: &[u8], start: usize, n: usize) -> (v: u128)
    requires
        n <= 16,
        start + n <= bytes@.len(),
    ensures
        v as nat == le_value(bytes@.subrange(start as int, start + n)),
{
    let mut acc: u128 = 0;
    let mut i: usize = n;
    let len = bytes.len();
    proof {
        lemma_byte_range_values();
        assert(bytes@.subrange(start + n, start + n) =~= Seq::<u8>::empty());
    }
    while i > 0
        invariant
            i <= n <= 16,
            start + n <= bytes@.len(),
            len == bytes@.len(),
            acc as nat == le_value(bytes@.subrange(start + i, start + n)),
        decreases i,
    {
        i = i - 1;
        proof {
            let rest = bytes@.subrange(start + i + 1, start + n);
            assert(rest.len() == n - i - 1);
            lemma_le_value_bound(rest);
            lemma_byte_range_monotonic((n - i - 1) as nat, 15);
            lemma_byte_range_values();
            assert(byte_range(16) == 256 * byte_range(15));
            lemma_le_value_step(bytes@, start + i, start + n);
            assert(acc < byte_range(15));
            assert(acc * 256 + 255 < byte_range(16)) by (nonlinear_arith)
                requires
                    acc < byte_range(15),
                    byte_range(16) == 256 * byte_range(15),
            ;
        }
        let b = bytes[start + i] as u128;
        assert(acc * 256 + b <= u128::MAX);
        acc = acc * 256 + b;
    }
    acc
}

} // verus!
