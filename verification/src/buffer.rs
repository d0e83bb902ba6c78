//! A cursor over the bytes of a brain's response.
use vstd::prelude::*;
use vstd::utf8::*;
use crate::bytes::{
    byte_range, decode_le, le_value, lemma_byte_range_values, lemma_le_value_bound,
    lemma_le_value_concat,
};

verus! {

/// Decodes UTF-8 bytes with `std::str::from_utf8` and copies the text into a `String`.
/// The contract claims what the standard library documents: the bytes are accepted
/// exactly when they are valid UTF-8, and then the text is their decoding.
#[verifier::external_body]
pub(crate) fn utf8_to_string(bytes: &[u8]) -> (text: Option<String>)
    ensures
        text is Some <==> valid_utf8(bytes@),
        text matches Some(t) ==> t@ == decode_utf8(bytes@),
{
    std::str::from_utf8(bytes).ok().map(|s| s.to_string())
}

/// The smaller of two integers.
pub open spec fn min_int(a: int, b: int) -> int {
    if a < b { a } else { b }
}

/// Index of the first zero byte of `bytes` in `[from, to)`, if any.
pub open spec fn first_nul(bytes: Seq<u8>, from: int, to: int) -> Option<int>
    decreases to - from,
{
    if from >= to {
        None
    } else if bytes[from] == 0 {
        Some(from)
    } else {
        first_nul(bytes, from + 1, to)
    }
}

pub proof fn lemma_first_nul_bounds(bytes: Seq<u8>, from: int, to: int)
    ensures
        first_nul(bytes, from, to) matches Some(i) ==> from <= i < to && bytes[i] == 0 && (
        forall|j: int| from <= j < i ==> bytes[j] != 0),
        first_nul(bytes, from, to) is None ==> forall|j: int| from <= j < to ==> bytes[j] != 0,
    decreases to - from,
{
    if from < to {
        lemma_first_nul_bounds(bytes, from + 1, to);
    }
}

/// Finds the first zero byte of `bytes` in `[from, to)`.
pub fn find_nul(bytes: &[u8], from: usize, to: usize) -> (found: Option<usize>)
    requires
        from <= to <= bytes@.len(),
    ensures
        found == (match first_nul(bytes@, from as int, to as int) {
            Some(i) => Some(i as usize),
            None => None::<usize>,
        }),
{
    let mut i = from;
    while i < to
        invariant
            from <= i <= to <= bytes@.len(),
            first_nul(bytes@, from as int, to as int) == first_nul(bytes@, i as int, to as int),
        decreases to - i,
    {
        if bytes[i] == 0 {
            proof { lemma_first_nul_bounds(bytes@, i as int, to as int); }
            return Some(i);
        }
        i = i + 1;
    }
    None
}

/// The bytes of a response and the position of the next read.
pub struct ReceivingBuffer {
    buffer: Vec<u8>,
    pos: usize,
}

impl ReceivingBuffer {
    /// The bytes held.
    pub closed spec fn spec_data(&self) -> Seq<u8> {
        self.buffer@
    }

    /// The position of the next read.
    pub closed spec fn spec_pos(&self) -> nat {
        self.pos as nat
    }

    /// The bytes held fit in memory: their count is a `usize`.
    pub proof fn lemma_len_fits(&self)
        ensures
            self.spec_data().len() <= usize::MAX,
    {
        assert(self.buffer.len() == self.buffer@.len());
    }

    /// The `n` bytes from the read position.
    pub open spec fn window(&self, n: nat) -> Seq<u8> {
        self.spec_data().subrange(self.spec_pos() as int, (self.spec_pos() + n) as int)
    }

    /// There are `n` bytes left from the read position.
    pub open spec fn can_read(&self, n: nat) -> bool {
        self.spec_pos() + n <= self.spec_data().len()
    }

    /// `next` holds the same bytes as `self`, with the position moved on by `n`.
    pub open spec fn advanced(&self, next: Self, n: nat) -> bool {
        &&& next.spec_data() == self.spec_data()
        &&& next.spec_pos() == self.spec_pos() + n
    }

    pub fn new(buffer: Vec<u8>, pos: usize) -> (r: ReceivingBuffer)
        ensures
            r.spec_data() == buffer@,
            r.spec_pos() == pos,
    {
        ReceivingBuffer { buffer, pos }
    }

    /// The unsigned value of the `n` bytes at the read position; moves past them.
    fn read_le(&mut self, n: usize) -> (v: u128)
        requires
            n <= 16,
            old(self).can_read(n as nat),
        ensures
            v as nat == le_value(old(self).window(n as nat)),
            old(self).advanced(*final(self), n as nat),
    {
        let _len = self.buffer.len();
        let v = decode_le(self.buffer.as_slice(), self.pos, n);
        self.pos = self.pos + n;
        v
    }

    pub fn read_u8(&mut self) -> (v: u8)
        requires
            old(self).can_read(1),
        ensures
            v == old(self).spec_data()[old(self).spec_pos() as int],
            v as nat == le_value(old(self).window(1)),
            old(self).advanced(*final(self), 1),
    {
        let _len = self.buffer.len();
        let v = self.buffer[self.pos];
        proof {
            let w = old(self).window(1);
            assert(w.drop_first() =~= Seq::<u8>::empty());
            assert(le_value(w.drop_first()) == 0);
        }
        self.pos = self.pos + 1;
        v
    }

    pub fn read_i8(&mut self) -> (v: i8)
        requires
            old(self).can_read(1),
        ensures
            v == (le_value(old(self).window(1)) as u8) as i8,
            old(self).advanced(*final(self), 1),
    {
        let v = self.read_le(1);
        proof { lemma_le_value_bound(old(self).window(1)); lemma_byte_range_values(); }
        (v as u8) as i8
    }

    pub fn read_u16(&mut self) -> (v: u16)
        requires
            old(self).can_read(2),
        ensures
            v as nat == le_value(old(self).window(2)),
            old(self).advanced(*final(self), 2),
    {
        let v = self.read_le(2);
        proof { lemma_le_value_bound(old(self).window(2)); lemma_byte_range_values(); }
        v as u16
    }

    pub fn read_i16(&mut self) -> (v: i16)
        requires
            old(self).can_read(2),
        ensures
            v == (le_value(old(self).window(2)) as u16) as i16,
            old(self).advanced(*final(self), 2),
    {
        let v = self.read_le(2);
        proof { lemma_le_value_bound(old(self).window(2)); lemma_byte_range_values(); }
        (v as u16) as i16
    }

    pub fn read_u32(&mut self) -> (v: u32)
        requires
            old(self).can_read(4),
        ensures
            v as nat == le_value(old(self).window(4)),
            old(self).advanced(*final(self), 4),
    {
        let v = self.read_le(4);
        proof { lemma_le_value_bound(old(self).window(4)); lemma_byte_range_values(); }
        v as u32
    }

    pub fn read_i32(&mut self) -> (v: i32)
        requires
            old(self).can_read(4),
        ensures
            v == (le_value(old(self).window(4)) as u32) as i32,
            old(self).advanced(*final(self), 4),
    {
        let v = self.read_le(4);
        proof { lemma_le_value_bound(old(self).window(4)); lemma_byte_range_values(); }
        (v as u32) as i32
    }

    pub fn read_u64(&mut self) -> (v: u64)
        requires
            old(self).can_read(8),
        ensures
            v as nat == le_value(old(self).window(8)),
            old(self).advanced(*final(self), 8),
    {
        let v = self.read_le(8);
        proof { lemma_le_value_bound(old(self).window(8)); lemma_byte_range_values(); }
        v as u64
    }

    pub fn read_i64(&mut self) -> (v: i64)
        requires
            old(self).can_read(8),
        ensures
            v == (le_value(old(self).window(8)) as u64) as i64,
            old(self).advanced(*final(self), 8),
    {
        let v = self.read_le(8);
        proof { lemma_le_value_bound(old(self).window(8)); lemma_byte_range_values(); }
        (v as u64) as i64
    }

    pub fn read_u128(&mut self) -> (v: u128)
        requires
            old(self).can_read(16),
        ensures
            v as nat == le_value(old(self).window(16)),
            old(self).advanced(*final(self), 16),
    {
        self.read_le(16)
    }

    pub fn read_i128(&mut self) -> (v: i128)
        requires
            old(self).can_read(16),
        ensures
            v == (le_value(old(self).window(16)) as u128) as i128,
            old(self).advanced(*final(self), 16),
    {
        let v = self.read_le(16);
        v as i128
    }

    /// Fills `slice` with the next `slice.len()` bytes.
    pub fn read_raw(&mut self, slice: &mut [u8])
        requires
            old(self).can_read(old(slice)@.len()),
        ensures
            final(slice)@ == old(self).window(old(slice)@.len()),
            old(self).advanced(*final(self), old(slice)@.len()),
    {
        let n = slice.len();
        let _len = self.buffer.len();
        let mut i: usize = 0;
        while i < n
            invariant
                n == slice@.len() == old(slice)@.len(),
                i <= n,
                self.pos + n <= self.buffer@.len(),
                _len == self.buffer@.len(),
                *self == *old(self),
                forall|j: int| 0 <= j < i ==> slice@[j] == self.buffer@[self.pos + j],
            decreases n - i,
        {
            let b = self.buffer[self.pos + i];
            slice[i] = b;
            i = i + 1;
        }
        proof {
            assert(slice@ =~= old(self).window(n as nat));
        }
        self.pos = self.pos + n;
    }

    /// Reads a zero-terminated string from at most the next `target_len` bytes (the
    /// window stops at the end of the data) and moves past the string and its terminator.
    pub fn read_str(&mut self, target_len: usize) -> (s: String)
        requires
            old(self).spec_pos() <= old(self).spec_data().len(),
            old(self).spec_pos() + target_len <= usize::MAX,
            first_nul(
                old(self).spec_data(),
                old(self).spec_pos() as int,
                min_int(old(self).spec_pos() + target_len, old(self).spec_data().len() as int),
            ) matches Some(end) && valid_utf8(
                old(self).spec_data().subrange(old(self).spec_pos() as int, end),
            ),
        ensures
            ({
                let end = first_nul(
                    old(self).spec_data(),
                    old(self).spec_pos() as int,
                    min_int(old(self).spec_pos() + target_len, old(self).spec_data().len() as int),
                )->0;
                &&& s@ == decode_utf8(old(self).spec_data().subrange(old(self).spec_pos() as int, end))
                &&& old(self).advanced(*final(self), (end - old(self).spec_pos() + 1) as nat)
            }),
    {
        let len = self.buffer.len();
        let limit = if self.pos + target_len < len { self.pos + target_len } else { len };
        let end = find_nul(self.buffer.as_slice(), self.pos, limit);
        let end = match end {
            Some(e) => e,
            None => { proof { assert(false); } 0 },
        };
        proof { lemma_first_nul_bounds(self.buffer@, self.pos as int, limit as int); }
        let text = slice_copy(self.buffer.as_slice(), self.pos, end);
        let s = match utf8_to_string(text.as_slice()) {
            Some(s) => s,
            None => { proof { assert(false); } String::new() },
        };
        self.pos = end + 1;
        s
    }

    /// Reads a zero-terminated string held in a field of exactly `len` bytes and moves
    /// past the whole field.
    pub fn read_padded_str(&mut self, len: usize) -> (s: String)
        requires
            old(self).can_read(len as nat),
            first_nul(
                old(self).spec_data(),
                old(self).spec_pos() as int,
                old(self).spec_pos() + len,
            ) matches Some(end) && valid_utf8(
                old(self).spec_data().subrange(old(self).spec_pos() as int, end),
            ),
        ensures
            ({
                let end = first_nul(
                    old(self).spec_data(),
                    old(self).spec_pos() as int,
                    old(self).spec_pos() + len,
                )->0;
                s@ == decode_utf8(old(self).spec_data().subrange(old(self).spec_pos() as int, end))
            }),
            old(self).advanced(*final(self), len as nat),
    {
        let _total = self.buffer.len();
        let end = find_nul(self.buffer.as_slice(), self.pos, self.pos + len);
        let end = match end {
            Some(e) => e,
            None => { proof { assert(false); } 0 },
        };
        proof { lemma_first_nul_bounds(self.buffer@, self.pos as int, self.pos + len); }
        let text = slice_copy(self.buffer.as_slice(), self.pos, end);
        let s = match utf8_to_string(text.as_slice()) {
            Some(s) => s,
            None => { proof { assert(false); } String::new() },
        };
        self.pos = self.pos + len;
        s
    }

    /// Moves the read position on by `amount`.
    pub fn skip(&mut self, amount: usize)
        requires
            old(self).spec_pos() + amount <= usize::MAX,
        ensures
            old(self).advanced(*final(self), amount as nat),
    {
        self.pos = self.pos + amount;
    }

    /// How many bytes are left from the read position: none once it is past the end.
    pub open spec fn spec_remaining(&self) -> nat {
        if self.spec_pos() <= self.spec_data().len() {
            (self.spec_data().len() - self.spec_pos()) as nat
        } else {
            0
        }
    }

    /// How many bytes are left from the read position.
    pub fn remaining(&self) -> (n: usize)
        ensures
            n == self.spec_remaining(),
    {
        if self.pos <= self.buffer.len() {
            self.buffer.len() - self.pos
        } else {
            0
        }
    }

    /// A zero-terminated UTF-8 string can be read from at most the next `target_len`
    /// bytes, as `read_str` asks.
    pub open spec fn str_readable(&self, target_len: nat) -> bool {
        &&& self.spec_pos() <= self.spec_data().len()
        &&& self.spec_pos() + target_len <= usize::MAX
        &&& first_nul(
            self.spec_data(),
            self.spec_pos() as int,
            min_int((self.spec_pos() + target_len) as int, self.spec_data().len() as int),
        ) matches Some(end) && valid_utf8(self.spec_data().subrange(self.spec_pos() as int, end))
    }

    /// Whether `read_str` can read a string from at most the next `target_len` bytes.
    pub fn can_read_str(&self, target_len: usize) -> (ok: bool)
        ensures
            ok == self.str_readable(target_len as nat),
    {
        let len = self.buffer.len();
        if self.pos > len || target_len > usize::MAX - self.pos {
            return false;
        }
        let limit = if self.pos + target_len < len { self.pos + target_len } else { len };
        match find_nul(self.buffer.as_slice(), self.pos, limit) {
            Some(end) => {
                proof { lemma_first_nul_bounds(self.buffer@, self.pos as int, limit as int); }
                utf8_between(self.buffer.as_slice(), self.pos, end)
            },
            None => false,
        }
    }

    /// Reads a zero-terminated string as `read_str` does where one can be read; else
    /// `None`, with nothing read.
    pub fn try_read_str(&mut self, target_len: usize) -> (s: Option<String>)
        ensures
            old(self).str_readable(target_len as nat) ==> ({
                let end = first_nul(
                    old(self).spec_data(),
                    old(self).spec_pos() as int,
                    min_int(old(self).spec_pos() + target_len, old(self).spec_data().len() as int),
                )->0;
                &&& s matches Some(t) && t@ == decode_utf8(
                    old(self).spec_data().subrange(old(self).spec_pos() as int, end),
                )
                &&& old(self).advanced(*final(self), (end - old(self).spec_pos() + 1) as nat)
            }),
            !old(self).str_readable(target_len as nat) ==> s is None && *final(self) == *old(self),
    {
        if self.can_read_str(target_len) {
            Some(self.read_str(target_len))
        } else {
            None
        }
    }

    /// The position of the next read.
    pub fn position(&self) -> (p: usize)
        ensures
            p == self.spec_pos(),
    {
        self.pos
    }

    pub fn len(&self) -> (n: usize)
        ensures
            n == self.spec_data().len(),
    {
        self.buffer.len()
    }

    pub fn is_empty(&self) -> (b: bool)
        ensures
            b == (self.spec_data().len() == 0),
    {
        self.buffer.len() == 0
    }

    pub fn data(&self) -> (d: &[u8])
        ensures
            d@ == self.spec_data(),
    {
        self.buffer.as_slice()
    }

    /// The bytes from the read position to the end (none once the position is past it).
    pub fn get_all(&self) -> (rest: Vec<u8>)
        ensures
            self.spec_pos() <= self.spec_data().len() ==> rest@ == self.spec_data().subrange(
                self.spec_pos() as int,
                self.spec_data().len() as int,
            ),
            self.spec_pos() > self.spec_data().len() ==> rest@.len() == 0,
    {
        let n = self.buffer.len();
        if self.pos <= n {
            slice_copy(self.buffer.as_slice(), self.pos, n)
        } else {
            Vec::new()
        }
    }

    pub fn consume(self) -> (d: Vec<u8>)
        ensures
            d@ == self.spec_data(),
    {
        self.buffer
    }
}

/// A 128-bit read gives what two 64-bit reads from the same place give, the first as the
/// low half: `mid` is `b` after the first of them.
pub proof fn lemma_read_u128_is_two_u64(b: ReceivingBuffer, mid: ReceivingBuffer)
    requires
        b.can_read(16),
        b.advanced(mid, 8),
    ensures
        mid.can_read(8),
        le_value(b.window(16)) == le_value(b.window(8)) + le_value(mid.window(8))
            * 0x1_0000_0000_0000_0000,
{
    assert(b.window(16) =~= b.window(8) + mid.window(8));
    lemma_le_value_concat(b.window(8), mid.window(8));
    lemma_byte_range_values();
    let hi = le_value(mid.window(8));
    assert(b.window(8).len() == 8);
    assert(byte_range(b.window(8).len()) * hi == hi * 0x1_0000_0000_0000_0000) by (nonlinear_arith)
        requires
            byte_range(b.window(8).len()) == 0x1_0000_0000_0000_0000,
    ;
}

/// One buffer state leads to the next by a read: the bytes stay, the position moves on.
pub open spec fn read_step(before: ReceivingBuffer, after: ReceivingBuffer) -> bool {
    exists|n: nat| before.advanced(after, n)
}

/// Reads never change the bytes a buffer holds: after a buffer is made of `bytes` and
/// read any number of times, its length is the length of `bytes`, and its data and what
/// `consume` gives back are `bytes`.
pub proof fn lemma_reads_keep_bytes(states: Seq<ReceivingBuffer>, bytes: Seq<u8>)
    requires
        states.len() > 0,
        states[0].spec_data() == bytes,
        forall|i: int| 0 <= i < states.len() - 1 ==> read_step(#[trigger] states[i], states[i + 1]),
    ensures
        forall|i: int| 0 <= i < states.len() ==> (#[trigger] states[i]).spec_data() == bytes,
        states.last().spec_data().len() == bytes.len(),
    decreases states.len(),
{
    if states.len() > 1 {
        let front = states.drop_last();
        assert forall|i: int| 0 <= i < front.len() - 1 implies read_step(#[trigger] front[i], front[i + 1]) by {
            assert(front[i] == states[i] && front[i + 1] == states[i + 1]);
            assert(read_step(states[i], states[i + 1]));
        }
        lemma_reads_keep_bytes(front, bytes);
        let k = states.len() - 2;
        assert(front[k] == states[k]);
        assert(read_step(states[k], states[k + 1]));
        assert forall|i: int| 0 <= i < states.len() implies (#[trigger] states[i]).spec_data() == bytes by {
            if i < states.len() - 1 {
                assert(front[i] == states[i]);
            }
        }
    }
}

/// Whether `bytes[from..to]` is valid UTF-8.
pub fn utf8_between(bytes: &[u8], from: usize, to: usize) -> (valid: bool)
    requires
        from <= to <= bytes@.len(),
    ensures
        valid == valid_utf8(bytes@.subrange(from as int, to as int)),
{
    let part = slice_copy(bytes, from, to);
    utf8_to_string(part.as_slice()).is_some()
}

/// A copy of `bytes[from..to]`.
pub fn slice_copy(bytes: &[u8], from: usize, to: usize) -> (out: Vec<u8>)
    requires
        from <= to <= bytes@.len(),
    ensures
        out@ == bytes@.subrange(from as int, to as int),
{
    let mut out: Vec<u8> = Vec::new();
    let mut i = from;
    while i < to
        invariant
            from <= i <= to <= bytes@.len(),
            out@ == bytes@.subrange(from as int, i as int),
        decreases to - i,
    {
        out.push(bytes[i]);
        i = i + 1;
        assert(out@ =~= bytes@.subrange(from as int, i as int));
    }
    out
}

/// What a request writes, an answer read at the same place gives back: a number
/// written as its little-endian bytes reads back as itself, and a signed number,
/// written as the bytes of its two's complement, reads back as itself at every width.
pub proof fn lemma_write_read_roundtrip(a: i8, b: i16, c: i32, d: i64, e: i128, value: nat, n: nat)
    requires
        value < crate::bytes::byte_range(n),
    ensures
        le_value(crate::bytes::le_bytes(value, n)) == value,
        (le_value(crate::bytes::le_bytes((a as u8) as nat, 1)) as u8) as i8 == a,
        (le_value(crate::bytes::le_bytes((b as u16) as nat, 2)) as u16) as i16 == b,
        (le_value(crate::bytes::le_bytes((c as u32) as nat, 4)) as u32) as i32 == c,
        (le_value(crate::bytes::le_bytes((d as u64) as nat, 8)) as u64) as i64 == d,
        (le_value(crate::bytes::le_bytes((e as u128) as nat, 16)) as u128) as i128 == e,
{
    lemma_byte_range_values();
    crate::bytes::lemma_le_roundtrip(value, n);
    crate::bytes::lemma_le_roundtrip((a as u8) as nat, 1);
    crate::bytes::lemma_le_roundtrip((b as u16) as nat, 2);
    crate::bytes::lemma_le_roundtrip((c as u32) as nat, 4);
    crate::bytes::lemma_le_roundtrip((d as u64) as nat, 8);
    crate::bytes::lemma_le_roundtrip((e as u128) as nat, 16);
    assert((a as u8) as i8 == a) by (bit_vector);
    assert((b as u16) as i16 == b) by (bit_vector);
    assert((c as u32) as i32 == c) by (bit_vector);
    assert((d as u64) as i64 == d) by (bit_vector);
    assert((e as u128) as i128 == e) by (bit_vector);
}

} // verus!
