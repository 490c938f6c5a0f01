//! Little-endian field reading over a byte buffer, with the semantics of a
//! positioned cursor: a read that does not fit leaves the cursor at the end.

use vstd::prelude::*;

verus! {

/// Unsigned value of the two bytes at `p`, little-endian.
pub open spec fn le16(s: Seq<u8>, p: int) -> int {
    s[p] + s[p + 1] * 256
}

/// Unsigned value of the four bytes at `p`, little-endian.
pub open spec fn le32(s: Seq<u8>, p: int) -> int {
    le16(s, p) + le16(s, p + 2) * 65536
}

/// Unsigned value of the eight bytes at `p`, little-endian.
pub open spec fn le64(s: Seq<u8>, p: int) -> int {
    le32(s, p) + le32(s, p + 4) * 4294967296
}

/// The four little-endian bytes of `v`.
pub open spec fn u32_bytes(v: u32) -> Seq<u8> {
    seq![(v % 256) as u8, ((v / 256) % 256) as u8, ((v / 65536) % 256) as u8, (v / 16777216) as u8]
}

/// Pairs of 32-bit values written one after the other, each value
/// little-endian and the first of a pair first.
pub open spec fn u32_pairs_bytes(pairs: Seq<(u32, u32)>) -> Seq<u8>
    decreases pairs.len(),
{
    if pairs.len() == 0 {
        seq![]
    } else {
        u32_bytes(pairs[0].0) + u32_bytes(pairs[0].1) + u32_pairs_bytes(pairs.drop_first())
    }
}

/// Reading four bytes written from `v` gives `v` back.
pub proof fn lemma_le32_reads_written(s: Seq<u8>, p: int, v: u32)
    requires
        0 <= p,
        p + 4 <= s.len(),
        forall|j: int| 0 <= j < 4 ==> s[p + j] == #[trigger] u32_bytes(v)[j],
    ensures
        le32(s, p) == v,
{
    let b = u32_bytes(v);
    assert(s[p] == b[0] && s[p + 1] == b[1] && s[p + 2] == b[2] && s[p + 3] == b[3]);
    assert(v / 16777216 < 256) by (bit_vector);
    assert((v % 256) + ((v / 256) % 256) * 256 + (((v / 65536) % 256) + (v / 16777216) * 256) * 65536 == v) by (bit_vector);
}

/// Where each value of written pairs stands: eight bytes per pair, the
/// first value at the pair's start and the second four bytes later.
pub proof fn lemma_u32_pairs_bytes(pairs: Seq<(u32, u32)>)
    ensures
        u32_pairs_bytes(pairs).len() == 8 * pairs.len(),
        forall|i: int, j: int| 0 <= i < pairs.len() && 0 <= j < 4 ==> {
            &&& #[trigger] u32_pairs_bytes(pairs)[8 * i + j] == u32_bytes(pairs[i].0)[j]
            &&& u32_pairs_bytes(pairs)[8 * i + 4 + j] == u32_bytes(pairs[i].1)[j]
        },
    decreases pairs.len(),
{
    if pairs.len() > 0 {
        let tail = pairs.drop_first();
        lemma_u32_pairs_bytes(tail);
        let b = u32_pairs_bytes(pairs);
        let head = u32_bytes(pairs[0].0) + u32_bytes(pairs[0].1);
        assert(b == head + u32_pairs_bytes(tail));
        assert forall|i: int, j: int| 0 <= i < pairs.len() && 0 <= j < 4 implies {
            &&& #[trigger] b[8 * i + j] == u32_bytes(pairs[i].0)[j]
            &&& b[8 * i + 4 + j] == u32_bytes(pairs[i].1)[j]
        } by {
            if i > 0 {
                assert(b[8 * i + j] == u32_pairs_bytes(tail)[8 * (i - 1) + j]);
                assert(b[8 * i + 4 + j] == u32_pairs_bytes(tail)[8 * (i - 1) + 4 + j]);
                assert(tail[i - 1] == pairs[i]);
            }
        }
    }
}

/// Two's-complement reading of a 32-bit unsigned value.
pub open spec fn as_i32(v: int) -> int {
    if v < 0x8000_0000 { v } else { v - 0x1_0000_0000 }
}

/// Whether `n` bytes are available at `p`.
pub open spec fn fits(s: Seq<u8>, p: int, n: int) -> bool {
    0 <= p && p + n <= s.len()
}

/// Cursor position after an attempted read of `n` bytes at `p`.
pub open spec fn after(s: Seq<u8>, p: int, n: int) -> int {
    if fits(s, p, n) { p + n } else { s.len() as int }
}

/// `u16` at `p`, or `d` when it does not fit.
pub open spec fn u16_or(s: Seq<u8>, p: int, d: int) -> int {
    if fits(s, p, 2) { le16(s, p) } else { d }
}

/// `u32` at `p`, or `d` when it does not fit.
pub open spec fn u32_or(s: Seq<u8>, p: int, d: int) -> int {
    if fits(s, p, 4) { le32(s, p) } else { d }
}

/// `u64` at `p`, or `d` when it does not fit.
pub open spec fn u64_or(s: Seq<u8>, p: int, d: int) -> int {
    if fits(s, p, 8) { le64(s, p) } else { d }
}

/// `i32` at `p`, or `d` when it does not fit.
pub open spec fn i32_or(s: Seq<u8>, p: int, d: int) -> int {
    if fits(s, p, 4) { as_i32(le32(s, p)) } else { d }
}

/// `u8` at `p`, or `d` when it does not fit.
pub open spec fn u8_or(s: Seq<u8>, p: int, d: int) -> int {
    if fits(s, p, 1) { s[p] as int } else { d }
}

/// Where a cursor stands that has been asked to move to `off`: reads that do
/// not fit leave it at the end of the buffer.
pub open spec fn clamp(s: Seq<u8>, off: int) -> int {
    if off <= s.len() { off } else { s.len() as int }
}

/// A read at a clamped offset behaves as a read at the offset itself.
pub proof fn lemma_clamped_read(s: Seq<u8>, off: int, n: int)
    requires
        0 <= off,
        1 <= n,
    ensures
        fits(s, clamp(s, off), n) == fits(s, off, n),
        fits(s, off, n) ==> clamp(s, off) == off,
        after(s, clamp(s, off), n) == clamp(s, off + n),
{
}

/// The view of an optional value.
pub open spec fn view_opt<T: View>(o: Option<T>) -> Option<T::V> {
    match o {
        Some(t) => Some(t@),
        None => None,
    }
}

/// Little-endian `u16` from two bytes.
pub fn u16_from_le(b0: u8, b1: u8) -> (r: u16)
    ensures
        r == b0 + b1 * 256,
{
    b0 as u16 + (b1 as u16) * 256
}

/// Little-endian `u32` from four bytes.
pub fn u32_from_le(b0: u8, b1: u8, b2: u8, b3: u8) -> (r: u32)
    ensures
        r == (b0 + b1 * 256) + (b2 + b3 * 256) * 65536,
{
    b0 as u32 + (b1 as u32) * 256 + (b2 as u32) * 65536 + (b3 as u32) * 16777216
}

/// Two's-complement reinterpretation of a `u32`.
pub fn i32_from_bits(v: u32) -> (r: i32)
    ensures
        r == as_i32(v as int),
{
    if v < 0x8000_0000 {
        v as i32
    } else {
        let m: u32 = v - 0x8000_0000;
        (m as i32) - 0x7fff_ffff - 1
    }
}

/// Little-endian `u16` at `p`.
pub fn le16_at(s: &[u8], p: usize) -> (r: u16)
    requires
        p + 2 <= s@.len(),
    ensures
        r == le16(s@, p as int),
{
    let n = s.len();
    u16_from_le(s[p], s[p + 1])
}

/// Little-endian `u32` at `p`.
pub fn le32_at(s: &[u8], p: usize) -> (r: u32)
    requires
        p + 4 <= s@.len(),
    ensures
        r == le32(s@, p as int),
{
    let n = s.len();
    u32_from_le(s[p], s[p + 1], s[p + 2], s[p + 3])
}

/// Little-endian `u64` at `p`.
pub fn le64_at(s: &[u8], p: usize) -> (r: u64)
    requires
        p + 8 <= s@.len(),
    ensures
        r == le64(s@, p as int),
{
    let n = s.len();
    let lo = le32_at(s, p) as u64;
    let hi = le32_at(s, p + 4) as u64;
    lo + hi * 4294967296
}

/// A read position over a borrowed byte buffer.
pub struct WireReader<'a> {
    pub data: &'a [u8],
    pub pos: usize,
}

impl<'a> WireReader<'a> {
    /// The position never passes the end of the buffer.
    pub open spec fn wf(&self) -> bool {
        self.pos <= self.data@.len()
    }

    /// The bytes under the reader.
    pub open spec fn bytes(&self) -> Seq<u8> {
        self.data@
    }

    /// A reader at the start of `data`.
    pub fn new(data: &'a [u8]) -> (r: Self)
        ensures
            r.wf(),
            r.data@ == data@,
            r.pos == 0,
    {
        WireReader { data, pos: 0 }
    }

    /// A reader at `pos` in `data`.
    pub fn at(data: &'a [u8], pos: usize) -> (r: Self)
        requires
            pos <= data@.len(),
        ensures
            r.wf(),
            r.data@ == data@,
            r.pos == pos,
    {
        WireReader { data, pos }
    }

    /// Bytes left after the position.
    pub fn remaining(&self) -> (r: usize)
        requires
            self.wf(),
        ensures
            r == self.data@.len() - self.pos,
    {
        self.data.len() - self.pos
    }

    /// Reads one byte.
    pub fn read_u8(&mut self) -> (r: Option<u8>)
        requires
            old(self).wf(),
        ensures
            final(self).wf(),
            final(self).data@ == old(self).data@,
            final(self).pos == after(old(self).data@, old(self).pos as int, 1),
            r == (if fits(old(self).data@, old(self).pos as int, 1) {
                Some(old(self).data@[old(self).pos as int])
            } else {
                None::<u8>
            }),
    {
        if self.pos < self.data.len() {
            let b = self.data[self.pos];
            self.pos = self.pos + 1;
            Some(b)
        } else {
            self.pos = self.data.len();
            None
        }
    }

    /// Reads a little-endian `u16`.
    pub fn read_u16(&mut self) -> (r: Option<u16>)
        requires
            old(self).wf(),
        ensures
            final(self).wf(),
            final(self).data@ == old(self).data@,
            final(self).pos == after(old(self).data@, old(self).pos as int, 2),
            fits(old(self).data@, old(self).pos as int, 2) ==> r == Some(
                le16(old(self).data@, old(self).pos as int) as u16,
            ),
            !fits(old(self).data@, old(self).pos as int, 2) ==> r is None,
    {
        if self.data.len() - self.pos >= 2 {
            let v = le16_at(self.data, self.pos);
            self.pos = self.pos + 2;
            Some(v)
        } else {
            self.pos = self.data.len();
            None
        }
    }

    /// Reads a little-endian `u32`.
    pub fn read_u32(&mut self) -> (r: Option<u32>)
        requires
            old(self).wf(),
        ensures
            final(self).wf(),
            final(self).data@ == old(self).data@,
            final(self).pos == after(old(self).data@, old(self).pos as int, 4),
            fits(old(self).data@, old(self).pos as int, 4) ==> r == Some(
                le32(old(self).data@, old(self).pos as int) as u32,
            ),
            !fits(old(self).data@, old(self).pos as int, 4) ==> r is None,
    {
        if self.data.len() - self.pos >= 4 {
            let v = le32_at(self.data, self.pos);
            self.pos = self.pos + 4;
            Some(v)
        } else {
            self.pos = self.data.len();
            None
        }
    }

    /// Reads a little-endian `u64`.
    pub fn read_u64(&mut self) -> (r: Option<u64>)
        requires
            old(self).wf(),
        ensures
            final(self).wf(),
            final(self).data@ == old(self).data@,
            final(self).pos == after(old(self).data@, old(self).pos as int, 8),
            fits(old(self).data@, old(self).pos as int, 8) ==> r == Some(
                le64(old(self).data@, old(self).pos as int) as u64,
            ),
            !fits(old(self).data@, old(self).pos as int, 8) ==> r is None,
    {
        if self.data.len() - self.pos >= 8 {
            let v = le64_at(self.data, self.pos);
            self.pos = self.pos + 8;
            Some(v)
        } else {
            self.pos = self.data.len();
            None
        }
    }

    /// Reads a little-endian two's-complement `i32`.
    pub fn read_i32(&mut self) -> (r: Option<i32>)
        requires
            old(self).wf(),
        ensures
            final(self).wf(),
            final(self).data@ == old(self).data@,
            final(self).pos == after(old(self).data@, old(self).pos as int, 4),
            fits(old(self).data@, old(self).pos as int, 4) ==> r == Some(
                as_i32(le32(old(self).data@, old(self).pos as int)) as i32,
            ),
            !fits(old(self).data@, old(self).pos as int, 4) ==> r is None,
    {
        match self.read_u32() {
            Some(v) => Some(i32_from_bits(v)),
            None => None,
        }
    }

    /// Reads a `u32`, or gives `d` when it does not fit.
    pub fn u32_or(&mut self, d: u32) -> (r: u32)
        requires
            old(self).wf(),
        ensures
            final(self).wf(),
            final(self).data@ == old(self).data@,
            final(self).pos == after(old(self).data@, old(self).pos as int, 4),
            r == u32_or(old(self).data@, old(self).pos as int, d as int),
    {
        match self.read_u32() {
            Some(v) => v,
            None => d,
        }
    }

    /// Reads a `u16`, or gives `d` when it does not fit.
    pub fn u16_or(&mut self, d: u16) -> (r: u16)
        requires
            old(self).wf(),
        ensures
            final(self).wf(),
            final(self).data@ == old(self).data@,
            final(self).pos == after(old(self).data@, old(self).pos as int, 2),
            r == u16_or(old(self).data@, old(self).pos as int, d as int),
    {
        match self.read_u16() {
            Some(v) => v,
            None => d,
        }
    }

    /// Reads a `u64`, or gives `d` when it does not fit.
    pub fn u64_or(&mut self, d: u64) -> (r: u64)
        requires
            old(self).wf(),
        ensures
            final(self).wf(),
            final(self).data@ == old(self).data@,
            final(self).pos == after(old(self).data@, old(self).pos as int, 8),
            r == u64_or(old(self).data@, old(self).pos as int, d as int),
    {
        match self.read_u64() {
            Some(v) => v,
            None => d,
        }
    }

    /// Reads an `i32`, or gives `d` when it does not fit.
    pub fn i32_or(&mut self, d: i32) -> (r: i32)
        requires
            old(self).wf(),
        ensures
            final(self).wf(),
            final(self).data@ == old(self).data@,
            final(self).pos == after(old(self).data@, old(self).pos as int, 4),
            r == i32_or(old(self).data@, old(self).pos as int, d as int),
    {
        match self.read_i32() {
            Some(v) => v,
            None => d,
        }
    }

    /// Reads a `u8`, or gives `d` when it does not fit.
    pub fn u8_or(&mut self, d: u8) -> (r: u8)
        requires
            old(self).wf(),
        ensures
            final(self).wf(),
            final(self).data@ == old(self).data@,
            final(self).pos == after(old(self).data@, old(self).pos as int, 1),
            r == u8_or(old(self).data@, old(self).pos as int, d as int),
    {
        match self.read_u8() {
            Some(v) => v,
            None => d,
        }
    }
}

} // verus!

verus! {

/// The value of `f64::from_bits(bits) as u32`: the IEEE-754 double rounded
/// toward zero and saturated to the `u32` range, with NaN giving 0.
pub open spec fn f64_bits_to_u32(bits: u64) -> u32 {
    let negative = bits >= 0x8000_0000_0000_0000;
    let exp = (bits / 0x10_0000_0000_0000) % 2048;
    let frac = bits % 0x10_0000_0000_0000;
    if exp == 2047 {
        if frac == 0 && !negative { u32::MAX } else { 0 }
    } else if negative || exp < 1023 {
        0
    } else if exp >= 1055 {
        u32::MAX
    } else {
        (((0x10_0000_0000_0000 + frac) as nat) / vstd::arithmetic::power2::pow2((1075 - exp) as nat)) as u32
    }
}

/// Converts a double, given by its bits, to `u32` as `as` does.
pub fn f64_bits_as_u32(bits: u64) -> (r: u32)
    ensures
        r == f64_bits_to_u32(bits),
{
    let negative = bits >= 0x8000_0000_0000_0000;
    let exp = (bits / 0x10_0000_0000_0000) % 2048;
    let frac = bits % 0x10_0000_0000_0000;
    if exp == 2047 {
        if frac == 0 && !negative { u32::MAX } else { 0 }
    } else if negative || exp < 1023 {
        0
    } else if exp >= 1055 {
        u32::MAX
    } else {
        let m: u64 = 0x10_0000_0000_0000 + frac;
        let shift: u64 = 1075 - exp;
        proof {
            vstd::bits::lemma_u64_shr_is_div(m, shift);
        }
        (m >> shift) as u32
    }
}

} // verus!
