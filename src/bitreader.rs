use vstd::prelude::*;
use vstd::arithmetic::power2::{pow2, lemma_pow2_unfold, lemma_pow2_pos, lemma2_to64};
use crate::error::DemoParserError;

verus! {

/// Bit `i` of a byte region, counting from the least significant bit of byte 0.
pub open spec fn bit_at(d: Seq<u8>, i: int) -> u8 {
    (d[i / 8] >> ((i % 8) as u8)) & 1u8
}

/// The unsigned integer held by the `n` bits that start at bit `p`, least significant first.
pub open spec fn bits_value(d: Seq<u8>, p: int, n: nat) -> nat
    decreases n,
{
    if n == 0 {
        0
    } else {
        bits_value(d, p, (n - 1) as nat) + (bit_at(d, p + n - 1) as nat) * pow2((n - 1) as nat)
    }
}

/// The `j`-th byte read from bit `p` on.
pub open spec fn byte_from(d: Seq<u8>, p: int, j: int) -> nat {
    bits_value(d, p + 8 * j, 8)
}

/// How many bytes a varint starting at bit `p` takes, given that bytes before `j` carried
/// the continuation bit. A varint of 32 bits takes at most five bytes.
pub open spec fn varint_len_from(d: Seq<u8>, p: int, j: nat) -> nat
    decreases 5 - j,
{
    if j >= 5 {
        5
    } else if byte_from(d, p, j as int) < 128 {
        j + 1
    } else {
        varint_len_from(d, p, j + 1)
    }
}

pub open spec fn varint_len(d: Seq<u8>, p: int) -> nat {
    varint_len_from(d, p, 0)
}

/// The sum of the seven-bit groups of the first `n` bytes of a varint.
pub open spec fn varint_groups(d: Seq<u8>, p: int, n: nat) -> nat
    decreases n,
{
    if n == 0 {
        0
    } else {
        varint_groups(d, p, (n - 1) as nat) + (byte_from(d, p, n - 1) % 128) * pow2(
            (7 * (n - 1)) as nat,
        )
    }
}

/// The value of the varint at bit `p`: its groups, cut to 32 bits.
pub open spec fn varint_value(d: Seq<u8>, p: int) -> nat {
    varint_groups(d, p, varint_len(d, p)) % pow2(32)
}

/// Whether the engine's variable-width integer at bit `p` fits in `total` bits, and its
/// length: six bits, of which the top two select 0, 4, 8 or 28 further bits.
pub open spec fn ubitvar_extra(d: Seq<u8>, p: int) -> nat {
    let sel = bits_value(d, p, 6) / 16;
    if sel == 1 {
        4
    } else if sel == 2 {
        8
    } else if sel == 3 {
        28
    } else {
        0
    }
}

pub open spec fn ubitvar_value(d: Seq<u8>, p: int) -> nat {
    let head = bits_value(d, p, 6);
    if ubitvar_extra(d, p) == 0 {
        head
    } else {
        head % 16 + bits_value(d, p + 6, ubitvar_extra(d, p)) * 16
    }
}

/// How many bytes come before the first zero byte from bit `p` on, given that the `j`
/// bytes before have none; `None` where the data ends first.
pub open spec fn cstr_len_from(d: Seq<u8>, p: int, j: nat) -> Option<nat>
    decreases d.len() * 8 - p - 8 * j,
{
    if p + 8 * (j + 1) > d.len() * 8 {
        None
    } else if byte_from(d, p, j as int) == 0 {
        Some(j)
    } else {
        cstr_len_from(d, p, j + 1)
    }
}

/// The length of the zero-terminated string at bit `p`.
pub open spec fn cstr_len(d: Seq<u8>, p: int) -> Option<nat> {
    cstr_len_from(d, p, 0)
}

/// A positioned reader over an immutable byte region. `pos` counts bits.
pub struct BitReader {
    pub data: Vec<u8>,
    pub pos: usize,
}

impl BitReader {
    pub open spec fn total(&self) -> int {
        (self.data@.len() * 8) as int
    }

    pub open spec fn wf(&self) -> bool {
        &&& self.data@.len() * 8 <= usize::MAX
        &&& self.pos <= self.total()
    }

    /// A reader at the first bit of `data`.
    pub fn new(data: Vec<u8>) -> (r: Self)
        requires
            data@.len() * 8 <= usize::MAX,
        ensures
            r.wf(),
            r.data@ == data@,
            r.pos == 0,
    {
        BitReader { data, pos: 0 }
    }

    /// A reader at bit `pos` of `data`.
    pub fn at(data: Vec<u8>, pos: usize) -> (r: Self)
        requires
            data@.len() * 8 <= usize::MAX,
            pos <= data@.len() * 8,
        ensures
            r.wf(),
            r.data@ == data@,
            r.pos == pos,
    {
        BitReader { data, pos }
    }

    pub fn bits_remaining(&self) -> (r: usize)
        requires
            self.wf(),
        ensures
            r == self.total() - self.pos,
    {
        self.data.len() * 8 - self.pos
    }

    /// Reads one bit.
    pub fn read_bit(&mut self) -> (r: Result<u8, DemoParserError>)
        requires
            old(self).wf(),
        ensures
            final(self).wf(),
            final(self).data@ == old(self).data@,
            old(self).pos + 1 <= old(self).total() ==> r == Ok::<u8, DemoParserError>(
                bit_at(old(self).data@, old(self).pos as int),
            ) && final(self).pos == old(self).pos + 1,
            old(self).pos + 1 > old(self).total() ==> r == Err::<u8, DemoParserError>(
                DemoParserError::UnexpectedEof,
            ) && final(self).pos == old(self).pos,
    {
        if self.pos >= self.data.len() * 8 {
            return Err(DemoParserError::UnexpectedEof);
        }
        let b = self.data[self.pos / 8];
        let r = (b >> ((self.pos % 8) as u8)) & 1u8;
        self.pos = self.pos + 1;
        Ok(r)
    }

    /// Reads one bit as a flag.
    pub fn read_boolean(&mut self) -> (r: Result<bool, DemoParserError>)
        requires
            old(self).wf(),
        ensures
            final(self).wf(),
            final(self).data@ == old(self).data@,
            old(self).pos + 1 <= old(self).total() ==> r == Ok::<bool, DemoParserError>(
                bit_at(old(self).data@, old(self).pos as int) == 1,
            ) && final(self).pos == old(self).pos + 1,
            old(self).pos + 1 > old(self).total() ==> r == Err::<bool, DemoParserError>(
                DemoParserError::UnexpectedEof,
            ) && final(self).pos == old(self).pos,
    {
        let b = self.read_bit()?;
        Ok(b == 1)
    }

    /// Reads `n` bits, least significant first. Fails, reading nothing, when fewer are left.
    pub fn read_nbits(&mut self, n: u32) -> (r: Result<u32, DemoParserError>)
        requires
            old(self).wf(),
            n <= 32,
        ensures
            final(self).wf(),
            final(self).data@ == old(self).data@,
            old(self).pos + n <= old(self).total() ==> r == Ok::<u32, DemoParserError>(
                bits_value(old(self).data@, old(self).pos as int, n as nat) as u32,
            ) && final(self).pos == old(self).pos + n && bits_value(
                old(self).data@,
                old(self).pos as int,
                n as nat,
            ) < pow2(n as nat),
            old(self).pos + n > old(self).total() ==> r == Err::<u32, DemoParserError>(
                DemoParserError::UnexpectedEof,
            ) && final(self).pos == old(self).pos,
    {
        if n as usize > self.data.len() * 8 - self.pos {
            return Err(DemoParserError::UnexpectedEof);
        }
        let ghost start = self.pos as int;
        let ghost d = self.data@;
        let mut val: u64 = 0;
        let mut mult: u64 = 1;
        let mut k: u32 = 0;
        proof {
            lemma2_to64();
        }
        while k < n
            invariant
                self.wf(),
                self.data@ == d,
                d == old(self).data@,
                start == old(self).pos,
                k <= n <= 32,
                self.pos == start + k,
                start + n <= self.total(),
                val == bits_value(d, start, k as nat),
                mult == pow2(k as nat),
                val < mult,
                pow2(32) == 0x1_0000_0000,
            decreases n - k,
        {
            let ghost p = self.pos as int;
            let b = self.read_bit();
            let bit: u8 = match b {
                Ok(x) => x,
                Err(_) => 0,
            };
            proof {
                lemma_pow2_unfold((k + 1) as nat);
                lemma_pow2_strictly_increases_to((k + 1) as u32);
                lemma_bit_at_le_1(d[p / 8], (p % 8) as u8);
                assert(val + (bit as int) * mult < mult * 2) by (nonlinear_arith)
                    requires
                        val < mult,
                        bit <= 1,
                ;
            }
            val = val + (bit as u64) * mult;
            mult = mult * 2;
            k = k + 1;
        }
        Ok(val as u32)
    }

    /// Reads an unsigned LEB128 varint of at most five bytes, keeping its low 32 bits.
    pub fn read_varint(&mut self) -> (r: Result<u32, DemoParserError>)
        requires
            old(self).wf(),
        ensures
            final(self).wf(),
            final(self).data@ == old(self).data@,
            old(self).pos + 8 * varint_len(old(self).data@, old(self).pos as int)
                <= old(self).total() ==> r == Ok::<u32, DemoParserError>(
                varint_value(old(self).data@, old(self).pos as int) as u32,
            ) && final(self).pos == old(self).pos + 8 * varint_len(
                old(self).data@,
                old(self).pos as int,
            ),
            old(self).pos + 8 * varint_len(old(self).data@, old(self).pos as int)
                > old(self).total() ==> r == Err::<u32, DemoParserError>(
                DemoParserError::UnexpectedEof,
            ),
    {
        let ghost start = self.pos as int;
        let ghost d = self.data@;
        let mut acc: u64 = 0;
        let mut mult: u64 = 1;
        let mut count: u32 = 0;
        proof {
            lemma2_to64();
        }
        loop
            invariant
                self.wf(),
                self.data@ == d,
                d == old(self).data@,
                start == old(self).pos,
                count < 5,
                self.pos == start + 8 * count,
                start + 8 * count <= self.total(),
                varint_len(d, start) == varint_len_from(d, start, count as nat),
                acc == varint_groups(d, start, count as nat),
                mult == pow2((7 * count) as nat),
                acc < mult,
                pow2(32) == 0x1_0000_0000,
            decreases 5 - count,
        {
            proof {
                lemma_varint_len_bounds(d, start, count as nat);
                lemma_pow2_8();
            }
            let b = self.read_nbits(8)?;
            proof {
                assert(b as nat == byte_from(d, start, count as int));
                lemma_pow2_adds((7 * count) as nat, 7);
                lemma_pow2_7();
                lemma_pow2_to35((7 * count) as nat);
                assert((b as nat % 128) * mult + acc < mult * 128) by (nonlinear_arith)
                    requires
                        acc < mult,
                        (b as nat % 128) < 128,
                ;
            }
            acc = acc + ((b % 128) as u64) * mult;
            mult = mult * 128;
            count = count + 1;
            if b < 128 || count >= 5 {
                proof {
                    lemma_pow2_pos(32);
                }
                return Ok((acc % 0x1_0000_0000) as u32);
            }
        }
    }

    /// Reads the engine's variable-width unsigned integer.
    pub fn read_u_bit_var(&mut self) -> (r: Result<u32, DemoParserError>)
        requires
            old(self).wf(),
        ensures
            final(self).wf(),
            final(self).data@ == old(self).data@,
            old(self).pos + 6 + ubitvar_extra(old(self).data@, old(self).pos as int)
                <= old(self).total() ==> r == Ok::<u32, DemoParserError>(
                ubitvar_value(old(self).data@, old(self).pos as int) as u32,
            ) && final(self).pos == old(self).pos + 6 + ubitvar_extra(
                old(self).data@,
                old(self).pos as int,
            ) && ubitvar_value(old(self).data@, old(self).pos as int) < pow2(32),
            old(self).pos + 6 + ubitvar_extra(old(self).data@, old(self).pos as int)
                > old(self).total() ==> r == Err::<u32, DemoParserError>(
                DemoParserError::UnexpectedEof,
            ),
    {
        let ghost start = self.pos as int;
        proof {
            lemma2_to64();
            lemma2_to64_small();
        }
        let head = self.read_nbits(6)?;
        let sel = head / 16;
        let extra: u32 = if sel == 1 {
            4
        } else if sel == 2 {
            8
        } else if sel == 3 {
            28
        } else {
            0
        };
        if extra == 0 {
            return Ok(head);
        }
        let rest = self.read_nbits(extra)?;
        proof {
            lemma_pow2_adds(extra as nat, 4);
            assert(rest < pow2(28)) by {
                if extra < 28 {
                    lemma_pow2_strictly_increases(extra as nat, 28);
                }
            }
            assert((head % 16) as nat + rest as nat * 16 < 0x1_0000_0000) by (nonlinear_arith)
                requires
                    rest < 0x1000_0000,
            ;
        }
        Ok(head % 16 + rest * 16)
    }

    /// Reads `n` whole bytes, each eight bits wide.
    pub fn read_n_bytes(&mut self, n: usize) -> (r: Result<Vec<u8>, DemoParserError>)
        requires
            old(self).wf(),
        ensures
            final(self).wf(),
            final(self).data@ == old(self).data@,
            old(self).pos + 8 * n <= old(self).total() ==> r.is_ok() && final(self).pos
                == old(self).pos + 8 * n && r.unwrap()@.len() == n && forall|i: int|
                0 <= i < n ==> #[trigger] r.unwrap()@[i] == byte_from(
                    old(self).data@,
                    old(self).pos as int,
                    i,
                ),
            old(self).pos + 8 * n > old(self).total() ==> r == Err::<Vec<u8>, DemoParserError>(
                DemoParserError::UnexpectedEof,
            ),
    {
        if n > (self.data.len() * 8 - self.pos) / 8 {
            return Err(DemoParserError::UnexpectedEof);
        }
        let ghost start = self.pos as int;
        let ghost d = self.data@;
        let mut out: Vec<u8> = Vec::new();
        let mut i: usize = 0;
        while i < n
            invariant
                self.wf(),
                self.data@ == d,
                d == old(self).data@,
                start == old(self).pos,
                i <= n,
                start + 8 * n <= self.total(),
                self.pos == start + 8 * i,
                out@.len() == i,
                forall|j: int| 0 <= j < i ==> #[trigger] out@[j] == byte_from(d, start, j),
            decreases n - i,
        {
            proof {
                lemma_pow2_8();
            }
            let b = self.read_nbits(8)?;
            out.push(b as u8);
            i = i + 1;
        }
        Ok(out)
    }

    /// Reads bytes up to a zero byte, which is consumed and not returned.
    pub fn read_string(&mut self) -> (r: Result<Vec<u8>, DemoParserError>)
        requires
            old(self).wf(),
        ensures
            final(self).wf(),
            final(self).data@ == old(self).data@,
            r is Ok <==> cstr_len(old(self).data@, old(self).pos as int) is Some,
            r is Ok ==> cstr_len(old(self).data@, old(self).pos as int) == Some(
                r->Ok_0@.len(),
            ),
            match r {
                Ok(s) => {
                    &&& old(self).pos + 8 * (s@.len() + 1) <= old(self).total()
                    &&& final(self).pos == old(self).pos + 8 * (s@.len() + 1)
                    &&& byte_from(old(self).data@, old(self).pos as int, s@.len() as int) == 0
                    &&& forall|i: int|
                        0 <= i < s@.len() ==> #[trigger] s@[i] == byte_from(
                            old(self).data@,
                            old(self).pos as int,
                            i,
                        ) && s@[i] != 0
                },
                Err(e) => {
                    &&& e == DemoParserError::UnexpectedEof
                    &&& forall|j: int|
                        0 <= j && old(self).pos + 8 * (j + 1) <= old(self).total()
                            ==> #[trigger] byte_from(old(self).data@, old(self).pos as int, j)
                            != 0
                },
            },
    {
        let ghost start = self.pos as int;
        let ghost d = self.data@;
        let mut out: Vec<u8> = Vec::new();
        loop
            invariant
                self.wf(),
                self.data@ == d,
                d == old(self).data@,
                start == old(self).pos,
                self.pos == start + 8 * out@.len(),
                cstr_len(d, start) == cstr_len_from(d, start, out@.len() as nat),
                forall|j: int|
                    0 <= j < out@.len() ==> #[trigger] out@[j] == byte_from(d, start, j)
                        && out@[j] != 0,
            decreases self.total() - self.pos,
        {
            proof {
                lemma_pow2_8();
            }
            let ghost k = out@.len() as int;
            let b = self.read_nbits(8);
            match b {
                Err(e) => {
                    proof {
                        assert forall|j: int|
                            0 <= j && start + 8 * (j + 1) <= self.total() implies #[trigger] byte_from(
                            d,
                            start,
                            j,
                        ) != 0 by {
                            assert(j < k);
                            assert(out@[j] == byte_from(d, start, j));
                        }
                    }
                    return Err(e);
                },
                Ok(c) => {
                    if c == 0 {
                        return Ok(out);
                    }
                    out.push(c as u8);
                },
            }
        }
    }
}

pub proof fn lemma_varint_len_bounds(d: Seq<u8>, p: int, j: nat)
    requires
        j < 5,
    ensures
        j + 1 <= varint_len_from(d, p, j) <= 5,
    decreases 5 - j,
{
    if byte_from(d, p, j as int) >= 128 {
        if j + 1 < 5 {
            lemma_varint_len_bounds(d, p, j + 1);
        } else {
            assert(varint_len_from(d, p, j + 1) == 5);
        }
    }
}

proof fn lemma_bit_at_le_1(x: u8, s: u8)
    ensures
        (x >> s) & 1u8 <= 1,
{
    assert((x >> s) & 1u8 <= 1) by (bit_vector);
}

pub proof fn lemma_pow2_8()
    ensures
        pow2(8) == 256,
{
    lemma2_to64();
}

pub proof fn lemma_pow2_5()
    ensures
        pow2(5) == 32,
{
    lemma2_to64();
}

proof fn lemma_pow2_7()
    ensures
        pow2(7) == 128,
{
    lemma2_to64();
}

proof fn lemma2_to64_small()
    ensures
        pow2(4) == 16,
        pow2(6) == 64,
        pow2(28) == 0x1000_0000,
{
    lemma2_to64();
}

proof fn lemma_pow2_strictly_increases_to(k: u32)
    requires
        k <= 32,
    ensures
        pow2(k as nat) <= pow2(32),
{
    if k < 32 {
        vstd::arithmetic::power2::lemma_pow2_strictly_increases(k as nat, 32);
    }
}

proof fn lemma_pow2_adds(a: nat, b: nat)
    ensures
        pow2(a) * pow2(b) == pow2(a + b),
{
    vstd::arithmetic::power2::lemma_pow2_adds(a, b);
}

proof fn lemma_pow2_strictly_increases(a: nat, b: nat)
    requires
        a < b,
    ensures
        pow2(a) < pow2(b),
{
    vstd::arithmetic::power2::lemma_pow2_strictly_increases(a, b);
}

proof fn lemma_pow2_to35(e: nat)
    requires
        e <= 28,
    ensures
        pow2(e + 7) <= pow2(35),
        pow2(35) == 0x8_0000_0000,
{
    lemma2_to64();
    vstd::arithmetic::power2::lemma2_to64_rest();
    if e + 7 < 35 {
        vstd::arithmetic::power2::lemma_pow2_strictly_increases(e + 7, 35);
    }
}

} // verus!
