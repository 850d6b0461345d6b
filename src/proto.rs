use vstd::prelude::*;
use vstd::arithmetic::power2::{pow2, lemma2_to64, lemma2_to64_rest};
use crate::error::DemoParserError;

verus! {

/// How many bytes a 64-bit varint at byte `p` takes, given that bytes before `j` carried the
/// continuation bit; at most ten, and never past the end of `b`.
pub open spec fn pb_varint_len_from(b: Seq<u8>, p: int, j: nat) -> nat
    decreases 10 - j,
{
    if j >= 10 || p + j >= b.len() {
        j + 1
    } else if b[p + j] < 128 {
        j + 1
    } else {
        pb_varint_len_from(b, p, j + 1)
    }
}

pub open spec fn pb_varint_len(b: Seq<u8>, p: int) -> nat {
    pb_varint_len_from(b, p, 0)
}

/// Whether a varint at `p` ends inside `b`.
pub open spec fn pb_varint_ok(b: Seq<u8>, p: int) -> bool {
    p + pb_varint_len(b, p) <= b.len() && pb_varint_len(b, p) <= 10
}

pub open spec fn pb_varint_groups(b: Seq<u8>, p: int, n: nat) -> nat
    decreases n,
{
    if n == 0 {
        0
    } else {
        pb_varint_groups(b, p, (n - 1) as nat) + (b[p + n - 1] % 128) as nat * pow2(
            (7 * (n - 1)) as nat,
        )
    }
}

/// The varint at `p`, cut to 64 bits.
pub open spec fn pb_varint_value(b: Seq<u8>, p: int) -> nat {
    pb_varint_groups(b, p, pb_varint_len(b, p)) % pow2(64)
}

/// The little-endian integer in the `n` bytes at `p`.
pub open spec fn le_value(b: Seq<u8>, p: int, n: nat) -> nat
    decreases n,
{
    if n == 0 {
        0
    } else {
        le_value(b, p, (n - 1) as nat) + b[p + n - 1] as nat * pow2((8 * (n - 1)) as nat)
    }
}

/// One field of a protobuf message: number, wire type, integer payload (varint, fixed32 or
/// fixed64) and byte payload (length-delimited).
pub type PbFieldView = (u64, u8, u64, Seq<u8>);

/// The field that starts at byte `p`, and where the next one starts.
pub open spec fn pb_field_at(b: Seq<u8>, p: int) -> Option<(PbFieldView, int)> {
    if !pb_varint_ok(b, p) {
        None
    } else {
        let key = pb_varint_value(b, p);
        let q = p + pb_varint_len(b, p);
        let wire = key % 8;
        let num = key / 8;
        if wire == 0 {
            if pb_varint_ok(b, q) {
                Some(
                    (
                        (num as u64, 0u8, pb_varint_value(b, q) as u64, Seq::<u8>::empty()),
                        q + pb_varint_len(b, q),
                    ),
                )
            } else {
                None
            }
        } else if wire == 1 {
            if q + 8 <= b.len() {
                Some(((num as u64, 1u8, le_value(b, q, 8) as u64, Seq::<u8>::empty()), q + 8))
            } else {
                None
            }
        } else if wire == 5 {
            if q + 4 <= b.len() {
                Some(((num as u64, 5u8, le_value(b, q, 4) as u64, Seq::<u8>::empty()), q + 4))
            } else {
                None
            }
        } else if wire == 2 {
            if pb_varint_ok(b, q) {
                let n = pb_varint_value(b, q);
                let s = q + pb_varint_len(b, q);
                if s + n <= b.len() {
                    Some(((num as u64, 2u8, 0u64, b.subrange(s, s + n)), s + n))
                } else {
                    None
                }
            } else {
                None
            }
        } else {
            None
        }
    }
}

/// The fields of the message in `b` from byte `p` on, or `None` where it is malformed.
pub open spec fn pb_fields_from(b: Seq<u8>, p: int) -> Option<Seq<PbFieldView>>
    decreases b.len() - p,
{
    if p < 0 || p >= b.len() {
        Some(Seq::empty())
    } else {
        match pb_field_at(b, p) {
            None => None,
            Some((f, q)) => if q <= p {
                None
            } else {
                match pb_fields_from(b, q) {
                    None => None,
                    Some(rest) => Some(seq![f] + rest),
                }
            },
        }
    }
}

pub open spec fn pb_fields(b: Seq<u8>) -> Option<Seq<PbFieldView>> {
    pb_fields_from(b, 0)
}

/// One decoded field.
pub struct PbField {
    pub number: u64,
    pub wire: u8,
    pub int_value: u64,
    pub bytes: Vec<u8>,
}

impl View for PbField {
    type V = PbFieldView;

    open spec fn view(&self) -> PbFieldView {
        (self.number, self.wire, self.int_value, self.bytes@)
    }
}

pub open spec fn fields_view(fs: Seq<PbField>) -> Seq<PbFieldView> {
    fs.map_values(|f: PbField| f@)
}

/// Reads the varint at byte `p`.
pub fn read_pb_varint(b: &Vec<u8>, p: usize) -> (r: Option<(u64, usize)>)
    requires
        p <= b@.len(),
    ensures
        match r {
            Some((v, q)) => pb_varint_ok(b@, p as int) && v == pb_varint_value(b@, p as int)
                && q == p + pb_varint_len(b@, p as int),
            None => !pb_varint_ok(b@, p as int),
        },
{
    let ghost bs = b@;
    let mut acc: u128 = 0;
    let mut mult: u128 = 1;
    let mut j: usize = 0;
    proof {
        lemma2_to64();
        lemma2_to64_rest();
        lemma_pow2_70();
    }
    loop
        invariant
            p <= b@.len(),
            j < 10,
            p + j <= b@.len(),
            pb_varint_len(bs, p as int) == pb_varint_len_from(bs, p as int, j as nat),
            acc == pb_varint_groups(bs, p as int, j as nat),
            mult == pow2((7 * j) as nat),
            acc < mult,
            mult <= pow2(63),
            pow2(63) == 0x8000_0000_0000_0000,
            pow2(64) == 0x1_0000_0000_0000_0000,
            bs == b@,
        decreases 10 - j,
    {
        if j >= b.len() - p {
            return None;
        }
        let c = b[p + j];
        proof {
            lemma_pow2_adds_pb((7 * j) as nat);
            assert((c as nat % 128) * mult + acc < mult * 128) by (nonlinear_arith)
                requires
                    acc < mult,
                    (c as nat % 128) < 128,
            ;
        }
        acc = acc + ((c % 128) as u128) * mult;
        j = j + 1;
        if c < 128 {
            return Some(((acc % 0x1_0000_0000_0000_0000) as u64, p + j));
        }
        if j >= 10 {
            proof {
                assert(pb_varint_len_from(bs, p as int, 10) == 11);
            }
            return None;
        }
        proof {
            if 7 * j < 63 {
                vstd::arithmetic::power2::lemma_pow2_strictly_increases((7 * j) as nat, 63);
            }
        }
        mult = mult * 128;
    }
}

/// Reads the little-endian integer in the `n` bytes at `p`.
pub fn read_le(b: &Vec<u8>, p: usize, n: usize) -> (r: u64)
    requires
        n <= 8,
        p + n <= b@.len(),
    ensures
        r == le_value(b@, p as int, n as nat),
        r < pow2((8 * n) as nat),
{
    let mut acc: u128 = 0;
    let mut mult: u128 = 1;
    let mut j: usize = 0;
    let len = b.len();
    proof {
        lemma2_to64();
        lemma2_to64_rest();
    }
    while j < n
        invariant
            j <= n <= 8,
            p + n <= b@.len(),
            acc == le_value(b@, p as int, j as nat),
            mult == pow2((8 * j) as nat),
            acc < mult,
            mult <= pow2(64),
            pow2(64) == 0x1_0000_0000_0000_0000,
            pow2(8) == 256,
            len == b@.len(),
        decreases n - j,
    {
        let c = b[p + j];
        proof {
            vstd::arithmetic::power2::lemma_pow2_adds((8 * j) as nat, 8);
            assert((c as nat) * mult + acc < mult * 256) by (nonlinear_arith)
                requires
                    acc < mult,
                    (c as nat) < 256,
            ;
            if 8 * j + 8 < 64 {
                vstd::arithmetic::power2::lemma_pow2_strictly_increases((8 * j + 8) as nat, 64);
            }
        }
        acc = acc + (c as u128) * mult;
        mult = mult * 256;
        j = j + 1;
    }
    acc as u64
}

/// Reads the field at byte `p` and returns it with the position of the next one.
fn read_field(b: &Vec<u8>, p: usize) -> (r: Option<(PbField, usize)>)
    requires
        p <= b@.len(),
    ensures
        match r {
            Some((f, q)) => pb_field_at(b@, p as int) == Some((f@, q as int)) && q <= b@.len(),
            None => pb_field_at(b@, p as int) is None,
        },
{
    let (key, q) = match read_pb_varint(b, p) {
        Some(x) => x,
        None => return None,
    };
    let wire = key % 8;
    let num = key / 8;
    if wire == 0 {
        let (v, e) = match read_pb_varint(b, q) {
            Some(x) => x,
            None => return None,
        };
        Some((PbField { number: num, wire: 0, int_value: v, bytes: Vec::new() }, e))
    } else if wire == 1 {
        if b.len() - q < 8 {
            return None;
        }
        let v = read_le(b, q, 8);
        Some((PbField { number: num, wire: 1, int_value: v, bytes: Vec::new() }, q + 8))
    } else if wire == 5 {
        if b.len() - q < 4 {
            return None;
        }
        let v = read_le(b, q, 4);
        Some((PbField { number: num, wire: 5, int_value: v, bytes: Vec::new() }, q + 4))
    } else if wire == 2 {
        let (n, s) = match read_pb_varint(b, q) {
            Some(x) => x,
            None => return None,
        };
        if n > (b.len() - s) as u64 {
            return None;
        }
        let n = n as usize;
        let mut out: Vec<u8> = Vec::new();
        let mut i: usize = 0;
        let len = b.len();
        while i < n
            invariant
                len == b@.len(),
                i <= n,
                s + n <= b@.len(),
                out@ == b@.subrange(s as int, s + i),
            decreases n - i,
        {
            out.push(b[s + i]);
            i = i + 1;
            proof {
                assert(out@ =~= b@.subrange(s as int, s + i));
            }
        }
        Some((PbField { number: num, wire: 2, int_value: 0, bytes: out }, s + n))
    } else {
        None
    }
}

/// Splits a protobuf message into its fields, in the order in which they stand.
pub fn parse_message(b: &Vec<u8>) -> (r: Result<Vec<PbField>, DemoParserError>)
    ensures
        match pb_fields(b@) {
            Some(fs) => r is Ok && fields_view(r->Ok_0@) == fs,
            None => r == Err::<Vec<PbField>, DemoParserError>(DemoParserError::MalformedMessage),
        },
{
    let mut out: Vec<PbField> = Vec::new();
    let mut p: usize = 0;
    while p < b.len()
        invariant
            p <= b@.len(),
            pb_fields(b@) == match pb_fields_from(b@, p as int) {
                None => None,
                Some(rest) => Some(fields_view(out@) + rest),
            },
        decreases b@.len() - p,
    {
        let ghost old_out = out@;
        match read_field(b, p) {
            None => {
                return Err(DemoParserError::MalformedMessage);
            },
            Some((f, q)) => {
                if q <= p {
                    return Err(DemoParserError::MalformedMessage);
                }
                let ghost fv = f@;
                out.push(f);
                proof {
                    assert(fields_view(out@) =~= fields_view(old_out) + seq![fv]);
                    match pb_fields_from(b@, q as int) {
                        None => {},
                        Some(rest) => {
                            assert(fields_view(out@) + rest =~= fields_view(old_out) + (seq![fv]
                                + rest));
                        },
                    }
                }
                p = q;
            },
        }
    }
    proof {
        assert(fields_view(out@) + Seq::<PbFieldView>::empty() =~= fields_view(out@));
    }
    Ok(out)
}

/// The last field with this number and wire type: protobuf lets a later one win.
pub open spec fn pb_last(fs: Seq<PbFieldView>, num: u64, wire: u8) -> Option<PbFieldView>
    decreases fs.len(),
{
    if fs.len() == 0 {
        None
    } else if fs.last().0 == num && fs.last().1 == wire {
        Some(fs.last())
    } else {
        pb_last(fs.drop_last(), num, wire)
    }
}

/// An integer field's value, zero where it is absent.
pub open spec fn pb_int(fs: Seq<PbFieldView>, num: u64, wire: u8) -> u64 {
    match pb_last(fs, num, wire) {
        Some(f) => f.2,
        None => 0,
    }
}

/// A length-delimited field's bytes, empty where it is absent.
pub open spec fn pb_bytes(fs: Seq<PbFieldView>, num: u64) -> Seq<u8> {
    match pb_last(fs, num, 2) {
        Some(f) => f.3,
        None => Seq::empty(),
    }
}

/// The position of the last field with this number and wire type.
fn find_last(fs: &Vec<PbField>, num: u64, wire: u8) -> (r: Option<usize>)
    ensures
        match r {
            Some(i) => i < fs@.len() && pb_last(fields_view(fs@), num, wire) == Some(fs@[i as int]@),
            None => pb_last(fields_view(fs@), num, wire) is None,
        },
{
    let mut i: usize = fs.len();
    proof {
        assert(fs@.subrange(0, i as int) =~= fs@);
    }
    while i > 0
        invariant
            i <= fs@.len(),
            pb_last(fields_view(fs@), num, wire) == pb_last(fields_view(fs@.subrange(0, i as int)), num, wire),
        decreases i,
    {
        let ghost sub = fields_view(fs@.subrange(0, i as int));
        proof {
            assert(sub.last() == fs@[i - 1]@);
            assert(sub.drop_last() =~= fields_view(fs@.subrange(0, i - 1)));
        }
        if fs[i - 1].number == num && fs[i - 1].wire == wire {
            return Some(i - 1);
        }
        i = i - 1;
    }
    None
}

/// An integer field's value, zero where it is absent.
pub fn get_int(fs: &Vec<PbField>, num: u64, wire: u8) -> (r: u64)
    ensures
        r == pb_int(fields_view(fs@), num, wire),
{
    match find_last(fs, num, wire) {
        Some(i) => fs[i].int_value,
        None => 0,
    }
}

/// A length-delimited field's bytes, empty where it is absent.
pub fn get_bytes(fs: &Vec<PbField>, num: u64) -> (r: Vec<u8>)
    ensures
        r@ == pb_bytes(fields_view(fs@), num),
{
    match find_last(fs, num, 2) {
        Some(i) => fs[i].bytes.clone(),
        None => Vec::new(),
    }
}

proof fn lemma_pow2_70()
    ensures
        pow2(70) == 0x40_0000_0000_0000_0000,
{
    lemma2_to64();
    lemma2_to64_rest();
    vstd::arithmetic::power2::lemma_pow2_adds(64, 6);
}

proof fn lemma_pow2_adds_pb(e: nat)
    ensures
        pow2(e) * 128 == pow2(e + 7),
{
    lemma2_to64();
    vstd::arithmetic::power2::lemma_pow2_adds(e, 7);
}

} // verus!
