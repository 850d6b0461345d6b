use vstd::prelude::*;
use crate::effects::{create_ok, create_applied, update_ok, update_applied, update_in_range};
use vstd::arithmetic::power2::pow2;
use crate::baselines::{baseline_entries, baselines_insert, player_entries, players_insert};
use crate::bitreader::{BitReader, bit_at, bits_value, byte_from, ubitvar_extra, ubitvar_value, cstr_len, varint_len, varint_value};
use crate::error::DemoParserError;
use crate::outside::{decompress, lossy_string, utf8_lossy_of, snappy_raw_decoded};
use crate::parser::{Parser, same_config, keeps_tables, keeps_baselines, keeps_players, keeps_header, keeps_descriptors, keeps_counts, keeps_entities, keeps_cls_bits};
use crate::proto::{parse_message, get_int, get_bytes, pb_fields, pb_int, pb_bytes};

verus! {

/// How many recent keys a back-reference can reach.
pub const KEY_HISTORY: usize = 32;

/// A network string table: its settings and its entries, in the order first seen.
#[derive(Clone, Debug)]
pub struct StringTable {
    pub name: String,
    pub user_data_size: i32,
    pub user_data_fixed: bool,
    pub data: Vec<StringTableEntry>,
    pub flags: i32,
    pub var_bit_counts: bool,
}

/// One entry of a string table: its index, key and raw value.
#[derive(Clone, Debug)]
pub struct StringTableEntry {
    pub idx: i32,
    pub key: String,
    pub value: Vec<u8>,
}

/// A player as the `userinfo` table describes them.
#[derive(Clone, Debug)]
pub struct UserInfo {
    pub steamid: u64,
    pub name: String,
    pub userid: i32,
    pub is_hltv: bool,
}

/// A record count, with a negative count read as none.
pub open spec fn count_cap(n: i32) -> int {
    if n > 0 {
        n as int
    } else {
        0
    }
}

pub open spec fn keys_view(h: Seq<Vec<u8>>) -> Seq<Seq<u8>> {
    h.map_values(|k: Vec<u8>| k@)
}

/// The key that a back-reference makes: up to `length` bytes of the remembered key at
/// `position`, then the suffix. A position past the remembered keys gives the suffix alone.
pub open spec fn history_key(h: Seq<Seq<u8>>, position: nat, length: nat, suffix: Seq<u8>) -> Seq<
    u8,
> {
    if position >= h.len() {
        suffix
    } else if length > h[position as int].len() {
        h[position as int] + suffix
    } else {
        h[position as int].subrange(0, length as int) + suffix
    }
}

/// The remembered keys after one more: the oldest leaves once there are `KEY_HISTORY`.
pub open spec fn history_push(h: Seq<Seq<u8>>, key: Seq<u8>) -> Seq<Seq<u8>> {
    if h.len() >= KEY_HISTORY {
        h.drop_first().push(key)
    } else {
        h.push(key)
    }
}

/// Builds a key from a back-reference into the remembered keys.
pub fn key_from_history(history: &Vec<Vec<u8>>, position: u32, length: u32, suffix: &Vec<u8>) -> (r:
    Vec<u8>)
    ensures
        r@ == history_key(keys_view(history@), position as nat, length as nat, suffix@),
{
    let mut out: Vec<u8> = Vec::new();
    if (position as usize) < history.len() {
        let s = &history[position as usize];
        let n: usize = if (length as usize) > s.len() {
            s.len()
        } else {
            length as usize
        };
        let mut i: usize = 0;
        while i < n
            invariant
                i <= n <= s@.len(),
                out@ == s@.subrange(0, i as int),
            decreases n - i,
        {
            out.push(s[i]);
            i = i + 1;
            proof {
                assert(out@ =~= s@.subrange(0, i as int));
            }
        }
        proof {
            assert(s@.subrange(0, s@.len() as int) =~= s@);
        }
    }
    let ghost prefix = out@;
    let mut j: usize = 0;
    while j < suffix.len()
        invariant
            j <= suffix@.len(),
            out@ == prefix + suffix@.subrange(0, j as int),
        decreases suffix@.len() - j,
    {
        out.push(suffix[j]);
        j = j + 1;
        proof {
            assert(out@ =~= prefix + suffix@.subrange(0, j as int));
        }
    }
    proof {
        assert(suffix@.subrange(0, suffix@.len() as int) =~= suffix@);
        assert(prefix + Seq::<u8>::empty() =~= prefix);
    }
    out
}

/// Remembers a key, forgetting the oldest once `KEY_HISTORY` are held.
pub fn remember_key(history: &mut Vec<Vec<u8>>, key: Vec<u8>)
    ensures
        keys_view(final(history)@) == history_push(keys_view(old(history)@), key@),
{
    if history.len() >= KEY_HISTORY {
        history.remove(0);
    }
    let ghost mid = history@;
    history.push(key);
    proof {
        assert(keys_view(history@) =~= keys_view(mid).push(key@));
        if old(history)@.len() >= KEY_HISTORY {
            assert(keys_view(mid) =~= keys_view(old(history)@).drop_first());
        } else {
            assert(mid == old(history)@);
        }
    }
}

/// The `n` bytes that start at bit `p`.
pub open spec fn bytes_at(d: Seq<u8>, p: int, n: nat) -> Seq<u8> {
    Seq::new(n, |i: int| byte_from(d, p, i) as u8)
}

/// The key that starts at bit `p`, and where it ends: a flag, then either a plain string or
/// a back-reference (five bits of position, five of length) followed by a suffix string.
#[verifier::opaque]
pub open spec fn key_step(d: Seq<u8>, p: int, hist: Seq<Seq<u8>>) -> Option<(int, Seq<u8>)> {
    if p + 1 > d.len() * 8 {
        None
    } else if bit_at(d, p) == 1 {
        if p + 11 > d.len() * 8 {
            None
        } else {
            match cstr_len(d, p + 11) {
                None => None,
                Some(n) => Some(
                    (
                        p + 11 + 8 * (n + 1),
                        history_key(
                            hist,
                            bits_value(d, p + 1, 5),
                            bits_value(d, p + 6, 5),
                            bytes_at(d, p + 11, n),
                        ),
                    ),
                ),
            }
        }
    } else {
        match cstr_len(d, p + 1) {
            None => None,
            Some(n) => Some((p + 1 + 8 * (n + 1), bytes_at(d, p + 1, n))),
        }
    }
}

/// Reads an entry's key.
pub fn read_entry_key(reader: &mut BitReader, history: &Vec<Vec<u8>>) -> (r: Result<
    Vec<u8>,
    DemoParserError,
>)
    requires
        old(reader).wf(),
    ensures
        final(reader).wf(),
        final(reader).data@ == old(reader).data@,
        match key_step(old(reader).data@, old(reader).pos as int, keys_view(history@)) {
            None => r == Err::<Vec<u8>, DemoParserError>(DemoParserError::UnexpectedEof),
            Some((e, k)) => r is Ok && r->Ok_0@ == k && final(reader).pos == e,
        },
{
    let ghost d = reader.data@;
    let ghost p = reader.pos as int;
    proof {
        reveal(key_step);
        crate::bitreader::lemma_pow2_5();
        crate::bitreader::lemma_pow2_8();
    }
    if reader.read_boolean()? {
        let position = reader.read_nbits(5)?;
        let length = reader.read_nbits(5)?;
        let suffix = reader.read_string()?;
        proof {
            assert(suffix@ =~= bytes_at(d, p + 11, suffix@.len()));
        }
        let key = key_from_history(history, position, length, &suffix);
        Ok(key)
    } else {
        let key = reader.read_string()?;
        proof {
            assert(key@ =~= bytes_at(d, p + 1, key@.len()));
        }
        Ok(key)
    }
}

/// A signed size read as unsigned, as the engine stores it.
pub open spec fn unsigned_bits(v: i32) -> nat {
    if v >= 0 {
        v as nat
    } else {
        (v + 0x1_0000_0000) as nat
    }
}

/// How many bytes of value an entry has, as the table's settings say: a fixed size, or a
/// byte count read as a variable-width integer or as seventeen bits, after a compression
/// flag where the table allows compression. Gives the flag, where the bytes start and how
/// many there are.
pub open spec fn value_layout(
    d: Seq<u8>,
    p: int,
    udf: bool,
    user_data_size: i32,
    flags: i32,
    var: bool,
) -> (bool, int, nat) {
    if udf {
        (false, p, (unsigned_bits(user_data_size) / 8) as nat)
    } else {
        let compressed = flags & 1 != 0 && bit_at(d, p) == 1;
        let q = if flags & 1 != 0 {
            p + 1
        } else {
            p
        };
        if var {
            (compressed, q + 6 + ubitvar_extra(d, q), ubitvar_value(d, q))
        } else {
            (compressed, q + 17, bits_value(d, q, 17))
        }
    }
}

/// The value that starts at bit `p`, and where it ends.
#[verifier::opaque]
pub open spec fn value_step(
    d: Seq<u8>,
    p: int,
    udf: bool,
    user_data_size: i32,
    flags: i32,
    var: bool,
) -> Option<(int, Seq<u8>)> {
    let (compressed, start, n) = value_layout(d, p, udf, user_data_size, flags, var);
    if start + 8 * n > d.len() * 8 {
        None
    } else if compressed {
        match snappy_raw_decoded(bytes_at(d, start, n)) {
            None => None,
            Some(v) => Some((start + 8 * n, v)),
        }
    } else {
        Some((start + 8 * n, bytes_at(d, start, n)))
    }
}

/// Reads an entry's value.
pub fn read_entry_value(
    reader: &mut BitReader,
    udf: bool,
    user_data_size: i32,
    flags: i32,
    var: bool,
) -> (r: Result<Vec<u8>, DemoParserError>)
    requires
        old(reader).wf(),
    ensures
        final(reader).wf(),
        final(reader).data@ == old(reader).data@,
        match value_step(old(reader).data@, old(reader).pos as int, udf, user_data_size, flags, var) {
            None => r == Err::<Vec<u8>, DemoParserError>(
                value_error(old(reader).data@, old(reader).pos as int, udf, user_data_size, flags, var),
            ),
            Some((e, v)) => r is Ok && r->Ok_0@ == v && final(reader).pos == e,
        },
        r is Err ==> r == Err::<Vec<u8>, DemoParserError>(DemoParserError::UnexpectedEof) || r
            == Err::<Vec<u8>, DemoParserError>(DemoParserError::DecompressionFailed),
{
    let ghost d = reader.data@;
    let ghost p = reader.pos as int;
    let ghost layout = value_layout(d, p, udf, user_data_size, flags, var);
    proof {
        reveal(value_step);
        vstd::arithmetic::power2::lemma2_to64();
    }
    let mut is_compressed = false;
    let n_bytes: usize = if udf {
        let size_bits: u32 = if user_data_size >= 0 {
            user_data_size as u32
        } else {
            (user_data_size as i64 + 0x1_0000_0000) as u32
        };
        (size_bits / 8) as usize
    } else {
        if flags & 1 != 0 {
            is_compressed = reader.read_boolean()?;
        }
        if var {
            reader.read_u_bit_var()? as usize
        } else {
            reader.read_nbits(17)? as usize
        }
    };
    let ghost start = reader.pos as int;
    proof {
        assert(n_bytes as nat == layout.2);
        assert(start == layout.1);
        assert(is_compressed == layout.0);
    }
    let raw = reader.read_n_bytes(n_bytes)?;
    proof {
        assert(raw@ =~= bytes_at(d, start, n_bytes as nat));
    }
    if is_compressed {
        decompress(&raw)
    } else {
        Ok(raw)
    }
}

/// One decoded entry: its index, key bytes and value bytes.
pub type RawEntry = (int, Seq<u8>, Seq<u8>);

/// How far the index moves at bit `p`: by one, or by a varint plus one.
pub open spec fn index_step(d: Seq<u8>, p: int) -> Option<(int, int)> {
    if p + 1 > d.len() * 8 {
        None
    } else if bit_at(d, p) == 1 {
        Some((p + 1, 1))
    } else if p + 1 + 8 * varint_len(d, p + 1) > d.len() * 8 {
        None
    } else {
        Some((p + 1 + 8 * varint_len(d, p + 1), varint_value(d, p + 1) as int + 1))
    }
}

/// One record of a string-table stream at bit `p`, after index `idx` with keys `hist`:
/// where it ends, the new index, the entry if the record has a key, and the keys after it.
#[verifier::opaque]
pub open spec fn entry_step(
    d: Seq<u8>,
    p: int,
    idx: int,
    hist: Seq<Seq<u8>>,
    udf: bool,
    user_data_size: i32,
    flags: i32,
    var: bool,
) -> Option<(int, int, Option<(Seq<u8>, Seq<u8>)>, Seq<Seq<u8>>)> {
    match index_step(d, p) {
        None => None,
        Some((q, delta)) => {
            let idx2 = idx + delta;
            if idx2 > i32::MAX || q + 1 > d.len() * 8 {
                None
            } else if bit_at(d, q) != 1 {
                Some((q + 1, idx2, None, hist))
            } else {
                match key_step(d, q + 1, hist) {
                    None => None,
                    Some((r, key)) => {
                        let h2 = history_push(hist, key);
                        if r + 1 > d.len() * 8 {
                            None
                        } else if bit_at(d, r) != 1 {
                            Some((r + 1, idx2, Some((key, Seq::<u8>::empty())), h2))
                        } else {
                            match value_step(d, r + 1, udf, user_data_size, flags, var) {
                                None => None,
                                Some((e, v)) => Some((e, idx2, Some((key, v)), h2)),
                            }
                        }
                    },
                }
            }
        },
    }
}

/// The entries that `n` records from bit `p` on decode to, or `None` where the stream is
/// short, a value does not decompress or an index passes the largest `i32`.
pub open spec fn decoded_from(
    d: Seq<u8>,
    p: int,
    n: int,
    idx: int,
    hist: Seq<Seq<u8>>,
    udf: bool,
    user_data_size: i32,
    flags: i32,
    var: bool,
) -> Option<Seq<RawEntry>>
    decreases n,
{
    if n <= 0 {
        Some(Seq::empty())
    } else {
        match entry_step(d, p, idx, hist, udf, user_data_size, flags, var) {
            None => None,
            Some((p2, idx2, ent, h2)) => match decoded_from(
                d,
                p2,
                n - 1,
                idx2,
                h2,
                udf,
                user_data_size,
                flags,
                var,
            ) {
                None => None,
                Some(rest) => match ent {
                    Some((k, v)) => Some(seq![(idx2, k, v)] + rest),
                    None => Some(rest),
                },
            },
        }
    }
}

/// The entries of a whole string-table stream of `n` records.
pub open spec fn decoded_entries(
    d: Seq<u8>,
    n: i32,
    udf: bool,
    user_data_size: i32,
    flags: i32,
    var: bool,
) -> Option<Seq<RawEntry>> {
    decoded_from(d, 0, n as int, -1, Seq::empty(), udf, user_data_size, flags, var)
}

/// The error of a value that does not decode: the data ends first, or it does not
/// decompress.
pub open spec fn value_error(
    d: Seq<u8>,
    p: int,
    udf: bool,
    user_data_size: i32,
    flags: i32,
    var: bool,
) -> DemoParserError {
    let (compressed, start, n) = value_layout(d, p, udf, user_data_size, flags, var);
    if start + 8 * n > d.len() * 8 {
        DemoParserError::UnexpectedEof
    } else {
        DemoParserError::DecompressionFailed
    }
}

/// The error of a record that does not decode: an index past the largest `i32` is
/// malformed, a value that does not decompress fails so, and anything else ends the data.
pub open spec fn entry_error(
    d: Seq<u8>,
    p: int,
    idx: int,
    hist: Seq<Seq<u8>>,
    udf: bool,
    user_data_size: i32,
    flags: i32,
    var: bool,
) -> DemoParserError {
    match index_step(d, p) {
        None => DemoParserError::UnexpectedEof,
        Some((q, delta)) => if idx + delta > i32::MAX {
            DemoParserError::MalformedMessage
        } else if q + 1 > d.len() * 8 || bit_at(d, q) != 1 {
            DemoParserError::UnexpectedEof
        } else {
            match key_step(d, q + 1, hist) {
                None => DemoParserError::UnexpectedEof,
                Some((r, key)) => if r + 1 > d.len() * 8 || bit_at(d, r) != 1 {
                    DemoParserError::UnexpectedEof
                } else {
                    value_error(d, r + 1, udf, user_data_size, flags, var)
                },
            }
        },
    }
}

/// The error of the first record from bit `p` on that does not decode.
pub open spec fn decode_error_from(
    d: Seq<u8>,
    p: int,
    n: int,
    idx: int,
    hist: Seq<Seq<u8>>,
    udf: bool,
    user_data_size: i32,
    flags: i32,
    var: bool,
) -> DemoParserError
    decreases n,
{
    if n <= 0 {
        DemoParserError::UnexpectedEof
    } else {
        match entry_step(d, p, idx, hist, udf, user_data_size, flags, var) {
            None => entry_error(d, p, idx, hist, udf, user_data_size, flags, var),
            Some((p2, idx2, ent, h2)) => decode_error_from(
                d,
                p2,
                n - 1,
                idx2,
                h2,
                udf,
                user_data_size,
                flags,
                var,
            ),
        }
    }
}

/// The error of a string-table stream of `n` records that does not decode.
pub open spec fn decode_error(
    d: Seq<u8>,
    n: i32,
    udf: bool,
    user_data_size: i32,
    flags: i32,
    var: bool,
) -> DemoParserError {
    decode_error_from(d, 0, n as int, -1, Seq::empty(), udf, user_data_size, flags, var)
}

/// Reads one record of a string-table stream.
pub fn read_entry(
    reader: &mut BitReader,
    idx: i64,
    history: &mut Vec<Vec<u8>>,
    udf: bool,
    user_data_size: i32,
    flags: i32,
    var: bool,
) -> (r: Result<(i64, Option<(Vec<u8>, Vec<u8>)>), DemoParserError>)
    requires
        old(reader).wf(),
        -1 <= idx <= i32::MAX,
    ensures
        final(reader).wf(),
        final(reader).data@ == old(reader).data@,
        r is Err ==> r == Err::<(i64, Option<(Vec<u8>, Vec<u8>)>), DemoParserError>(DemoParserError::UnexpectedEof) || r
            == Err::<(i64, Option<(Vec<u8>, Vec<u8>)>), DemoParserError>(DemoParserError::MalformedMessage) || r
            == Err::<(i64, Option<(Vec<u8>, Vec<u8>)>), DemoParserError>(DemoParserError::DecompressionFailed),
        r is Ok ==> idx < r->Ok_0.0 <= i32::MAX,
        match entry_step(
            old(reader).data@,
            old(reader).pos as int,
            idx as int,
            keys_view(old(history)@),
            udf,
            user_data_size,
            flags,
            var,
        ) {
            None => r == Err::<(i64, Option<(Vec<u8>, Vec<u8>)>), DemoParserError>(
                entry_error(
                    old(reader).data@,
                    old(reader).pos as int,
                    idx as int,
                    keys_view(old(history)@),
                    udf,
                    user_data_size,
                    flags,
                    var,
                ),
            ),
            Some((e, idx2, ent, h2)) => {
                &&& r is Ok
                &&& r->Ok_0.0 == idx2
                &&& final(reader).pos == e
                &&& keys_view(final(history)@) == h2
                &&& match ent {
                    None => r->Ok_0.1 is None,
                    Some((k, v)) => r->Ok_0.1 is Some && r->Ok_0.1->Some_0.0@ == k
                        && r->Ok_0.1->Some_0.1@ == v,
                }
            },
        },
{
    let ghost d = reader.data@;
    let ghost p = reader.pos as int;
    proof {
        reveal(entry_step);
        crate::bitreader::lemma_varint_len_bounds(d, p + 1, 0);
    }
    let consecutive = reader.read_boolean()?;
    let new_idx: i64 = if consecutive {
        idx + 1
    } else {
        let step = reader.read_varint()?;
        proof {
            vstd::arithmetic::power2::lemma2_to64();
        }
        idx + step as i64 + 1
    };
    if new_idx > 0x7fff_ffff {
        return Err(DemoParserError::MalformedMessage);
    }
    if !reader.read_boolean()? {
        return Ok((new_idx, None));
    }
    let key = read_entry_key(reader, history)?;
    remember_key(history, key.clone());
    if !reader.read_boolean()? {
        return Ok((new_idx, Some((key, Vec::new()))));
    }
    let value = read_entry_value(reader, udf, user_data_size, flags, var)?;
    Ok((new_idx, Some((key, value))))
}

/// The decimal value of a string of digits.
pub open spec fn digits_value(s: Seq<u8>) -> nat
    decreases s.len(),
{
    if s.len() == 0 {
        0
    } else {
        digits_value(s.drop_last()) * 10 + (s.last() - 48) as nat
    }
}

pub open spec fn all_digits(s: Seq<u8>) -> bool {
    forall|i: int| 0 <= i < s.len() ==> 48 <= #[trigger] s[i] <= 57
}

/// The unsigned 32-bit number written in decimal, with an optional leading `+`.
pub open spec fn decimal_u32(s: Seq<u8>) -> Option<u32> {
    let d = if s.len() > 0 && s[0] == 43 {
        s.drop_first()
    } else {
        s
    };
    if d.len() > 0 && all_digits(d) && digits_value(d) < pow2(32) {
        Some(digits_value(d) as u32)
    } else {
        None
    }
}

/// Reads a class id from a baseline key.
pub fn parse_u32_decimal(s: &Vec<u8>) -> (r: Option<u32>)
    ensures
        r == decimal_u32(s@),
{
    let start: usize = if s.len() > 0 && s[0] == 43 {
        1
    } else {
        0
    };
    let ghost d = if s@.len() > 0 && s@[0] == 43 {
        s@.drop_first()
    } else {
        s@
    };
    proof {
        vstd::arithmetic::power2::lemma2_to64();
        assert(d =~= s@.subrange(start as int, s@.len() as int));
    }
    if start >= s.len() {
        return None;
    }
    let cap: u64 = 0x1_0000_0000;
    let mut acc: u64 = 0;
    let mut i: usize = start;
    while i < s.len()
        invariant
            start <= i <= s@.len(),
            d == s@.subrange(start as int, s@.len() as int),
            d == (if s@.len() > 0 && s@[0] == 43 {
                s@.drop_first()
            } else {
                s@
            }),
            all_digits(s@.subrange(start as int, i as int)),
            acc == if digits_value(s@.subrange(start as int, i as int)) < cap {
                digits_value(s@.subrange(start as int, i as int))
            } else {
                cap as nat
            },
            cap == 0x1_0000_0000,
            pow2(32) == cap,
        decreases s@.len() - i,
    {
        let c = s[i];
        if c < 48 || c > 57 {
            proof {
                assert(d[i - start] == c);
                assert(!(48 <= d[i - start] <= 57));
            }
            return None;
        }
        let ghost pre = s@.subrange(start as int, i as int);
        let ghost next = s@.subrange(start as int, i + 1);
        proof {
            assert(next.drop_last() =~= pre);
            assert(next.last() == c);
            assert(digits_value(next) == digits_value(pre) * 10 + (c - 48) as nat);
            assert(all_digits(next)) by {
                assert forall|k: int| 0 <= k < next.len() implies 48 <= #[trigger] next[k] <= 57 by {
                    if k < pre.len() {
                        assert(next[k] == pre[k]);
                    }
                }
            }
            if digits_value(pre) >= cap {
                assert(digits_value(next) >= cap) by (nonlinear_arith)
                    requires
                        digits_value(next) == digits_value(pre) * 10 + (c - 48) as nat,
                        digits_value(pre) >= cap,
                ;
            }
        }
        let v = acc * 10 + (c - 48) as u64;
        acc = if v >= cap {
            cap
        } else {
            v
        };
        i = i + 1;
    }
    if acc >= cap {
        None
    } else {
        Some(acc as u32)
    }
}

/// What a player-info message says of a player: steam id (field 2), name (field 1), user id
/// (field 3) and whether the player is a broadcast relay (field 6).
pub open spec fn userinfo_of(fs: Seq<(u64, u8, u64, Seq<u8>)>) -> (u64, Seq<char>, i32, bool) {
    (pb_int(fs, 2, 1), utf8_lossy_of(pb_bytes(fs, 1)), pb_int(fs, 3, 0) as i32, pb_int(fs, 6, 0)
        != 0)
}

impl UserInfo {
    pub open spec fn spec_fields(&self) -> (u64, Seq<char>, i32, bool) {
        (self.steamid, self.name@, self.userid, self.is_hltv)
    }
}

/// Decodes a player-info message.
pub fn parse_userinfo(bytes: &Vec<u8>) -> (r: Result<UserInfo, DemoParserError>)
    ensures
        match pb_fields(bytes@) {
            Some(fs) => r is Ok && r->Ok_0.spec_fields() == userinfo_of(fs),
            None => r == Err::<UserInfo, DemoParserError>(DemoParserError::MalformedMessage),
        },
{
    let fs = parse_message(bytes)?;
    let name_bytes = get_bytes(&fs, 1);
    Ok(
        UserInfo {
            is_hltv: get_int(&fs, 6, 0) != 0,
            steamid: get_int(&fs, 2, 1),
            name: lossy_string(&name_bytes),
            userid: get_int(&fs, 3, 0) as i32,
        },
    )
}

pub open spec fn is_baseline_table(name: Seq<char>) -> bool {
    name == "instancebaseline"@
}

pub open spec fn is_userinfo_table(name: Seq<char>) -> bool {
    name == "userinfo"@
}

/// Whether the table's entry indices strictly increase.
pub open spec fn entries_increasing(es: Seq<StringTableEntry>) -> bool {
    forall|i: int, j: int| 0 <= i < j < es.len() ==> #[trigger] es[i].idx < #[trigger] es[j].idx
}

/// Whether a name is the given text.
pub fn is_named(name: &String, lit: &str) -> (r: bool)
    ensures
        r == (name@ == lit@),
{
    let l = lit.to_string();
    proof {
        broadcast use vstd::string::to_string_from_display_ensures_for_str;
    }
    *name == l
}

impl StringTableEntry {
    pub open spec fn spec_view(&self) -> (i32, Seq<char>, Seq<u8>) {
        (self.idx, self.key@, self.value@)
    }
}


/// Whether some entry has this index.
pub open spec fn has_idx(es: Seq<StringTableEntry>, idx: i32) -> bool {
    exists|j: int| 0 <= j < es.len() && es[j].idx == idx
}

/// Whether some entry is this one.
pub open spec fn has_entry(es: Seq<StringTableEntry>, e: (i32, Seq<char>, Seq<u8>)) -> bool {
    exists|j: int| 0 <= j < es.len() && es[j].spec_view() == e
}

/// Whether `new` is `old` with the updates applied: each update stands in it, each old entry
/// whose index no update has is kept, and nothing else is there.
pub open spec fn merged_entries(
    old: Seq<StringTableEntry>,
    ups: Seq<StringTableEntry>,
    new: Seq<StringTableEntry>,
) -> bool {
    &&& forall|i: int| 0 <= i < ups.len() ==> has_entry(new, (#[trigger] ups[i]).spec_view())
    &&& forall|i: int|
        0 <= i < old.len() && !has_idx(ups, old[i].idx) ==> has_entry(
            new,
            (#[trigger] old[i]).spec_view(),
        )
    &&& forall|k: int|
        0 <= k < new.len() ==> has_entry(ups, (#[trigger] new[k]).spec_view()) || (has_entry(
            old,
            new[k].spec_view(),
        ) && !has_idx(ups, new[k].idx))
}

/// A copy of an entry.
pub fn copy_entry(e: &StringTableEntry) -> (r: StringTableEntry)
    ensures
        r.spec_view() == e.spec_view(),
{
    StringTableEntry { idx: e.idx, key: e.key.clone(), value: e.value.clone() }
}

/// Applies updated entries to a table: each replaces the entries with its index, or is
/// added after the others.
pub fn merge_entries(data: &mut Vec<StringTableEntry>, updates: Vec<StringTableEntry>)
    requires
        entries_increasing(updates@),
    ensures
        merged_entries(old(data)@, updates@, final(data)@),
{
    let ghost orig = data@;
    let ghost ups = updates@;
    let mut rest = updates;
    proof {
        assert forall|i: int| 0 <= i < orig.len() && !has_idx(ups, orig[i].idx) implies has_entry(
            data@,
            (#[trigger] orig[i]).spec_view(),
        ) by {
            assert(data@[i].spec_view() == orig[i].spec_view());
        }
        assert forall|k: int| 0 <= k < data@.len() implies has_entry(ups, (#[trigger] data@[k]).spec_view())
            || (has_entry(orig, data@[k].spec_view()) && !has_idx(ups.subrange(ups.len() as int, ups.len() as int), data@[k].idx)) by {
            assert(orig[k].spec_view() == data@[k].spec_view());
        }
        assert(rest@ =~= ups.subrange(0, rest@.len() as int));
    }
    while rest.len() > 0
        invariant
            rest@ == ups.subrange(0, rest@.len() as int),
            rest@.len() <= ups.len(),
            entries_increasing(ups),
            forall|i: int|
                rest@.len() <= i < ups.len() ==> has_entry(data@, (#[trigger] ups[i]).spec_view()),
            forall|i: int|
                0 <= i < orig.len() && !has_idx(ups, orig[i].idx) ==> has_entry(
                    data@,
                    (#[trigger] orig[i]).spec_view(),
                ),
            forall|k: int|
                0 <= k < data@.len() ==> has_entry(ups, (#[trigger] data@[k]).spec_view()) || (
                has_entry(orig, data@[k].spec_view()) && !has_idx(
                    ups.subrange(rest@.len() as int, ups.len() as int),
                    data@[k].idx,
                )),
        decreases rest@.len(),
    {
        let ghost n = rest@.len() - 1;
        let e = rest.pop().unwrap();
        proof {
            assert(e == ups[n]);
            assert(rest@ =~= ups.subrange(0, n));
        }
        let ghost before = data@;
        let ghost ev = e.spec_view();
        let mut j: usize = 0;
        let mut found = false;
        while j < data.len()
            invariant
                j <= data@.len() == before.len(),
                ev == e.spec_view(),
                forall|k: int| 0 <= k < j && before[k].idx == e.idx ==> (#[trigger] data@[k]).spec_view() == ev,
                forall|k: int| 0 <= k < j && before[k].idx != e.idx ==> #[trigger] data@[k] == before[k],
                forall|k: int| j <= k < data@.len() ==> #[trigger] data@[k] == before[k],
                found ==> exists|k: int| 0 <= k < j && (#[trigger] before[k]).idx == e.idx,
                !found ==> forall|k: int| 0 <= k < j ==> (#[trigger] before[k]).idx != e.idx,
            decreases data@.len() - j,
        {
            if data[j].idx == e.idx {
                let c = copy_entry(&e);
                data.set(j, c);
                found = true;
            }
            j = j + 1;
        }
        let ghost mid = data@;
        if !found {
            data.push(e);
        }
        proof {
            let after = data@;
            let done = ups.subrange(n, ups.len() as int);
            let done_before = ups.subrange(n + 1, ups.len() as int);
            assert forall|k: int| 0 <= k < before.len() && before[k].idx != ev.0 implies after[k] == before[k] by {
                assert(mid[k] == before[k]);
            }
            assert forall|k: int| 0 <= k < before.len() && before[k].idx == ev.0 implies after[k].spec_view() == ev by {
                assert(mid[k].spec_view() == ev);
            }
            assert(has_entry(after, ev)) by {
                if found {
                    let k = choose|k: int| 0 <= k < before.len() && before[k].idx == e.idx;
                    assert(after[k].spec_view() == ev);
                } else {
                    assert(after[before.len() as int].spec_view() == ev);
                }
            }
            assert forall|i: int| n <= i < ups.len() implies has_entry(after, (#[trigger] ups[i]).spec_view()) by {
                if i == n {
                    assert(ups[i].spec_view() == ev);
                } else {
                    assert(has_entry(before, ups[i].spec_view()));
                    let w = choose|w: int| 0 <= w < before.len() && before[w].spec_view() == ups[i].spec_view();
                    assert(ups[n].idx < ups[i].idx);
                    assert(after[w] == before[w]);
                }
            }
            assert forall|i: int| 0 <= i < orig.len() && !has_idx(ups, orig[i].idx) implies has_entry(
                after,
                (#[trigger] orig[i]).spec_view(),
            ) by {
                assert(has_entry(before, orig[i].spec_view()));
                let w = choose|w: int| 0 <= w < before.len() && before[w].spec_view() == orig[i].spec_view();
                if before[w].idx == e.idx {
                    assert(ups[n].idx == orig[i].idx);
                    assert(has_idx(ups, orig[i].idx));
                }
                assert(after[w] == before[w]);
            }
            assert forall|k: int| 0 <= k < after.len() implies has_entry(ups, (#[trigger] after[k]).spec_view())
                || (has_entry(orig, after[k].spec_view()) && !has_idx(done, after[k].idx)) by {
                if k < before.len() && before[k].idx != e.idx {
                    assert(after[k] == before[k]);
                    if !has_entry(ups, after[k].spec_view()) {
                        assert(!has_idx(done_before, after[k].idx));
                        if has_idx(done, after[k].idx) {
                            let u = choose|u: int| 0 <= u < done.len() && done[u].idx == after[k].idx;
                            if u > 0 {
                                assert(done_before[u - 1] == done[u]);
                            }
                        }
                    }
                } else {
                    assert(after[k].spec_view() == ups[n].spec_view());
                }
            }
        }
    }
    proof {
        assert(ups.subrange(0, ups.len() as int) =~= ups);
    }
}

/// Updates that match decoded entries, applied as `merge_entries` applies them, are the
/// decoded entries applied.
proof fn lemma_merged_with(
    old: Seq<StringTableEntry>,
    ups: Seq<StringTableEntry>,
    raw: Seq<RawEntry>,
    new: Seq<StringTableEntry>,
)
    requires
        entries_match(ups, raw),
        merged_entries(old, ups, new),
    ensures
        merged_with(old, raw, new),
{
    assert forall|x: i32| has_idx(ups, x) <==> raw_has_idx(raw, x as int) by {
        if has_idx(ups, x) {
            let u = choose|u: int| 0 <= u < ups.len() && ups[u].idx == x;
            assert(entry_matches(ups[u], raw[u]));
        }
        if raw_has_idx(raw, x as int) {
            let u = choose|u: int| 0 <= u < raw.len() && raw[u].0 == x as int;
            assert(entry_matches(ups[u], raw[u]));
        }
    }
    assert forall|i: int| 0 <= i < raw.len() implies holds_raw(new, #[trigger] raw[i]) by {
        assert(entry_matches(ups[i], raw[i]));
        assert(has_entry(new, ups[i].spec_view()));
        let k = choose|k: int| 0 <= k < new.len() && new[k].spec_view() == ups[i].spec_view();
        assert(entry_matches(new[k], raw[i]));
    }
    assert forall|i: int| 0 <= i < old.len() && !raw_has_idx(raw, old[i].idx as int) implies has_entry(
        new,
        (#[trigger] old[i]).spec_view(),
    ) by {
        assert(!has_idx(ups, old[i].idx));
    }
    assert forall|k: int| 0 <= k < new.len() implies is_raw(raw, #[trigger] new[k]) || (has_entry(
        old,
        new[k].spec_view(),
    ) && !raw_has_idx(raw, new[k].idx as int)) by {
        if has_entry(ups, new[k].spec_view()) {
            let i = choose|i: int| 0 <= i < ups.len() && ups[i].spec_view() == new[k].spec_view();
            assert(entry_matches(ups[i], raw[i]));
            assert(entry_matches(new[k], raw[i]));
        } else {
            assert(!has_idx(ups, new[k].idx));
            if raw_has_idx(raw, new[k].idx as int) {
                let u = choose|u: int| 0 <= u < raw.len() && raw[u].0 == new[k].idx as int;
                assert(entry_matches(ups[u], raw[u]));
                assert(ups[u].idx == new[k].idx);
            }
        }
    }
}

/// Whether a table entry is the decoded entry: same index and value, and the key as lossy
/// UTF-8 text.
pub open spec fn entry_matches(e: StringTableEntry, x: RawEntry) -> bool {
    e.idx as int == x.0 && e.key@ == utf8_lossy_of(x.1) && e.value@ == x.2
}

pub open spec fn entries_match(es: Seq<StringTableEntry>, raw: Seq<RawEntry>) -> bool {
    &&& es.len() == raw.len()
    &&& forall|i: int| 0 <= i < es.len() ==> entry_matches(#[trigger] es[i], raw[i])
}

/// The baselines after storing each decoded entry whose key is a class id, in order.
pub open spec fn baselines_fold(m: Map<u32, Seq<u8>>, raw: Seq<RawEntry>) -> Map<u32, Seq<u8>>
    decreases raw.len(),
{
    if raw.len() == 0 {
        m
    } else {
        let prev = baselines_fold(m, raw.drop_last());
        match decimal_u32(raw.last().1) {
            Some(id) => prev.insert(id, raw.last().2),
            None => prev,
        }
    }
}

pub type PlayerView = (u64, Seq<char>, i32, bool);

/// The players after storing each decoded value that is a player-info message, in order.
pub open spec fn players_fold(s: Map<u64, PlayerView>, raw: Seq<RawEntry>) -> Map<u64, PlayerView>
    decreases raw.len(),
{
    if raw.len() == 0 {
        s
    } else {
        let prev = players_fold(s, raw.drop_last());
        match pb_fields(raw.last().2) {
            Some(fs) => prev.insert(userinfo_of(fs).0, userinfo_of(fs)),
            None => prev,
        }
    }
}

/// What decoding the entries of a table named `name` does to baselines and players.
pub open spec fn records_applied(old: Parser, new: Parser, name: Seq<char>, raw: Seq<RawEntry>) -> bool {
    &&& baseline_entries(new.baselines) == (if is_baseline_table(name) {
        baselines_fold(baseline_entries(old.baselines), raw)
    } else {
        baseline_entries(old.baselines)
    })
    &&& player_entries(new.stringtable_players) == (if is_userinfo_table(name) {
        players_fold(player_entries(old.stringtable_players), raw)
    } else {
        player_entries(old.stringtable_players)
    })
}

/// What keeping a decoded string table does: the table, with its settings and the decoded
/// entries, comes after the others, and baselines and players are recorded.
pub open spec fn string_table_applied(
    old: Parser,
    new: Parser,
    data: Seq<u8>,
    n: i32,
    name: Seq<char>,
    udf: bool,
    user_data_size: i32,
    flags: i32,
    var: bool,
) -> bool {
    match decoded_entries(data, n, udf, user_data_size, flags, var) {
        None => false,
        Some(raw) => {
            let t = new.string_tables@.last();
            &&& new.string_tables@.len() == old.string_tables@.len() + 1
            &&& new.string_tables@.drop_last() == old.string_tables@
            &&& t.name@ == name
            &&& t.user_data_fixed == udf
            &&& t.user_data_size == user_data_size
            &&& t.flags == flags
            &&& t.var_bit_counts == var
            &&& entries_match(t.data@, raw)
            &&& records_applied(old, new, name, raw)
        },
    }
}

/// The string data of a create message: field 7, decompressed when field 9 says so.
pub open spec fn create_data(fs: Seq<(u64, u8, u64, Seq<u8>)>) -> Option<Seq<u8>> {
    if pb_int(fs, 9, 0) != 0 {
        snappy_raw_decoded(pb_bytes(fs, 7))
    } else {
        Some(pb_bytes(fs, 7))
    }
}

/// Whether `new` is `old` with the decoded entries applied: each decoded entry stands in
/// it, each old entry whose index no decoded entry has is kept, and nothing else is there.
pub open spec fn merged_with(old: Seq<StringTableEntry>, raw: Seq<RawEntry>, new: Seq<StringTableEntry>) -> bool {
    &&& forall|i: int| 0 <= i < raw.len() ==> holds_raw(new, #[trigger] raw[i])
    &&& forall|i: int| 0 <= i < old.len() && !raw_has_idx(raw, old[i].idx as int) ==> has_entry(new, (#[trigger] old[i]).spec_view())
    &&& forall|k: int| 0 <= k < new.len() ==> is_raw(raw, #[trigger] new[k])
        || (has_entry(old, new[k].spec_view()) && !raw_has_idx(raw, new[k].idx as int))
}

/// Whether some entry of the table is this decoded entry.
pub open spec fn holds_raw(es: Seq<StringTableEntry>, x: RawEntry) -> bool {
    exists|k: int| 0 <= k < es.len() && entry_matches(es[k], x)
}

/// Whether the entry is one of the decoded entries.
pub open spec fn is_raw(raw: Seq<RawEntry>, e: StringTableEntry) -> bool {
    exists|i: int| 0 <= i < raw.len() && entry_matches(e, raw[i])
}

/// Whether some decoded entry has this index.
pub open spec fn raw_has_idx(raw: Seq<RawEntry>, idx: int) -> bool {
    exists|i: int| 0 <= i < raw.len() && raw[i].0 == idx
}

impl Parser {
    /// Stores the baseline of the class whose id the key spells out; other keys change nothing.
    pub fn record_baseline(&mut self, key: &Vec<u8>, value: Vec<u8>)
        ensures
            same_config(*old(self), *final(self)),
            keeps_tables(*old(self), *final(self)),
            keeps_players(*old(self), *final(self)),
            keeps_header(*old(self), *final(self)),
            keeps_descriptors(*old(self), *final(self)),
            keeps_counts(*old(self), *final(self)),
            keeps_entities(*old(self), *final(self)),
            keeps_cls_bits(*old(self), *final(self)),
            match decimal_u32(key@) {
                Some(id) => baseline_entries(final(self).baselines) == baseline_entries(
                    old(self).baselines,
                ).insert(id, value@),
                None => baseline_entries(final(self).baselines) == baseline_entries(
                    old(self).baselines,
                ),
            },
            final(self).string_tables@ == old(self).string_tables@,
            final(self).stringtable_players == old(self).stringtable_players,
            final(self).reader == old(self).reader,
            final(self).tick == old(self).tick,
            final(self).game_events_counter@ == old(self).game_events_counter@,
            final(self).header@ == old(self).header@,
            final(self).entities == old(self).entities,
    {
        match parse_u32_decimal(key) {
            Some(id) => baselines_insert(&mut self.baselines, id, value),
            None => {},
        }
    }

    /// Stores a player, replacing the one with the same steam id.
    pub fn record_player(&mut self, player: UserInfo)
        ensures
            same_config(*old(self), *final(self)),
            keeps_tables(*old(self), *final(self)),
            keeps_baselines(*old(self), *final(self)),
            keeps_header(*old(self), *final(self)),
            keeps_descriptors(*old(self), *final(self)),
            keeps_counts(*old(self), *final(self)),
            keeps_entities(*old(self), *final(self)),
            keeps_cls_bits(*old(self), *final(self)),
            player_entries(final(self).stringtable_players) == player_entries(
                old(self).stringtable_players,
            ).insert(player.steamid, player.spec_fields()),
            baseline_entries(final(self).baselines) == baseline_entries(old(self).baselines),
            final(self).string_tables@ == old(self).string_tables@,
            final(self).reader == old(self).reader,
            final(self).tick == old(self).tick,
            final(self).game_events_counter@ == old(self).game_events_counter@,
            final(self).header@ == old(self).header@,
            final(self).entities == old(self).entities,
    {
        players_insert(&mut self.stringtable_players, player.steamid, player);
    }

    #[verifier::rlimit(100)]
    /// Decodes the entries of a string-table stream of `n_updates` records (see
    /// `entry_step`), recording baselines from an `instancebaseline` table and players from a
    /// `userinfo` table.
    pub fn decode_entries(
        &mut self,
        bytes: Vec<u8>,
        n_updates: i32,
        name: &String,
        udf: bool,
        user_data_size: i32,
        flags: i32,
        variant_bit_count: bool,
    ) -> (r: Result<Vec<StringTableEntry>, DemoParserError>)
        requires
            old(self).wf(),
            bytes@.len() * 8 <= usize::MAX,
        ensures
            r is Err ==> r == Err::<Vec<StringTableEntry>, DemoParserError>(DemoParserError::UnexpectedEof) || r
                == Err::<Vec<StringTableEntry>, DemoParserError>(DemoParserError::MalformedMessage) || r
                == Err::<Vec<StringTableEntry>, DemoParserError>(DemoParserError::DecompressionFailed),
            r is Err ==> r == Err::<Vec<StringTableEntry>, DemoParserError>(
                decode_error(bytes@, n_updates, udf, user_data_size, flags, variant_bit_count),
            ),
            same_config(*old(self), *final(self)),
            keeps_tables(*old(self), *final(self)),
            keeps_header(*old(self), *final(self)),
            keeps_descriptors(*old(self), *final(self)),
            keeps_counts(*old(self), *final(self)),
            keeps_entities(*old(self), *final(self)),
            keeps_cls_bits(*old(self), *final(self)),
            final(self).wf(),
            final(self).string_tables@ == old(self).string_tables@,
            final(self).reader == old(self).reader,
            final(self).tick == old(self).tick,
            final(self).game_events_counter@ == old(self).game_events_counter@,
            final(self).header@ == old(self).header@,
            r is Ok <==> decoded_entries(
                bytes@,
                n_updates,
                udf,
                user_data_size,
                flags,
                variant_bit_count,
            ) is Some,
            r is Ok ==> {
                let raw = decoded_entries(
                    bytes@,
                    n_updates,
                    udf,
                    user_data_size,
                    flags,
                    variant_bit_count,
                )->Some_0;
                &&& entries_match(r->Ok_0@, raw)
                &&& entries_increasing(r->Ok_0@)
                &&& records_applied(*old(self), *final(self), name@, raw)
            },
            !is_baseline_table(name@) ==> baseline_entries(final(self).baselines)
                == baseline_entries(old(self).baselines),
            !is_userinfo_table(name@) ==> final(self).stringtable_players
                == old(self).stringtable_players,
    {
        let is_userinfo = is_named(name, "userinfo");
        let is_baseline = is_named(name, "instancebaseline");
        let ghost d = bytes@;
        let ghost old_b = baseline_entries(self.baselines);
        let ghost old_p = player_entries(self.stringtable_players);
        let ghost total = decoded_entries(d, n_updates, udf, user_data_size, flags, variant_bit_count);
        let mut reader = BitReader::new(bytes);
        let mut idx: i64 = -1;
        let mut history: Vec<Vec<u8>> = Vec::new();
        let mut items: Vec<StringTableEntry> = Vec::new();
        let ghost mut raw: Seq<RawEntry> = Seq::empty();
        let mut upd: i32 = 0;
        proof {
            assert(keys_view(history@) =~= Seq::<Seq<u8>>::empty());
            match decoded_from(d, 0, n_updates as int, -1, Seq::empty(), udf, user_data_size, flags, variant_bit_count) {
                Some(rest) => {
                    assert(Seq::<RawEntry>::empty() + rest =~= rest);
                },
                None => {},
            }
        }
        while upd < n_updates
            invariant
                same_config(*old(self), *self),
                keeps_tables(*old(self), *self),
                keeps_header(*old(self), *self),
                keeps_descriptors(*old(self), *self),
                keeps_counts(*old(self), *self),
                keeps_entities(*old(self), *self),
                keeps_cls_bits(*old(self), *self),
                reader.wf(),
                reader.data@ == d,
                d == bytes@,
                self.wf(),
                self.string_tables@ == old(self).string_tables@,
                self.reader == old(self).reader,
                self.tick == old(self).tick,
                self.game_events_counter@ == old(self).game_events_counter@,
                self.header@ == old(self).header@,
                old_b == baseline_entries(old(self).baselines),
                old_p == player_entries(old(self).stringtable_players),
                is_userinfo == is_userinfo_table(name@),
                is_baseline == is_baseline_table(name@),
                total == decoded_entries(d, n_updates, udf, user_data_size, flags, variant_bit_count),
                total == match decoded_from(
                    d,
                    reader.pos as int,
                    n_updates - upd,
                    idx as int,
                    keys_view(history@),
                    udf,
                    user_data_size,
                    flags,
                    variant_bit_count,
                ) {
                    None => None,
                    Some(rest) => Some(raw + rest),
                },
                baseline_entries(self.baselines) == (if is_baseline {
                    baselines_fold(old_b, raw)
                } else {
                    old_b
                }),
                player_entries(self.stringtable_players) == (if is_userinfo {
                    players_fold(old_p, raw)
                } else {
                    old_p
                }),
                entries_match(items@, raw),
                decode_error(d, n_updates, udf, user_data_size, flags, variant_bit_count)
                    == decode_error_from(
                    d,
                    reader.pos as int,
                    n_updates - upd,
                    idx as int,
                    keys_view(history@),
                    udf,
                    user_data_size,
                    flags,
                    variant_bit_count,
                ),
                0 <= upd <= count_cap(n_updates),
                !is_userinfo ==> self.stringtable_players == old(self).stringtable_players,
                -1 <= idx <= 0x7fff_ffff,
                entries_increasing(items@),
                forall|i: int| 0 <= i < items@.len() ==> #[trigger] items@[i].idx <= idx,
            decreases n_updates - upd,
        {
            let ghost p = reader.pos as int;
            let ghost h = keys_view(history@);
            let ghost rest_n = n_updates - upd;
            let (new_idx, entry) = match read_entry(
                &mut reader,
                idx,
                &mut history,
                udf,
                user_data_size,
                flags,
                variant_bit_count,
            ) {
                Ok(x) => x,
                Err(e) => {
                    proof {
                        assert(decoded_from(d, p, rest_n, idx as int, h, udf, user_data_size, flags, variant_bit_count) is None);
                    }
                    return Err(e);
                },
            };
            let ghost step = entry_step(d, p, idx as int, h, udf, user_data_size, flags, variant_bit_count)->Some_0;
            match entry {
                None => {
                    proof {
                        match decoded_from(d, step.0, rest_n - 1, step.1, step.3, udf, user_data_size, flags, variant_bit_count) {
                            Some(r2) => {},
                            None => {},
                        }
                    }
                },
                Some((key, value)) => {
                    let ghost x: RawEntry = (new_idx as int, key@, value@);
                    let ghost raw0 = raw;
                    if is_userinfo {
                        match parse_userinfo(&value) {
                            Ok(player) => self.record_player(player),
                            Err(_) => {},
                        }
                    }
                    if is_baseline {
                        self.record_baseline(&key, value.clone());
                    }
                    let ghost items0 = items@;
                    items.push(StringTableEntry { idx: #[verifier::truncate] (new_idx as i32), key: lossy_string(&key), value });
                    proof {
                        raw = raw0.push(x);
                        assert(raw.drop_last() =~= raw0);
                        match decoded_from(d, step.0, rest_n - 1, step.1, step.3, udf, user_data_size, flags, variant_bit_count) {
                            Some(r2) => {
                                assert(raw0 + (seq![x] + r2) =~= raw + r2);
                            },
                            None => {},
                        }
                        assert forall|i: int, j: int|
                            0 <= i < j < items@.len() implies #[trigger] items@[i].idx
                            < #[trigger] items@[j].idx by {
                            if j < items0.len() {
                                assert(items@[i] == items0[i] && items@[j] == items0[j]);
                            } else {
                                assert(items@[i] == items0[i]);
                            }
                        }
                        assert forall|i: int| 0 <= i < items@.len() implies #[trigger] items@[i].idx <= new_idx by {
                            if i < items0.len() {
                                assert(items@[i] == items0[i]);
                            }
                        }
                        assert forall|i: int| 0 <= i < items@.len() implies entry_matches(#[trigger] items@[i], raw[i]) by {
                            if i < items0.len() {
                                assert(items@[i] == items0[i]);
                                assert(entry_matches(items0[i], raw0[i]));
                            }
                        }
                    }
                },
            }
            idx = new_idx;
            upd = upd + 1;
        }
        proof {
            assert(decoded_from(d, reader.pos as int, n_updates - upd, idx as int, keys_view(history@), udf, user_data_size, flags, variant_bit_count) == Some(Seq::<RawEntry>::empty()));
            assert(raw + Seq::<RawEntry>::empty() =~= raw);
        }
        Ok(items)
    }

    /// Decodes a string table and keeps it as the next table.
    pub fn parse_string_table(
        &mut self,
        bytes: Vec<u8>,
        n_updates: i32,
        name: String,
        udf: bool,
        user_data_size: i32,
        flags: i32,
        variant_bit_count: bool,
    ) -> (r: Result<(), DemoParserError>)
        requires
            old(self).wf(),
            bytes@.len() * 8 <= usize::MAX,
        ensures
            same_config(*old(self), *final(self)),
            keeps_header(*old(self), *final(self)),
            keeps_descriptors(*old(self), *final(self)),
            keeps_counts(*old(self), *final(self)),
            keeps_entities(*old(self), *final(self)),
            keeps_cls_bits(*old(self), *final(self)),
            final(self).wf(),
            final(self).reader == old(self).reader,
            final(self).tick == old(self).tick,
            final(self).game_events_counter@ == old(self).game_events_counter@,
            final(self).header@ == old(self).header@,
            r is Ok <==> decoded_entries(
                bytes@,
                n_updates,
                udf,
                user_data_size,
                flags,
                variant_bit_count,
            ) is Some,
            r is Ok ==> string_table_applied(
                *old(self),
                *final(self),
                bytes@,
                n_updates,
                name@,
                udf,
                user_data_size,
                flags,
                variant_bit_count,
            ),
            r is Err ==> r == Err::<(), DemoParserError>(
                decode_error(bytes@, n_updates, udf, user_data_size, flags, variant_bit_count),
            ),
            r is Err ==> final(self).string_tables@ == old(self).string_tables@,
    {
        let items = self.decode_entries(
            bytes,
            n_updates,
            &name,
            udf,
            user_data_size,
            flags,
            variant_bit_count,
        )?;
        let ghost before = self.string_tables@;
        self.string_tables.push(
            StringTable {
                data: items,
                name,
                user_data_size,
                user_data_fixed: udf,
                flags,
                var_bit_counts: variant_bit_count,
            },
        );
        proof {
            assert(self.string_tables@.drop_last() =~= before);
        }
        Ok(())
    }

    /// Decodes a create-string-table message (name 1, entry count 2, fixed-size flag 3, value
    /// size 4, flags 6, data 7, compressed flag 9, varint bit counts 10) and keeps the table.
    pub fn parse_create_stringtable(&mut self, bytes: &Vec<u8>) -> (r: Result<(), DemoParserError>)
        requires
            old(self).wf(),
        ensures
            same_config(*old(self), *final(self)),
            r is Ok <==> create_ok(*old(self), bytes@),
            r is Ok ==> create_applied(*old(self), *final(self), bytes@),
            keeps_header(*old(self), *final(self)),
            keeps_descriptors(*old(self), *final(self)),
            keeps_counts(*old(self), *final(self)),
            keeps_entities(*old(self), *final(self)),
            keeps_cls_bits(*old(self), *final(self)),
            final(self).wf(),
            final(self).reader == old(self).reader,
            final(self).tick == old(self).tick,
            final(self).game_events_counter@ == old(self).game_events_counter@,
            final(self).header@ == old(self).header@,
            r is Err ==> final(self).string_tables@ == old(self).string_tables@,
            match pb_fields(bytes@) {
                None => r == Err::<(), DemoParserError>(DemoParserError::MalformedMessage),
                Some(fs) => match create_data(fs) {
                    None => r == Err::<(), DemoParserError>(DemoParserError::DecompressionFailed),
                    Some(data) => {
                        &&& r is Ok <==> data.len() <= usize::MAX / 8 && decoded_entries(
                            data,
                            pb_int(fs, 2, 0) as i32,
                            pb_int(fs, 3, 0) != 0,
                            pb_int(fs, 4, 0) as i32,
                            pb_int(fs, 6, 0) as i32,
                            pb_int(fs, 10, 0) != 0,
                        ) is Some
                        &&& r is Ok ==> string_table_applied(
                            *old(self),
                            *final(self),
                            data,
                            pb_int(fs, 2, 0) as i32,
                            utf8_lossy_of(pb_bytes(fs, 1)),
                            pb_int(fs, 3, 0) != 0,
                            pb_int(fs, 4, 0) as i32,
                            pb_int(fs, 6, 0) as i32,
                            pb_int(fs, 10, 0) != 0,
                        )
                    },
                },
            },
    {
        let fs = parse_message(bytes)?;
        let name = lossy_string(&get_bytes(&fs, 1));
        let raw = get_bytes(&fs, 7);
        let data = if get_int(&fs, 9, 0) != 0 {
            decompress(&raw)?
        } else {
            raw
        };
        if data.len() > usize::MAX / 8 {
            return Err(DemoParserError::MalformedMessage);
        }
        self.parse_string_table(
            data,
            #[verifier::truncate] (get_int(&fs, 2, 0) as i32),
            name,
            get_int(&fs, 3, 0) != 0,
            #[verifier::truncate] (get_int(&fs, 4, 0) as i32),
            #[verifier::truncate] (get_int(&fs, 6, 0) as i32),
            get_int(&fs, 10, 0) != 0,
        )
    }

    /// Decodes an update-string-table message (table id 1, changed entries 2, data 3) and
    /// applies its entries to that table in place: an entry replaces the one with its index,
    /// or is added after the others.
    #[verifier::rlimit(100)]
    pub fn update_string_table(&mut self, bytes: &Vec<u8>) -> (r: Result<(), DemoParserError>)
        requires
            old(self).wf(),
        ensures
            same_config(*old(self), *final(self)),
            r is Ok <==> update_ok(*old(self), bytes@),
            r is Ok ==> update_applied(*old(self), *final(self), bytes@),
            r == Err::<(), DemoParserError>(DemoParserError::StringTableNotFound) <==> pb_fields(bytes@) is Some && !update_in_range(*old(self), pb_fields(bytes@)->Some_0),
            keeps_header(*old(self), *final(self)),
            keeps_descriptors(*old(self), *final(self)),
            keeps_counts(*old(self), *final(self)),
            keeps_entities(*old(self), *final(self)),
            keeps_cls_bits(*old(self), *final(self)),
            final(self).wf(),
            final(self).reader == old(self).reader,
            final(self).tick == old(self).tick,
            final(self).game_events_counter@ == old(self).game_events_counter@,
            final(self).header@ == old(self).header@,
            final(self).string_tables@.len() == old(self).string_tables@.len(),
            match pb_fields(bytes@) {
                None => r == Err::<(), DemoParserError>(DemoParserError::MalformedMessage),
                Some(fs) => {
                    let id = pb_int(fs, 1, 0) as i32;
                    if id < 0 || id as int >= old(self).string_tables@.len() {
                        r == Err::<(), DemoParserError>(DemoParserError::StringTableNotFound)
                            && final(self).string_tables@ == old(self).string_tables@
                            && baseline_entries(final(self).baselines) == baseline_entries(
                            old(self).baselines,
                        ) && final(self).stringtable_players == old(self).stringtable_players
                    } else {
                        let t = old(self).string_tables@[id as int];
                        let dec = decoded_entries(
                            pb_bytes(fs, 3),
                            pb_int(fs, 2, 0) as i32,
                            t.user_data_fixed,
                            t.user_data_size,
                            t.flags,
                            t.var_bit_counts,
                        );
                        &&& r is Ok <==> pb_bytes(fs, 3).len() <= usize::MAX / 8 && dec is Some
                        &&& r is Ok ==> {
                            let nt = final(self).string_tables@[id as int];
                            &&& forall|k: int|
                                0 <= k < old(self).string_tables@.len() && k != id
                                    ==> #[trigger] final(self).string_tables@[k] == old(
                                    self,
                                ).string_tables@[k]
                            &&& nt.name@ == t.name@
                            &&& nt.user_data_fixed == t.user_data_fixed
                            &&& nt.user_data_size == t.user_data_size
                            &&& nt.flags == t.flags
                            &&& nt.var_bit_counts == t.var_bit_counts
                            &&& merged_with(t.data@, dec->Some_0, nt.data@)
                            &&& records_applied(*old(self), *final(self), t.name@, dec->Some_0)
                        }
                        &&& r is Err ==> final(self).string_tables@ == old(self).string_tables@
                    }
                },
            },
    {
        let fs = parse_message(bytes)?;
        let table_id = #[verifier::truncate] (get_int(&fs, 1, 0) as i32);
        if table_id < 0 || table_id as usize >= self.string_tables.len() {
            return Err(DemoParserError::StringTableNotFound);
        }
        let t = table_id as usize;
        let data = get_bytes(&fs, 3);
        if data.len() > usize::MAX / 8 {
            return Err(DemoParserError::MalformedMessage);
        }
        let name = self.string_tables[t].name.clone();
        let udf = self.string_tables[t].user_data_fixed;
        let size = self.string_tables[t].user_data_size;
        let flags = self.string_tables[t].flags;
        let var = self.string_tables[t].var_bit_counts;
        let n_changed = #[verifier::truncate] (get_int(&fs, 2, 0) as i32);
        let ghost dec = decoded_entries(data@, n_changed, udf, size, flags, var);
        let new_entries = self.decode_entries(
            data,
            n_changed,
            &name,
            udf,
            size,
            flags,
            var,
        )?;
        let ghost before = self.string_tables@;
        let mut table = self.string_tables.remove(t);
        let ghost old_data = table.data@;
        let ghost ups = new_entries@;
        merge_entries(&mut table.data, new_entries);
        proof {
            lemma_merged_with(old_data, ups, dec->Some_0, table.data@);
        }
        self.string_tables.insert(t, table);
        proof {
            assert forall|k: int|
                0 <= k < before.len() && k != t implies #[trigger] self.string_tables@[k] == before[k] by {}
        }
        Ok(())
    }
}

} // verus!
