use vstd::prelude::*;
use crate::effects::{FrameView, frame_step, frame_applied, frame_fails, frames_applied, full_packet_applied, full_packet_fails, msg_ok, msg_applied, msgs_applied, msgs_fail, packet_applied, packet_fails, server_info_applied, ents_header_applied, string_tables_cmd_ok, string_tables_cmd_applied};
use crate::bitreader::BitReader;
use crate::error::DemoParserError;
use crate::frame::{EDemoCommands, demo_cmd_type_from_int, handle_short_header, header_check, frame_end, frame_kind, frame_tick_pos, frame_size_pos, frame_payload_pos, frame_ok, frame_payload, header_view, header_fields_of};
use crate::bitreader::{varint_value, varint_len, ubitvar_extra, ubitvar_value};
use crate::bitreader::lemma_varint_len_bounds;
use crate::parser::{Parser, same_content, same_config, keeps_tables, keeps_baselines, keeps_players, keeps_header, keeps_descriptors, keeps_counts, keeps_entities, keeps_cls_bits};
use crate::events::{GE_GAME_EVENT, GE_GAME_EVENT_LIST};
use crate::proto::{parse_message, get_bytes, get_int, pb_fields, pb_int, pb_bytes, fields_view, PbField, PbFieldView};
use crate::stringtables::{decimal_u32, is_baseline_table, bytes_at};
use crate::baselines::baseline_entries;
use crate::outside::utf8_lossy_of;
use crate::outside::lossy_string;
use crate::stringtables::is_named;
use vstd::arithmetic::power2::pow2;

verus! {

/// Net message kind of the server info.
pub const SVC_SERVER_INFO: u32 = 40;

/// Net message kind of entity updates.
pub const SVC_PACKET_ENTITIES: u32 = 55;

/// Net message kind of a string-table creation.
pub const SVC_CREATE_STRING_TABLE: u32 = 44;

/// Net message kind of a string-table update.
pub const SVC_UPDATE_STRING_TABLE: u32 = 45;

/// Byte length of the fixed header before the first frame.
pub const SHORT_HEADER_LEN: usize = 16;

/// The width of class ids for `n` classes: the least `b` with `2^b > n`.
pub open spec fn class_bits_for(n: int) -> u32 {
    class_bits_from(n, 0)
}

pub open spec fn class_bits_from(n: int, b: nat) -> u32
    decreases 32 - b,
{
    if b >= 32 || pow2(b) > n {
        b as u32
    } else {
        class_bits_from(n, b + 1)
    }
}

/// The width of class ids for `max_classes` classes.
pub fn class_id_bits(max_classes: i32) -> (r: u32)
    ensures
        r == class_bits_for(max_classes as int),
        max_classes >= 0 ==> pow2(r as nat) > max_classes && (r == 0 || pow2((r - 1) as nat)
            <= max_classes),
{
    let mut b: u32 = 0;
    let mut p: u64 = 1;
    let limit: u64 = if max_classes < 0 {
        0
    } else {
        max_classes as u64
    };
    proof {
        vstd::arithmetic::power2::lemma2_to64();
    }
    while b < 32 && p <= limit
        invariant
            b <= 32,
            p == pow2(b as nat),
            1 <= p <= 0x1_0000_0000,
            class_bits_for(max_classes as int) == class_bits_from(max_classes as int, b as nat),
            max_classes >= 0 && b > 0 ==> pow2((b - 1) as nat) <= max_classes,
            pow2(32) == 0x1_0000_0000,
            limit == (if max_classes < 0 {
                0
            } else {
                max_classes as int
            }),
        decreases 32 - b,
    {
        proof {
            assert(!(pow2(b as nat) > max_classes as int));
            assert(class_bits_from(max_classes as int, b as nat) == class_bits_from(
                max_classes as int,
                (b + 1) as nat,
            ));
            vstd::arithmetic::power2::lemma_pow2_unfold((b + 1) as nat);
            if b + 1 < 32 {
                vstd::arithmetic::power2::lemma_pow2_strictly_increases((b + 1) as nat, 32);
            }
        }
        b = b + 1;
        p = p * 2;
    }
    proof {
        if max_classes >= 0 && b >= 32 {
            vstd::arithmetic::power2::lemma_pow2_strictly_increases(31, 32);
        }
    }
    b
}

/// The baselines after the items of an `instancebaseline` table (its length-delimited
/// fields 2, each with key 1 and value 2), or `None` where an item is malformed.
pub open spec fn items_fold(m: Map<u32, Seq<u8>>, its: Seq<PbFieldView>) -> Option<Map<u32, Seq<u8>>>
    decreases its.len(),
{
    if its.len() == 0 {
        Some(m)
    } else {
        match items_fold(m, its.drop_last()) {
            None => None,
            Some(m2) => if its.last().0 == 2 && its.last().1 == 2 {
                match pb_fields(its.last().3) {
                    None => None,
                    Some(it) => Some(
                        match decimal_u32(pb_bytes(it, 1)) {
                            Some(id) => m2.insert(id, pb_bytes(it, 2)),
                            None => m2,
                        },
                    ),
                }
            } else {
                Some(m2)
            },
        }
    }
}

/// The baselines after the tables of a string-tables command (its length-delimited fields
/// 1, each named in field 1), or `None` where a table or an item is malformed.
pub open spec fn tables_fold(m: Map<u32, Seq<u8>>, ts: Seq<PbFieldView>) -> Option<Map<u32, Seq<u8>>>
    decreases ts.len(),
{
    if ts.len() == 0 {
        Some(m)
    } else {
        match tables_fold(m, ts.drop_last()) {
            None => None,
            Some(m2) => if ts.last().0 == 1 && ts.last().1 == 2 {
                match pb_fields(ts.last().3) {
                    None => None,
                    Some(t) => if is_baseline_table(utf8_lossy_of(pb_bytes(t, 1))) {
                        items_fold(m2, t)
                    } else {
                        Some(m2)
                    },
                }
            } else {
                Some(m2)
            },
        }
    }
}

proof fn lemma_items_fold_prefix_none(m: Map<u32, Seq<u8>>, its: Seq<PbFieldView>, i: int)
    requires
        0 <= i <= its.len(),
        items_fold(m, its.subrange(0, i)) is None,
    ensures
        items_fold(m, its) is None,
    decreases its.len() - i,
{
    if i < its.len() {
        assert(its.subrange(0, i + 1).drop_last() =~= its.subrange(0, i));
        lemma_items_fold_prefix_none(m, its, i + 1);
    } else {
        assert(its.subrange(0, i) =~= its);
    }
}

proof fn lemma_tables_fold_prefix_none(m: Map<u32, Seq<u8>>, ts: Seq<PbFieldView>, i: int)
    requires
        0 <= i <= ts.len(),
        tables_fold(m, ts.subrange(0, i)) is None,
    ensures
        tables_fold(m, ts) is None,
    decreases ts.len() - i,
{
    if i < ts.len() {
        assert(ts.subrange(0, i + 1).drop_last() =~= ts.subrange(0, i));
        lemma_tables_fold_prefix_none(m, ts, i + 1);
    } else {
        assert(ts.subrange(0, i) =~= ts);
    }
}

/// The net messages of packet data from bit `p` on, each as its kind and bytes; `None` where
/// one does not fit. Fewer than eight bits left end the data.
pub open spec fn net_messages(d: Seq<u8>, p: int) -> Option<Seq<(nat, Seq<u8>)>>
    decreases d.len() * 8 - p,
{
    if p < 0 || d.len() * 8 - p < 8 {
        Some(Seq::empty())
    } else {
        let q = p + 6 + ubitvar_extra(d, p);
        let r = q + 8 * varint_len(d, q);
        let n = varint_value(d, q);
        if r + 8 * n > d.len() * 8 || r + 8 * n <= p {
            None
        } else {
            match net_messages(d, r + 8 * n) {
                None => None,
                Some(rest) => Some(seq![(ubitvar_value(d, p), bytes_at(d, r, n))] + rest),
            }
        }
    }
}

/// The frames a parse reads from bit `p` on, up to a Stop frame (or, asked for the header
/// only, a file-header frame) or the end of the data, and the error of the frame that stops
/// it early: `UnexpectedEof` for one that does not fit, `DecompressionFailed` for one whose
/// payload does not decompress.
pub open spec fn frame_list(d: Seq<u8>, p: int, only_header: bool) -> (Seq<FrameView>, Option<DemoParserError>)
    decreases d.len() * 8 - p,
{
    if p < 0 || p >= d.len() * 8 {
        (Seq::empty(), None)
    } else if frame_end(d, p) > d.len() * 8 || frame_end(d, p) <= p {
        (Seq::empty(), Some(DemoParserError::UnexpectedEof))
    } else if !frame_ok(d, p) {
        (Seq::empty(), Some(DemoParserError::DecompressionFailed))
    } else {
        let f = (
            frame_kind(d, p),
            varint_value(d, frame_tick_pos(d, p)) as u32 as i32,
            frame_payload(d, p),
        );
        if f.0 == 0 || (only_header && f.0 == 1) {
            (seq![f], None)
        } else {
            let rest = frame_list(d, frame_end(d, p), only_header);
            (seq![f] + rest.0, rest.1)
        }
    }
}

proof fn lemma_frames_applied_step(s: Parser, mid: Parser, t: Parser, fs: Seq<FrameView>)
    requires
        fs.len() > 0,
        frames_applied(s, mid, fs.drop_last()),
        frame_step(mid, t, fs.last()),
    ensures
        frames_applied(s, t, fs),
{
}

/// How many frames a parse reads from bit `p` on, and the tick of the last one (`t` if none):
/// frames up to a Stop frame (or, asked for the header only, a file-header frame) or the end
/// of the data; `None` where a frame does not fit or does not decompress.
pub open spec fn frames_read(d: Seq<u8>, p: int, only_header: bool, t: i32) -> Option<(nat, i32)>
    decreases d.len() * 8 - p,
{
    if p < 0 || p >= d.len() * 8 {
        Some((0, t))
    } else if !frame_ok(d, p) || frame_end(d, p) <= p {
        None
    } else {
        let k = frame_kind(d, p);
        let t2 = varint_value(d, frame_tick_pos(d, p)) as u32 as i32;
        if k == 0 || (only_header && k == 1) {
            Some((1, t2))
        } else {
            match frames_read(d, frame_end(d, p), only_header, t2) {
                None => None,
                Some(x) => Some((x.0 + 1, x.1)),
            }
        }
    }
}

/// The payload of the first file-header frame from bit `p` on: `Some(None)` where a Stop
/// frame or the end of the data comes first, `None` where a frame before it does not fit or
/// does not decompress.
pub open spec fn header_scan(d: Seq<u8>, p: int) -> Option<Option<Seq<u8>>>
    decreases d.len() * 8 - p,
{
    if p < 0 || p >= d.len() * 8 {
        Some(None)
    } else if !frame_ok(d, p) || frame_end(d, p) <= p {
        None
    } else {
        let k = frame_kind(d, p);
        if k == 0 {
            Some(None)
        } else if k == 1 {
            Some(Some(frame_payload(d, p)))
        } else {
            header_scan(d, frame_end(d, p))
        }
    }
}

/// What a front scan has found: the offsets of the full-state dumps, of the class info and
/// of the send tables.
pub type ScanState = (Seq<usize>, usize, usize);

/// The result of scanning the frames from bit `p` up to a Stop frame or the end of the
/// data, or `None` where a frame does not fit in it.
pub open spec fn front_scan(d: Seq<u8>, p: int, md: ScanState) -> Option<ScanState>
    decreases d.len() * 8 - p,
{
    if p < 0 || p >= d.len() * 8 {
        Some(md)
    } else if frame_end(d, p) > d.len() * 8 || frame_end(d, p) <= p {
        None
    } else {
        let k = frame_kind(d, p);
        let off = (p / 8) as usize;
        if k == 0 {
            Some(md)
        } else {
            let md2 = if k == 4 {
                (md.0, md.1, off)
            } else if k == 5 {
                (md.0, off, md.2)
            } else if k == 13 {
                (md.0.push(off), md.1, md.2)
            } else {
                md
            };
            front_scan(d, frame_end(d, p), md2)
        }
    }
}

/// Where the frames that a parallel parse starts from lie in a demo.
#[derive(Debug)]
pub struct DemoMetaData {
    pub fullpacket_offsets: Vec<usize>,
    pub classinfo_offset: usize,
    pub sendtable_offset: usize,
}

impl Parser {
    /// Runs the net messages of a packet (its data is field 3): each is a variable-width
    /// kind, a varint size and that many bytes. String-table and game-event messages are
    /// applied; the others are skipped.
    #[verifier::rlimit(100)]
    pub fn parse_packet(&mut self, bytes: &Vec<u8>) -> (r: Result<(), DemoParserError>)
        requires
            old(self).wf(),
        ensures
            same_config(*old(self), *final(self)),
            final(self).wf(),
            final(self).reader == old(self).reader,
            final(self).tick == old(self).tick,
            pb_fields(bytes@) is None ==> r == Err::<(), DemoParserError>(
                DemoParserError::MalformedMessage,
            ),
            pb_fields(bytes@) is Some && net_messages(pb_bytes(pb_fields(bytes@)->Some_0, 3), 0)
                is None ==> r is Err,
            r is Ok ==> net_messages(pb_bytes(pb_fields(bytes@)->Some_0, 3), 0) is Some,
            r is Ok ==> packet_applied(*old(self), *final(self), bytes@),
            r is Err ==> packet_fails(*old(self), bytes@),
    {
        let fs = parse_message(bytes)?;
        let data = get_bytes(&fs, 3);
        if data.len() > usize::MAX / 8 {
            return Err(DemoParserError::MalformedMessage);
        }
        let ghost d = data@;
        let ghost mut done: Seq<(nat, Seq<u8>)> = Seq::empty();
        let mut msgs = BitReader::new(data);
        proof {
            match net_messages(d, 0) {
                Some(x) => {
                    assert(done + x =~= x);
                },
                None => {},
            }
        }
        while msgs.bits_remaining() >= 8
            invariant
                same_config(*old(self), *self),
                msgs.wf(),
                msgs.data@ == d,
                d == pb_bytes(pb_fields(bytes@)->Some_0, 3),
                self.wf(),
                self.reader == old(self).reader,
                self.tick == old(self).tick,
                pb_fields(bytes@) is Some,
                msgs_applied(*old(self), *self, done),
                net_messages(d, 0) == match net_messages(d, msgs.pos as int) {
                    None => None,
                    Some(rest) => Some(done + rest),
                },
            decreases msgs.total() - msgs.pos,
        {
            let ghost p = msgs.pos as int;
            let ghost prev_done = done;
            proof {
                vstd::arithmetic::power2::lemma2_to64();
                lemma_varint_len_bounds(d, p + 6 + ubitvar_extra(d, p), 0);
            }
            let msg_type = match msgs.read_u_bit_var() {
                Ok(x) => x,
                Err(e) => {
                    proof {
                        assert(net_messages(d, p) is None);
                    }
                    return Err(e);
                },
            };
            let size = match msgs.read_varint() {
                Ok(x) => x,
                Err(e) => {
                    proof {
                        assert(net_messages(d, p) is None);
                    }
                    return Err(e);
                },
            };
            let ghost q = msgs.pos as int;
            let msg = match msgs.read_n_bytes(size as usize) {
                Ok(x) => x,
                Err(e) => {
                    proof {
                        assert(net_messages(d, p) is None);
                    }
                    return Err(e);
                },
            };
            proof {
                let m = (ubitvar_value(d, p), bytes_at(d, q, size as nat));
                assert(msg@ =~= bytes_at(d, q, size as nat));
                match net_messages(d, msgs.pos as int) {
                    Some(rest) => {
                        assert(done + (seq![m] + rest) =~= done.push(m) + rest);
                    },
                    None => {},
                }
                done = done.push(m);
            }

            let ghost prev = *self;
            let ghost m = (ubitvar_value(d, p), msg@);
            match self.apply_message(msg_type, &msg) {
                Ok(()) => {
                    proof {
                        assert(done.drop_last() =~= prev_done);
                        assert(msgs_applied(*old(self), prev, done.drop_last()));
                        assert(done.len() > 0 && done.last() == m);
                        assert(msg_ok(prev, m) && msg_applied(prev, *self, m));
                        assert(msgs_applied(*old(self), *self, done));
                    }
                },
                Err(e) => {
                    proof {
                        match net_messages(d, 0) {
                            Some(ms) => {
                                assert(ms.take(prev_done.len() as int) =~= prev_done);
                                assert(ms[prev_done.len() as int] == m);
                                assert(msgs_applied(*old(self), prev, ms.take(prev_done.len() as int)));
                                assert(!msg_ok(prev, ms[prev_done.len() as int]));
                                assert(msgs_fail(*old(self), ms));
                            },
                            None => {},
                        }
                    }
                    return Err(e);
                },
            }
        }
        Ok(())
    }

    /// Applies a frame's payload by its kind: packets, full-state dumps, the file header and
    /// string-tables commands; other kinds are skipped.
    pub fn apply_frame(&mut self, kind: u32, payload: &Vec<u8>) -> (r: Result<(), DemoParserError>)
        requires
            old(self).wf(),
        ensures
            final(self).wf(),
            same_config(*old(self), *final(self)),
            r is Ok ==> frame_applied(*old(self), *final(self), (kind, old(self).tick, payload@)),
            r is Err ==> frame_fails(*old(self), (kind, old(self).tick, payload@)),
    {
        proof {
            reveal(frame_applied);
            reveal(frame_fails);
        }
        let k = if kind <= 64 {
            demo_cmd_type_from_int(kind as i32)
        } else {
            None
        };
        match k {
            Some(EDemoCommands::DEM_Packet) | Some(EDemoCommands::DEM_SignonPacket) => {
                self.parse_packet(payload)
            },
            Some(EDemoCommands::DEM_FullPacket) => self.parse_full_packet(payload),
            Some(EDemoCommands::DEM_FileHeader) => self.parse_header(payload),
            Some(EDemoCommands::DEM_StringTables) => self.parse_stringtable_cmd(payload),
            _ => Ok(()),
        }
    }

    /// Applies one net message by its kind; other kinds are skipped.
    pub fn apply_message(&mut self, kind: u32, msg: &Vec<u8>) -> (r: Result<(), DemoParserError>)
        requires
            old(self).wf(),
        ensures
            final(self).wf(),
            same_config(*old(self), *final(self)),
            r is Ok <==> msg_ok(*old(self), (kind as nat, msg@)),
            r is Ok ==> msg_applied(*old(self), *final(self), (kind as nat, msg@)),
    {
        proof {
            reveal(msg_ok);
            reveal(msg_applied);
        }
        if kind == SVC_CREATE_STRING_TABLE {
            self.parse_create_stringtable(msg)
        } else if kind == SVC_UPDATE_STRING_TABLE {
            self.update_string_table(msg)
        } else if kind == SVC_SERVER_INFO {
            self.parse_server_info(msg)
        } else if kind == SVC_PACKET_ENTITIES {
            self.parse_packet_ents_header(msg)
        } else if kind == GE_GAME_EVENT_LIST {
            self.parse_game_event_list(msg)
        } else if kind == GE_GAME_EVENT {
            self.parse_event(msg)
        } else {
            Ok(())
        }
    }

    /// Runs a full-state dump: its string tables (field 1), then its packet (field 2).
    pub fn parse_full_packet(&mut self, bytes: &Vec<u8>) -> (r: Result<(), DemoParserError>)
        requires
            old(self).wf(),
        ensures
            same_config(*old(self), *final(self)),
            final(self).wf(),
            final(self).reader == old(self).reader,
            final(self).tick == old(self).tick,
            pb_fields(bytes@) is None ==> r == Err::<(), DemoParserError>(
                DemoParserError::MalformedMessage,
            ),
            pb_fields(bytes@) is Some ==> {
                let fs = pb_fields(bytes@)->Some_0;
                let tables = pb_fields(pb_bytes(fs, 1));
                &&& tables is None ==> r is Err
                &&& tables is Some && tables_fold(baseline_entries(old(self).baselines), tables->Some_0)
                    is None ==> r is Err
                &&& r is Ok ==> tables is Some && tables_fold(
                    baseline_entries(old(self).baselines),
                    tables->Some_0,
                ) is Some && pb_fields(pb_bytes(fs, 2)) is Some && net_messages(
                    pb_bytes(pb_fields(pb_bytes(fs, 2))->Some_0, 3),
                    0,
                ) is Some
            },
            r is Ok ==> full_packet_applied(*old(self), *final(self), bytes@),
            r is Err ==> full_packet_fails(*old(self), bytes@),
    {
        let fs = parse_message(bytes)?;
        let tables = get_bytes(&fs, 1);
        self.parse_stringtable_cmd(&tables)?;
        let ghost mid = *self;
        let packet = get_bytes(&fs, 2);
        let r = self.parse_packet(&packet);
        proof {
            if r is Ok {
                assert(string_tables_cmd_applied(*old(self), mid, tables@) && packet_applied(mid, *self, packet@));
            } else {
                assert(string_tables_cmd_applied(*old(self), mid, tables@) && packet_fails(mid, packet@));
            }
        }
        r
    }

    /// Checks the fixed header and moves to the first frame.
    fn skip_short_header(&mut self) -> (r: Result<(), DemoParserError>)
        requires
            old(self).wf(),
        ensures
            final(self).wf(),
            final(self).reader.data@ == old(self).reader.data@,
            final(self).header@ == old(self).header@,
            r == header_check(old(self).reader.data@),
            r is Ok ==> final(self).reader.pos == SHORT_HEADER_LEN * 8,
            same_content(*old(self), *final(self)),
            final(self).tick == old(self).tick,
    {
        handle_short_header(&self.reader.data)?;
        self.reader.pos = SHORT_HEADER_LEN * 8;
        Ok(())
    }

    #[verifier::rlimit(100)]
    /// Parses the whole demo: frames until a Stop frame or the end of the input, or only up
    /// to the file header when that is all that was asked for. Returns how many frames were
    /// read.
    pub fn start(&mut self) -> (r: Result<i32, DemoParserError>)
        requires
            old(self).wf(),
        ensures
            final(self).wf(),
            final(self).reader.data@ == old(self).reader.data@,
            header_check(old(self).reader.data@) is Err ==> r == Err::<i32, DemoParserError>(
                header_check(old(self).reader.data@)->Err_0,
            ),
            header_check(old(self).reader.data@) is Ok && frames_read(
                old(self).reader.data@,
                SHORT_HEADER_LEN * 8,
                old(self).only_header,
                old(self).tick,
            ) is None ==> r is Err,
            r is Ok ==> {
                let (n, t) = frames_read(
                    old(self).reader.data@,
                    SHORT_HEADER_LEN * 8,
                    old(self).only_header,
                    old(self).tick,
                )->Some_0;
                &&& frames_read(
                    old(self).reader.data@,
                    SHORT_HEADER_LEN * 8,
                    old(self).only_header,
                    old(self).tick,
                ) is Some
                &&& r->Ok_0 == (if n < i32::MAX {
                    n as i32
                } else {
                    i32::MAX
                })
                &&& final(self).tick == t
            },
            header_check(old(self).reader.data@) is Ok ==> {
                let fl = frame_list(
                    old(self).reader.data@,
                    SHORT_HEADER_LEN * 8,
                    old(self).only_header,
                );
                &&& r is Ok ==> fl.1 is None && frames_applied(*old(self), *final(self), fl.0)
                    && r->Ok_0 == (if fl.0.len() < i32::MAX {
                    fl.0.len() as i32
                } else {
                    i32::MAX
                })
                &&& r is Err ==> (exists|k: int, mid: Parser, read: Parser|
                    #![trigger frames_applied(*old(self), mid, fl.0.take(k)), frame_fails(read, fl.0[k])]
                    0 <= k < fl.0.len() && frames_applied(*old(self), mid, fl.0.take(k))
                        && same_content(mid, read) && read.tick == fl.0[k].1 && frame_fails(
                        read,
                        fl.0[k],
                    )) || (fl.1 == Some(r->Err_0) && exists|mid: Parser|
                    #[trigger] frames_applied(*old(self), mid, fl.0))
            },
    {
        let only_header = self.only_header;
        let ghost d = self.reader.data@;
        let ghost t0 = self.tick;
        self.skip_short_header()?;
        let mut frames: i32 = 0;
        let ghost mut count: nat = 0;
        let ghost mut done: Seq<FrameView> = Seq::empty();
        proof {
            assert(Seq::<FrameView>::empty() + frame_list(d, SHORT_HEADER_LEN * 8, only_header).0
                =~= frame_list(d, SHORT_HEADER_LEN * 8, only_header).0);
        }
        proof {
            match frames_read(d, SHORT_HEADER_LEN * 8, only_header, t0) {
                Some(x) => {
                    assert(x.0 + 0 == x.0);
                },
                None => {},
            }
        }
        while self.reader.bits_remaining() > 0
            invariant
                self.wf(),
                self.reader.data@ == d,
                d == old(self).reader.data@,
                only_header == old(self).only_header,
                t0 == old(self).tick,
                header_check(d) is Ok,
                frames == (if count < i32::MAX {
                    count as i32
                } else {
                    i32::MAX
                }),
                frames_read(d, SHORT_HEADER_LEN * 8, only_header, t0) == match frames_read(
                    d,
                    self.reader.pos as int,
                    only_header,
                    self.tick,
                ) {
                    None => None,
                    Some(x) => Some((x.0 + count, x.1)),
                },
                count == done.len(),
                frames_applied(*old(self), *self, done),
                frame_list(d, SHORT_HEADER_LEN * 8, only_header) == (
                    done + frame_list(d, self.reader.pos as int, only_header).0,
                    frame_list(d, self.reader.pos as int, only_header).1,
                ),
            decreases self.reader.total() - self.reader.pos,
        {
            let ghost p = self.reader.pos as int;
            let ghost tk = self.tick;
            let ghost prev = *self;
            let ghost prev_done = done;
            let frame = match self.read_frame() {
                Ok(f) => f,
                Err(e) => {
                    proof {
                        lemma_varint_len_bounds(d, p, 0);
                        assert(frame_end(d, p) > p);
                        assert(frames_read(d, p, only_header, tk) is None);
                        assert(frame_list(d, p, only_header).0.len() == 0);
                        assert(frame_list(d, p, only_header).1 == Some(e));
                        assert(done + frame_list(d, p, only_header).0 =~= done);
                        assert(frames_applied(*old(self), prev, done));
                        assert(frame_list(d, SHORT_HEADER_LEN * 8, only_header).0 == done);
                        assert(frames_applied(*old(self), prev, frame_list(d, SHORT_HEADER_LEN * 8, only_header).0));
                    }
                    return Err(e);
                },
            };
            let ghost read = *self;
            let ghost f: FrameView = (frame.cmd, frame.tick, frame.payload@);
            proof {
                count = count + 1;
                assert(frame.cmd == frame_kind(d, p));
                assert(frame.payload@ == frame_payload(d, p));
                done = done.push(f);
                let rest = frame_list(d, self.reader.pos as int, only_header);
                if !(frame.cmd == 0 || (only_header && frame.cmd == 1)) {
                    assert(prev_done + (seq![f] + rest.0) =~= done + rest.0);
                }
            }
            if frames < i32::MAX {
                frames = frames + 1;
            }
            if frame.cmd == 0 {
                proof {
                    reveal(frame_applied);
                    assert(done.drop_last() =~= prev_done);
                    assert(frames_applied(*old(self), prev, done.drop_last()));
                    assert(done.last() == f);
                    assert(frame_applied(read, *self, done.last()));
                    assert(frame_step(prev, *self, done.last()));
                    lemma_frames_applied_step(*old(self), prev, *self, done);
                    assert(prev_done + seq![f] =~= done);
                }
                return Ok(frames);
            }
            match self.apply_frame(frame.cmd, &frame.payload) {
                Ok(()) => {
                    proof {
                        assert(done.drop_last() =~= prev_done);
                        assert(frames_applied(*old(self), prev, done.drop_last()));
                        assert(done.last() == f);
                        assert(same_content(prev, read) && read.tick == f.1);
                        assert(frame_applied(read, *self, done.last()));
                        assert(done.len() > 0);
                        assert(frame_step(prev, *self, done.last()));
                        lemma_frames_applied_step(*old(self), prev, *self, done);
                    }
                },
                Err(e) => {
                    proof {
                        let fl = frame_list(d, SHORT_HEADER_LEN * 8, only_header).0;
                        assert(fl.take(prev_done.len() as int) =~= prev_done);
                        assert(fl[prev_done.len() as int] == f);
                        assert(frames_applied(*old(self), prev, fl.take(prev_done.len() as int)));
                        assert(frame_fails(read, fl[prev_done.len() as int]));
                    }
                    return Err(e);
                },
            }
            if only_header && frame.cmd == 1 {
                proof {
                    assert(prev_done + seq![f] =~= done);
                }
                return Ok(frames);
            }
        }
        proof {
            assert(done + Seq::<FrameView>::empty() =~= done);
        }
        Ok(frames)
    }

    /// Reads frames up to the file header and stops there.
    pub fn parse_header_only(&mut self) -> (r: Result<(), DemoParserError>)
        requires
            old(self).wf(),
        ensures
            final(self).wf(),
            final(self).reader.data@ == old(self).reader.data@,
            header_check(old(self).reader.data@) is Err ==> r == header_check(
                old(self).reader.data@,
            ),
            header_check(old(self).reader.data@) is Ok ==> match header_scan(
                old(self).reader.data@,
                SHORT_HEADER_LEN * 8,
            ) {
                None => r is Err,
                Some(None) => r is Ok && final(self).header@ == old(self).header@,
                Some(Some(payload)) => match pb_fields(payload) {
                    None => r == Err::<(), DemoParserError>(DemoParserError::MalformedMessage),
                    Some(fs) => r is Ok && header_view(final(self).header@) == header_view(
                        old(self).header@,
                    ) + header_fields_of(fs),
                },
            },
    {
        let ghost d = self.reader.data@;
        self.skip_short_header()?;
        while self.reader.bits_remaining() > 0
            invariant
                self.wf(),
                self.reader.data@ == d,
                d == old(self).reader.data@,
                self.header@ == old(self).header@,
                header_check(d) is Ok,
                header_scan(d, SHORT_HEADER_LEN * 8) == header_scan(d, self.reader.pos as int),
            decreases self.reader.total() - self.reader.pos,
        {
            let ghost p = self.reader.pos as int;
            let frame = match self.read_frame() {
                Ok(f) => f,
                Err(e) => {
                    proof {
                        assert(header_scan(d, p) is None);
                    }
                    return Err(e);
                },
            };
            proof {
                assert(frame.cmd == frame_kind(d, p));
                assert(frame.payload@ == frame_payload(d, p));
            }
            let kind = if frame.cmd <= 64 {
                demo_cmd_type_from_int(frame.cmd as i32)
            } else {
                None
            };
            match kind {
                Some(EDemoCommands::DEM_Stop) => {
                    proof {
                        assert(frame.cmd == 0);
                    }
                    return Ok(());
                },
                Some(EDemoCommands::DEM_FileHeader) => {
                    proof {
                        assert(frame.cmd == 1);
                    }
                    return self.parse_header(&frame.payload);
                },
                _ => {},
            }
            proof {
                assert(frame.cmd != 0 && frame.cmd != 1);
            }
        }
        Ok(())
    }

    /// Reads the next frame's kind and moves past its payload without decoding it.
    pub fn skip_frame(&mut self) -> (r: Result<u32, DemoParserError>)
        requires
            old(self).wf(),
        ensures
            final(self).wf(),
            final(self).reader.data@ == old(self).reader.data@,
            final(self).header@ == old(self).header@,
            r is Ok ==> final(self).reader.pos >= old(self).reader.pos + 8,
            r is Ok <==> frame_end(old(self).reader.data@, old(self).reader.pos as int)
                <= old(self).reader.total(),
            r is Ok ==> final(self).reader.pos == frame_end(
                old(self).reader.data@,
                old(self).reader.pos as int,
            ) && r->Ok_0 == frame_kind(old(self).reader.data@, old(self).reader.pos as int),
    {
        let ghost d = self.reader.data@;
        let ghost p = self.reader.pos as int;
        proof {
            lemma_varint_len_bounds(d, p, 0);
        }
        proof {
            lemma_varint_len_bounds(d, frame_tick_pos(d, p), 0);
            lemma_varint_len_bounds(d, frame_size_pos(d, p), 0);
            vstd::arithmetic::power2::lemma2_to64();
        }
        let cmd = self.reader.read_varint()?;
        let _tick = self.reader.read_varint()?;
        let size = self.reader.read_varint()?;
        proof {
            assert(self.reader.pos == frame_payload_pos(d, p));
            assert(size as int == varint_value(d, frame_size_pos(d, p)));
        }
        if size as usize > self.reader.bits_remaining() / 8 {
            return Err(DemoParserError::UnexpectedEof);
        }
        self.reader.pos = self.reader.pos + size as usize * 8;
        Ok(cmd & !64u32)
    }

    /// Scans the frames without decoding them, and notes where the send tables, the class
    /// info and each full-state dump start (byte offsets of their frames).
    pub fn front_demo_metadata(&mut self) -> (r: Result<DemoMetaData, DemoParserError>)
        requires
            old(self).wf(),
        ensures
            final(self).wf(),
            header_check(old(self).reader.data@) is Err ==> r == Err::<DemoMetaData, DemoParserError>(
                header_check(old(self).reader.data@)->Err_0,
            ),
            header_check(old(self).reader.data@) is Ok ==> (r is Ok <==> front_scan(
                old(self).reader.data@,
                SHORT_HEADER_LEN * 8,
                (Seq::empty(), 0usize, 0usize),
            ) is Some),
            r is Ok ==> front_scan(
                old(self).reader.data@,
                SHORT_HEADER_LEN * 8,
                (Seq::empty(), 0usize, 0usize),
            ) == Some(
                (r->Ok_0.fullpacket_offsets@, r->Ok_0.classinfo_offset, r->Ok_0.sendtable_offset),
            ),
            r is Ok ==> {
                let md = r->Ok_0;
                &&& forall|i: int, j: int|
                    0 <= i < j < md.fullpacket_offsets@.len() ==> #[trigger] md.fullpacket_offsets@[i]
                        < #[trigger] md.fullpacket_offsets@[j]
                &&& forall|i: int|
                    0 <= i < md.fullpacket_offsets@.len() ==> SHORT_HEADER_LEN
                        <= #[trigger] md.fullpacket_offsets@[i] < old(self).reader.data@.len()
                &&& md.classinfo_offset < old(self).reader.data@.len()
                &&& md.sendtable_offset < old(self).reader.data@.len()
            },
    {
        self.skip_short_header()?;
        let mut md = DemoMetaData { fullpacket_offsets: Vec::new(), classinfo_offset: 0, sendtable_offset: 0 };
        proof {
            assert(md.fullpacket_offsets@ =~= Seq::<usize>::empty());
        }
        while self.reader.bits_remaining() > 0
            invariant
                self.wf(),
                self.reader.data@ == old(self).reader.data@,
                self.reader.pos >= SHORT_HEADER_LEN * 8,
                header_check(old(self).reader.data@) is Ok,
                front_scan(old(self).reader.data@, SHORT_HEADER_LEN * 8, (Seq::empty(), 0usize, 0usize))
                    == front_scan(
                    self.reader.data@,
                    self.reader.pos as int,
                    (md.fullpacket_offsets@, md.classinfo_offset, md.sendtable_offset),
                ),
                forall|i: int, j: int|
                    0 <= i < j < md.fullpacket_offsets@.len() ==> #[trigger] md.fullpacket_offsets@[i]
                        < #[trigger] md.fullpacket_offsets@[j],
                forall|i: int|
                    0 <= i < md.fullpacket_offsets@.len() ==> SHORT_HEADER_LEN
                        <= #[trigger] md.fullpacket_offsets@[i] < self.reader.pos / 8,
                md.classinfo_offset < old(self).reader.data@.len(),
                md.sendtable_offset < old(self).reader.data@.len(),
                self.reader.pos / 8 <= old(self).reader.data@.len(),
            decreases self.reader.total() - self.reader.pos,
        {
            let before = self.reader.pos / 8;
            let ghost p = self.reader.pos as int;
            let ghost d = self.reader.data@;
            let ghost st = (md.fullpacket_offsets@, md.classinfo_offset, md.sendtable_offset);
            let kind = match self.skip_frame() {
                Ok(k) => k,
                Err(e) => {
                    proof {
                        assert(front_scan(d, p, st) is None);
                    }
                    return Err(e);
                },
            };
            proof {
                assert(self.reader.pos / 8 > before);
                assert(before == (p / 8) as usize);
            }
            if kind == 4 {
                md.sendtable_offset = before;
            } else if kind == 5 {
                md.classinfo_offset = before;
            } else if kind == 13 {
                let ghost old_offsets = md.fullpacket_offsets@;
                md.fullpacket_offsets.push(before);
                proof {
                    assert forall|i: int, j: int|
                        0 <= i < j < md.fullpacket_offsets@.len() implies #[trigger] md.fullpacket_offsets@[i]
                            < #[trigger] md.fullpacket_offsets@[j] by {
                        if j < old_offsets.len() {
                            assert(md.fullpacket_offsets@[i] == old_offsets[i]);
                            assert(md.fullpacket_offsets@[j] == old_offsets[j]);
                        } else {
                            assert(md.fullpacket_offsets@[i] == old_offsets[i]);
                        }
                    }
                }
            } else if kind == 0 {
                proof {
                    assert(front_scan(d, p, st) == Some(st));
                }
                return Ok(md);
            }
        }
        Ok(md)
    }

    /// Stores the baseline of each item of an `instancebaseline` table (items in field 2,
    /// each with its key in field 1 and its value in field 2).
    pub fn load_baseline_items(&mut self, table: &Vec<PbField>) -> (r: Result<(), DemoParserError>)
        requires
            old(self).wf(),
        ensures
            same_config(*old(self), *final(self)),
            keeps_tables(*old(self), *final(self)),
            keeps_players(*old(self), *final(self)),
            keeps_header(*old(self), *final(self)),
            keeps_descriptors(*old(self), *final(self)),
            keeps_counts(*old(self), *final(self)),
            keeps_entities(*old(self), *final(self)),
            keeps_cls_bits(*old(self), *final(self)),
            final(self).wf(),
            final(self).reader == old(self).reader,
            final(self).tick == old(self).tick,
            final(self).string_tables@ == old(self).string_tables@,
            final(self).stringtable_players == old(self).stringtable_players,
            final(self).header@ == old(self).header@,
            final(self).game_events_counter@ == old(self).game_events_counter@,
            match items_fold(baseline_entries(old(self).baselines), fields_view(table@)) {
                None => r == Err::<(), DemoParserError>(DemoParserError::MalformedMessage),
                Some(m) => r is Ok && baseline_entries(final(self).baselines) == m,
            },
    {
        let ghost fv = fields_view(table@);
        let ghost m0 = baseline_entries(self.baselines);
        let mut i: usize = 0;
        proof {
            assert(fv.subrange(0, 0) =~= Seq::<PbFieldView>::empty());
        }
        while i < table.len()
            invariant
                same_config(*old(self), *self),
                keeps_tables(*old(self), *self),
                keeps_players(*old(self), *self),
                keeps_header(*old(self), *self),
                keeps_descriptors(*old(self), *self),
                keeps_counts(*old(self), *self),
                keeps_entities(*old(self), *self),
                keeps_cls_bits(*old(self), *self),
                i <= table@.len(),
                fv == fields_view(table@),
                m0 == baseline_entries(old(self).baselines),
                self.wf(),
                self.reader == old(self).reader,
                self.tick == old(self).tick,
                self.string_tables@ == old(self).string_tables@,
                self.stringtable_players == old(self).stringtable_players,
                self.header@ == old(self).header@,
                self.game_events_counter@ == old(self).game_events_counter@,
                items_fold(m0, fv.subrange(0, i as int)) == Some(baseline_entries(self.baselines)),
            decreases table@.len() - i,
        {
            proof {
                assert(fv.subrange(0, i + 1).drop_last() =~= fv.subrange(0, i as int));
                assert(fv.subrange(0, i + 1).last() == table@[i as int]@);
            }
            if table[i].number == 2 && table[i].wire == 2 {
                let item = match parse_message(&table[i].bytes) {
                    Ok(x) => x,
                    Err(e) => {
                        proof {
                            assert(items_fold(m0, fv.subrange(0, i + 1)) is None);
                            lemma_items_fold_prefix_none(m0, fv, i + 1);
                        }
                        return Err(e);
                    },
                };
                let key = get_bytes(&item, 1);
                self.record_baseline(&key, get_bytes(&item, 2));
            }
            i = i + 1;
        }
        proof {
            assert(fv.subrange(0, fv.len() as int) =~= fv);
        }
        Ok(())
    }

    /// Loads the baselines of a string-tables command (tables in field 1, each with its name
    /// in field 1). Only the `instancebaseline` table is read.
    pub fn parse_stringtable_cmd(&mut self, data: &Vec<u8>) -> (r: Result<(), DemoParserError>)
        requires
            old(self).wf(),
        ensures
            same_config(*old(self), *final(self)),
            r is Ok <==> string_tables_cmd_ok(*old(self), data@),
            r is Ok ==> string_tables_cmd_applied(*old(self), *final(self), data@),
            keeps_tables(*old(self), *final(self)),
            keeps_players(*old(self), *final(self)),
            keeps_header(*old(self), *final(self)),
            keeps_descriptors(*old(self), *final(self)),
            keeps_counts(*old(self), *final(self)),
            keeps_entities(*old(self), *final(self)),
            keeps_cls_bits(*old(self), *final(self)),
            final(self).wf(),
            final(self).reader == old(self).reader,
            final(self).tick == old(self).tick,
            final(self).string_tables@ == old(self).string_tables@,
            final(self).stringtable_players == old(self).stringtable_players,
            final(self).header@ == old(self).header@,
            final(self).game_events_counter@ == old(self).game_events_counter@,
            match pb_fields(data@) {
                None => r == Err::<(), DemoParserError>(DemoParserError::MalformedMessage),
                Some(fs) => match tables_fold(baseline_entries(old(self).baselines), fs) {
                    None => r == Err::<(), DemoParserError>(DemoParserError::MalformedMessage),
                    Some(m) => r is Ok && baseline_entries(final(self).baselines) == m,
                },
            },
    {
        let tables = parse_message(data)?;
        let ghost fv = fields_view(tables@);
        let ghost m0 = baseline_entries(self.baselines);
        let mut t: usize = 0;
        proof {
            assert(fv.subrange(0, 0) =~= Seq::<PbFieldView>::empty());
        }
        while t < tables.len()
            invariant
                same_config(*old(self), *self),
                keeps_tables(*old(self), *self),
                keeps_players(*old(self), *self),
                keeps_header(*old(self), *self),
                keeps_descriptors(*old(self), *self),
                keeps_counts(*old(self), *self),
                keeps_entities(*old(self), *self),
                keeps_cls_bits(*old(self), *self),
                t <= tables@.len(),
                fv == fields_view(tables@),
                pb_fields(data@) == Some(fv),
                m0 == baseline_entries(old(self).baselines),
                self.wf(),
                self.reader == old(self).reader,
                self.tick == old(self).tick,
                self.string_tables@ == old(self).string_tables@,
                self.stringtable_players == old(self).stringtable_players,
                self.header@ == old(self).header@,
                self.game_events_counter@ == old(self).game_events_counter@,
                tables_fold(m0, fv.subrange(0, t as int)) == Some(baseline_entries(self.baselines)),
            decreases tables@.len() - t,
        {
            proof {
                assert(fv.subrange(0, t + 1).drop_last() =~= fv.subrange(0, t as int));
                assert(fv.subrange(0, t + 1).last() == tables@[t as int]@);
            }
            if tables[t].number == 1 && tables[t].wire == 2 {
                let table = match parse_message(&tables[t].bytes) {
                    Ok(x) => x,
                    Err(e) => {
                        proof {
                            assert(tables_fold(m0, fv.subrange(0, t + 1)) is None);
                            lemma_tables_fold_prefix_none(m0, fv, t + 1);
                        }
                        return Err(e);
                    },
                };
                let name = lossy_string(&get_bytes(&table, 1));
                if is_named(&name, "instancebaseline") {
                    match self.load_baseline_items(&table) {
                        Ok(()) => {},
                        Err(e) => {
                            proof {
                                assert(tables_fold(m0, fv.subrange(0, t + 1)) is None);
                                lemma_tables_fold_prefix_none(m0, fv, t + 1);
                            }
                            return Err(e);
                        },
                    }
                }
            }
            t = t + 1;
        }
        proof {
            assert(fv.subrange(0, fv.len() as int) =~= fv);
        }
        Ok(())
    }

    /// Starts a packet of entity updates from its header (is-delta flag 3, delta-from tick
    /// 6): a delta from a tick whose state is not the one held is taken as full state, and
    /// the table is cleared first.
    pub fn parse_packet_ents_header(&mut self, bytes: &Vec<u8>) -> (r: Result<(), DemoParserError>)
        requires
            old(self).wf(),
        ensures
            same_config(*old(self), *final(self)),
            r is Ok <==> pb_fields(bytes@) is Some,
            r is Ok ==> ents_header_applied(*old(self), *final(self), bytes@),
            keeps_tables(*old(self), *final(self)),
            keeps_baselines(*old(self), *final(self)),
            keeps_players(*old(self), *final(self)),
            keeps_header(*old(self), *final(self)),
            keeps_descriptors(*old(self), *final(self)),
            keeps_counts(*old(self), *final(self)),
            keeps_cls_bits(*old(self), *final(self)),
            final(self).wf(),
            final(self).reader == old(self).reader,
            final(self).tick == old(self).tick,
            final(self).string_tables@ == old(self).string_tables@,
            final(self).stringtable_players == old(self).stringtable_players,
            final(self).baselines == old(self).baselines,
            match pb_fields(bytes@) {
                None => r == Err::<(), DemoParserError>(DemoParserError::MalformedMessage)
                    && final(self).entities == old(self).entities,
                Some(fs) => {
                    let is_delta = pb_int(fs, 3, 0) != 0;
                    let from = #[verifier::truncate] (pb_int(fs, 6, 0) as i32);
                    &&& r is Ok
                    &&& final(self).entities.state_tick == Some(old(self).tick)
                    &&& !(is_delta && old(self).entities.state_tick == Some(from))
                        ==> final(self).entities.is_empty()
                    &&& is_delta && old(self).entities.state_tick == Some(from)
                        ==> final(self).entities.slots@ == old(self).entities.slots@
                },
            },
    {
        let fs = parse_message(bytes)?;
        let is_delta = get_int(&fs, 3, 0) != 0;
        let from = #[verifier::truncate] (get_int(&fs, 6, 0) as i32);
        self.entities.begin_packet(is_delta, from, self.tick);
        Ok(())
    }

    /// Reads the class count of a server-info message (field 11) and derives the width of
    /// class ids.
    pub fn parse_server_info(&mut self, bytes: &Vec<u8>) -> (r: Result<(), DemoParserError>)
        requires
            old(self).wf(),
        ensures
            same_config(*old(self), *final(self)),
            r is Ok <==> pb_fields(bytes@) is Some,
            r is Ok ==> server_info_applied(*old(self), *final(self), bytes@),
            keeps_tables(*old(self), *final(self)),
            keeps_baselines(*old(self), *final(self)),
            keeps_players(*old(self), *final(self)),
            keeps_header(*old(self), *final(self)),
            keeps_descriptors(*old(self), *final(self)),
            keeps_counts(*old(self), *final(self)),
            keeps_entities(*old(self), *final(self)),
            final(self).wf(),
            final(self).reader == old(self).reader,
            final(self).tick == old(self).tick,
            final(self).string_tables@ == old(self).string_tables@,
            final(self).stringtable_players == old(self).stringtable_players,
            final(self).baselines == old(self).baselines,
            final(self).header@ == old(self).header@,
            final(self).game_events_counter@ == old(self).game_events_counter@,
            final(self).ge_list == old(self).ge_list,
            final(self).entities == old(self).entities,
            match pb_fields(bytes@) {
                None => r == Err::<(), DemoParserError>(DemoParserError::MalformedMessage),
                Some(fs) => r is Ok && final(self).cls_bits == Some(
                    class_bits_for(pb_int(fs, 11, 0) as i32 as int),
                ),
            },
    {
        let fs = parse_message(bytes)?;
        let max_classes = #[verifier::truncate] (get_int(&fs, 11, 0) as i32);
        self.cls_bits = Some(class_id_bits(max_classes));
        Ok(())
    }
}

} // verus!
