use vstd::prelude::*;
use crate::effects::header_applied;
use crate::bitreader::{varint_len, varint_value, byte_from, lemma_varint_len_bounds};
use crate::error::DemoParserError;
use crate::outside::{decompress, snappy_raw_decoded, lossy_string, all_ascii, ascii_chars, utf8_lossy_of};
use crate::parser::{Parser, same_content, same_config, keeps_tables, keeps_baselines, keeps_players, keeps_descriptors, keeps_counts, keeps_entities, keeps_cls_bits};
use crate::proto::{le_value, read_le, parse_message, get_int, get_bytes, pb_fields, pb_bytes, pb_int};

verus! {

/// The kinds of outer command.
#[allow(non_camel_case_types)]
#[derive(Debug, Clone, Copy, PartialEq, Eq, Structural)]
pub enum EDemoCommands {
    DEM_Error,
    DEM_Stop,
    DEM_FileHeader,
    DEM_FileInfo,
    DEM_SyncTick,
    DEM_SendTables,
    DEM_ClassInfo,
    DEM_StringTables,
    DEM_Packet,
    DEM_SignonPacket,
    DEM_ConsoleCmd,
    DEM_CustomData,
    DEM_CustomDataCallbacks,
    DEM_UserCmd,
    DEM_FullPacket,
    DEM_SaveGame,
    DEM_SpawnGroups,
    DEM_Max,
    DEM_IsCompressed,
}

/// The command kind that a code stands for.
pub open spec fn demo_cmd_of(v: int) -> Option<EDemoCommands> {
    if v == -1 {
        Some(EDemoCommands::DEM_Error)
    } else if v == 0 {
        Some(EDemoCommands::DEM_Stop)
    } else if v == 1 {
        Some(EDemoCommands::DEM_FileHeader)
    } else if v == 2 {
        Some(EDemoCommands::DEM_FileInfo)
    } else if v == 3 {
        Some(EDemoCommands::DEM_SyncTick)
    } else if v == 4 {
        Some(EDemoCommands::DEM_SendTables)
    } else if v == 5 {
        Some(EDemoCommands::DEM_ClassInfo)
    } else if v == 6 {
        Some(EDemoCommands::DEM_StringTables)
    } else if v == 7 {
        Some(EDemoCommands::DEM_Packet)
    } else if v == 8 {
        Some(EDemoCommands::DEM_SignonPacket)
    } else if v == 9 {
        Some(EDemoCommands::DEM_ConsoleCmd)
    } else if v == 10 {
        Some(EDemoCommands::DEM_CustomData)
    } else if v == 11 {
        Some(EDemoCommands::DEM_CustomDataCallbacks)
    } else if v == 12 {
        Some(EDemoCommands::DEM_UserCmd)
    } else if v == 13 {
        Some(EDemoCommands::DEM_FullPacket)
    } else if v == 14 {
        Some(EDemoCommands::DEM_SaveGame)
    } else if v == 15 {
        Some(EDemoCommands::DEM_SpawnGroups)
    } else if v == 16 {
        Some(EDemoCommands::DEM_Max)
    } else if v == 64 {
        Some(EDemoCommands::DEM_IsCompressed)
    } else {
        None
    }
}

/// The command kind of a code, where it has one.
pub fn demo_cmd_type_from_int(value: i32) -> (r: Option<EDemoCommands>)
    ensures
        r == demo_cmd_of(value as int),
{
    match value {
        -1 => Some(EDemoCommands::DEM_Error),
        0 => Some(EDemoCommands::DEM_Stop),
        1 => Some(EDemoCommands::DEM_FileHeader),
        2 => Some(EDemoCommands::DEM_FileInfo),
        3 => Some(EDemoCommands::DEM_SyncTick),
        4 => Some(EDemoCommands::DEM_SendTables),
        5 => Some(EDemoCommands::DEM_ClassInfo),
        6 => Some(EDemoCommands::DEM_StringTables),
        7 => Some(EDemoCommands::DEM_Packet),
        8 => Some(EDemoCommands::DEM_SignonPacket),
        9 => Some(EDemoCommands::DEM_ConsoleCmd),
        10 => Some(EDemoCommands::DEM_CustomData),
        11 => Some(EDemoCommands::DEM_CustomDataCallbacks),
        12 => Some(EDemoCommands::DEM_UserCmd),
        13 => Some(EDemoCommands::DEM_FullPacket),
        14 => Some(EDemoCommands::DEM_SaveGame),
        15 => Some(EDemoCommands::DEM_SpawnGroups),
        16 => Some(EDemoCommands::DEM_Max),
        64 => Some(EDemoCommands::DEM_IsCompressed),
        _ => None,
    }
}

/// The Source 2 magic.
pub open spec fn source2_magic() -> Seq<u8> {
    seq![80u8, 66, 68, 69, 77, 83, 50, 0]
}

/// The Source 1 magic.
pub open spec fn source1_magic() -> Seq<u8> {
    seq![72u8, 76, 50, 68, 69, 77, 79, 0]
}

/// What the first sixteen bytes of a demo say of it: the magic, then the length that the
/// file should have, less 18; a file of another length does not end where it should.
pub open spec fn header_check(b: Seq<u8>) -> Result<(), DemoParserError> {
    if b.len() >= 8 && b.subrange(0, 8) == source1_magic() {
        Err(DemoParserError::Source1DemoError)
    } else if b.len() < 8 {
        Err(DemoParserError::UnexpectedEof)
    } else if b.subrange(0, 8) != source2_magic() {
        Err(DemoParserError::UnknownFile)
    } else if b.len() < 16 {
        Err(DemoParserError::UnexpectedEof)
    } else if b.len() != le_value(b, 8, 4) + 18 {
        Err(
            DemoParserError::DemoEndsEarly {
                expected: (le_value(b, 8, 4) + 18) as u64,
                actual: b.len() as u64,
            },
        )
    } else {
        Ok(())
    }
}

fn starts_with(b: &Vec<u8>, magic: &Vec<u8>) -> (r: bool)
    ensures
        r == (b@.len() >= magic@.len() && b@.subrange(0, magic@.len() as int) == magic@),
{
    if b.len() < magic.len() {
        return false;
    }
    let mut i: usize = 0;
    while i < magic.len()
        invariant
            i <= magic@.len() <= b@.len(),
            b@.subrange(0, i as int) == magic@.subrange(0, i as int),
        decreases magic@.len() - i,
    {
        if b[i] != magic[i] {
            proof {
                assert(b@.subrange(0, magic@.len() as int)[i as int] != magic@[i as int]);
            }
            return false;
        }
        i = i + 1;
        proof {
            assert(b@.subrange(0, i as int) =~= magic@.subrange(0, i as int));
        }
    }
    proof {
        assert(magic@.subrange(0, magic@.len() as int) =~= magic@);
    }
    true
}

/// Checks the magic and the announced length of a demo.
pub fn handle_short_header(bytes: &Vec<u8>) -> (r: Result<(), DemoParserError>)
    ensures
        r == header_check(bytes@),
{
    let s1: Vec<u8> = vec![72u8, 76, 50, 68, 69, 77, 79, 0];
    let s2: Vec<u8> = vec![80u8, 66, 68, 69, 77, 83, 50, 0];
    proof {
        assert(s1@ =~= source1_magic());
        assert(s2@ =~= source2_magic());
    }
    if starts_with(bytes, &s1) {
        return Err(DemoParserError::Source1DemoError);
    }
    if bytes.len() < 8 {
        return Err(DemoParserError::UnexpectedEof);
    }
    if !starts_with(bytes, &s2) {
        return Err(DemoParserError::UnknownFile);
    }
    if bytes.len() < 16 {
        return Err(DemoParserError::UnexpectedEof);
    }
    proof {
        vstd::arithmetic::power2::lemma2_to64();
    }
    let expected = read_le(bytes, 8, 4) + 18;
    if (bytes.len() as u64) != expected {
        return Err(DemoParserError::DemoEndsEarly { expected, actual: bytes.len() as u64 });
    }
    Ok(())
}

/// The decimal digits of a natural number.
pub open spec fn nat_digits(n: nat) -> Seq<u8>
    decreases n,
{
    if n < 10 {
        seq![(48 + n) as u8]
    } else {
        nat_digits(n / 10).push((48 + n % 10) as u8)
    }
}

/// An integer written in decimal, with a leading `-` when negative.
pub open spec fn int_text(v: int) -> Seq<u8> {
    if v < 0 {
        seq![45u8] + nat_digits((-v) as nat)
    } else {
        nat_digits(v as nat)
    }
}

proof fn lemma_digits_ascii(n: nat)
    ensures
        all_ascii(nat_digits(n)),
    decreases n,
{
    if n >= 10 {
        lemma_digits_ascii(n / 10);
        let s = nat_digits(n / 10);
        assert(all_ascii(s.push((48 + n % 10) as u8))) by {
            assert forall|i: int| 0 <= i < s.len() + 1 implies #[trigger] s.push(
                (48 + n % 10) as u8,
            )[i] < 128 by {
                if i < s.len() {
                    assert(s[i] < 128);
                }
            }
        }
    }
}

/// Writes an integer in decimal.
pub fn int_to_text(v: i64) -> (r: String)
    ensures
        r@ == ascii_chars(int_text(v as int)),
{
    let neg = v < 0;
    let n0: u64 = if neg {
        (-(v as i128)) as u64
    } else {
        v as u64
    };
    let mut m: u64 = n0;
    let mut suffix: Vec<u8> = Vec::new();
    while m >= 10
        invariant
            nat_digits(n0 as nat) == nat_digits(m as nat) + suffix@,
        decreases m,
    {
        let ghost before = suffix@;
        suffix.insert(0, (48 + m % 10) as u8);
        proof {
            assert(suffix@ =~= seq![(48 + m % 10) as u8] + before);
            assert(nat_digits(m as nat) == nat_digits((m / 10) as nat).push((48 + m % 10) as u8));
            assert(nat_digits((m / 10) as nat).push((48 + m % 10) as u8) + before
                =~= nat_digits((m / 10) as nat) + suffix@);
        }
        m = m / 10;
    }
    let ghost before = suffix@;
    suffix.insert(0, (48 + m) as u8);
    proof {
        assert(suffix@ =~= nat_digits(m as nat) + before);
    }
    if neg {
        let ghost digits = suffix@;
        suffix.insert(0, 45u8);
        proof {
            assert(suffix@ =~= seq![45u8] + digits);
        }
    }
    proof {
        lemma_digits_ascii(n0 as nat);
        assert(suffix@ == int_text(v as int));
        assert(all_ascii(suffix@)) by {
            if neg {
                assert forall|i: int| 0 <= i < suffix@.len() implies #[trigger] suffix@[i] < 128 by {
                    if i > 0 {
                        assert(suffix@[i] == nat_digits(n0 as nat)[i - 1]);
                    }
                }
            }
        }
    }
    lossy_string(&suffix)
}

/// The value last set for a header field.
pub open spec fn header_get(h: Seq<(String, String)>, k: Seq<char>) -> Option<Seq<char>>
    decreases h.len(),
{
    if h.len() == 0 {
        None
    } else if h.last().0@ == k {
        Some(h.last().1@)
    } else {
        header_get(h.drop_last(), k)
    }
}

/// The header fields that a file-header message sets, in order.
pub open spec fn header_fields_of(fs: Seq<(u64, u8, u64, Seq<u8>)>) -> Seq<(Seq<char>, Seq<char>)> {
    seq![
        ("demo_file_stamp"@, header_field_text(fs, 1)),
        ("network_protocol"@, header_field_text(fs, 2)),
        ("server_name"@, header_field_text(fs, 3)),
        ("client_name"@, header_field_text(fs, 4)),
        ("map_name"@, header_field_text(fs, 5)),
        ("game_directory"@, header_field_text(fs, 6)),
        ("fullpackets_version"@, header_field_text(fs, 7)),
        ("allow_clientside_entities"@, header_field_text(fs, 8)),
        ("allow_clientside_particles"@, header_field_text(fs, 9)),
        ("addons"@, header_field_text(fs, 10)),
        ("demo_version_name"@, header_field_text(fs, 11)),
        ("demo_version_guid"@, header_field_text(fs, 12)),
    ]
}

pub open spec fn header_view(h: Seq<(String, String)>) -> Seq<(Seq<char>, Seq<char>)> {
    h.map_values(|p: (String, String)| (p.0@, p.1@))
}

/// The text of a flag.
pub open spec fn bool_text(b: bool) -> Seq<char> {
    if b {
        "true"@
    } else {
        "false"@
    }
}

/// Writes a flag as `true` or `false`.
pub fn bool_to_text(b: bool) -> (r: String)
    ensures
        r@ == bool_text(b),
{
    proof {
        broadcast use vstd::string::to_string_from_display_ensures_for_str;
    }
    if b {
        "true".to_string()
    } else {
        "false".to_string()
    }
}

/// What a file-header message says: its text fields as they are, its numbers in decimal
/// and its flags as `true` or `false`.
pub open spec fn header_field_text(fs: Seq<(u64, u8, u64, Seq<u8>)>, num: u64) -> Seq<char> {
    if num == 2 || num == 7 {
        ascii_chars(int_text(pb_int(fs, num, 0) as i32 as int))
    } else if num == 8 || num == 9 {
        bool_text(pb_int(fs, num, 0) != 0)
    } else {
        utf8_lossy_of(pb_bytes(fs, num))
    }
}

proof fn lemma_varint_value_fits(d: Seq<u8>, p: int)
    ensures
        varint_value(d, p) < 0x1_0000_0000,
{
    vstd::arithmetic::power2::lemma2_to64();
}

/// One outer frame: its kind, tick and (decompressed) payload.
pub struct DemoFrame {
    pub cmd: u32,
    pub tick: i32,
    pub payload: Vec<u8>,
}

/// The frame that starts at bit `p`: command code, tick and size, each a varint, then the
/// payload bytes.
pub open spec fn frame_cmd_at(d: Seq<u8>, p: int) -> nat {
    varint_value(d, p)
}

pub open spec fn frame_tick_pos(d: Seq<u8>, p: int) -> int {
    p + 8 * varint_len(d, p)
}

pub open spec fn frame_size_pos(d: Seq<u8>, p: int) -> int {
    frame_tick_pos(d, p) + 8 * varint_len(d, frame_tick_pos(d, p))
}

pub open spec fn frame_payload_pos(d: Seq<u8>, p: int) -> int {
    frame_size_pos(d, p) + 8 * varint_len(d, frame_size_pos(d, p))
}

pub open spec fn frame_raw_payload(d: Seq<u8>, p: int) -> Seq<u8> {
    Seq::new(
        varint_value(d, frame_size_pos(d, p)),
        |i: int| byte_from(d, frame_payload_pos(d, p), i) as u8,
    )
}

pub open spec fn frame_end(d: Seq<u8>, p: int) -> int {
    frame_payload_pos(d, p) + 8 * varint_value(d, frame_size_pos(d, p))
}

/// Whether the frame at bit `p` lies inside the data and, when flagged, decompresses.
pub open spec fn frame_ok(d: Seq<u8>, p: int) -> bool {
    &&& frame_end(d, p) <= d.len() * 8
    &&& (#[verifier::truncate] (frame_cmd_at(d, p) as u32)) & 64u32 == 64u32 ==> snappy_raw_decoded(
        frame_raw_payload(d, p),
    ) is Some
}

/// The payload of the frame at bit `p`, decompressed when flagged.
pub open spec fn frame_payload(d: Seq<u8>, p: int) -> Seq<u8> {
    if (#[verifier::truncate] (frame_cmd_at(d, p) as u32)) & 64u32 == 64u32 {
        snappy_raw_decoded(frame_raw_payload(d, p))->Some_0
    } else {
        frame_raw_payload(d, p)
    }
}

/// The kind of the frame at bit `p`: its command code without the compression flag.
pub open spec fn frame_kind(d: Seq<u8>, p: int) -> u32 {
    (#[verifier::truncate] (frame_cmd_at(d, p) as u32)) & !64u32
}

impl Parser {
    #[verifier::rlimit(50)]
    /// Reads the next outer frame. The top bit (64) of the command code marks a Snappy
    /// payload; the kind is the code without it.
    pub fn read_frame(&mut self) -> (r: Result<DemoFrame, DemoParserError>)
        requires
            old(self).wf(),
        ensures
            final(self).wf(),
            final(self).reader.data@ == old(self).reader.data@,
            final(self).string_tables@ == old(self).string_tables@,
            final(self).header@ == old(self).header@,
            final(self).stringtable_players == old(self).stringtable_players,
            final(self).baselines == old(self).baselines,
            ({
                let d = old(self).reader.data@;
                let p = old(self).reader.pos as int;
                let c = #[verifier::truncate] (frame_cmd_at(d, p) as u32);
                r is Ok ==> {
                    &&& frame_end(d, p) <= old(self).reader.total()
                    &&& final(self).reader.pos == frame_end(d, p)
                    &&& r->Ok_0.cmd == c & !64u32
                    &&& r->Ok_0.tick == varint_value(d, frame_tick_pos(d, p)) as u32 as i32
                    &&& final(self).tick == r->Ok_0.tick
                    &&& c & 64u32 == 64u32 ==> snappy_raw_decoded(frame_raw_payload(d, p))
                        == Some(r->Ok_0.payload@)
                    &&& c & 64u32 != 64u32 ==> r->Ok_0.payload@ == frame_raw_payload(d, p)
                }
            }),
            r is Ok ==> final(self).reader.pos > old(self).reader.pos,
            r is Ok <==> frame_ok(old(self).reader.data@, old(self).reader.pos as int),
            r is Err ==> r == Err::<DemoFrame, DemoParserError>(DemoParserError::UnexpectedEof)
                || r == Err::<DemoFrame, DemoParserError>(DemoParserError::DecompressionFailed),
            frame_end(old(self).reader.data@, old(self).reader.pos as int)
                > old(self).reader.total() ==> r == Err::<DemoFrame, DemoParserError>(
                DemoParserError::UnexpectedEof,
            ),
            frame_end(old(self).reader.data@, old(self).reader.pos as int)
                <= old(self).reader.total() && !frame_ok(
                old(self).reader.data@,
                old(self).reader.pos as int,
            ) ==> r == Err::<DemoFrame, DemoParserError>(DemoParserError::DecompressionFailed),
            same_content(*old(self), *final(self)),
    {
        let ghost d = self.reader.data@;
        let ghost p = self.reader.pos as int;
        proof {
            vstd::arithmetic::power2::lemma2_to64();
            lemma_varint_value_fits(d, p);
            lemma_varint_value_fits(d, frame_tick_pos(d, p));
            lemma_varint_value_fits(d, frame_size_pos(d, p));
            lemma_varint_len_bounds(d, p, 0);
        }
        let cmd = self.reader.read_varint()?;
        assert(self.reader.pos == frame_tick_pos(d, p));
        let tick = self.reader.read_varint()?;
        assert(self.reader.pos == frame_size_pos(d, p));
        let size = self.reader.read_varint()?;
        assert(self.reader.pos == frame_payload_pos(d, p));
        assert(size as nat == varint_value(d, frame_size_pos(d, p)));
        let raw = self.reader.read_n_bytes(size as usize)?;
        proof {
            let fr = frame_raw_payload(d, p);
            assert(raw@.len() == fr.len());
            assert forall|i: int| 0 <= i < raw@.len() implies raw@[i] == fr[i] by {
                assert(raw@[i] == byte_from(d, frame_payload_pos(d, p), i));
            }
            assert(raw@ =~= fr);
        }
        let payload = if cmd & 64 == 64 {
            decompress(&raw)?
        } else {
            raw
        };
        self.tick = tick as i32;
        Ok(DemoFrame { cmd: cmd & !64u32, tick: tick as i32, payload })
    }

    /// Sets a header field.
    pub fn set_header(&mut self, key: &str, value: String)
        requires
            old(self).wf(),
        ensures
            same_config(*old(self), *final(self)),
            keeps_tables(*old(self), *final(self)),
            keeps_baselines(*old(self), *final(self)),
            keeps_players(*old(self), *final(self)),
            keeps_descriptors(*old(self), *final(self)),
            keeps_counts(*old(self), *final(self)),
            keeps_entities(*old(self), *final(self)),
            keeps_cls_bits(*old(self), *final(self)),
            final(self).wf(),
            final(self).reader == old(self).reader,
            final(self).string_tables@ == old(self).string_tables@,
            final(self).stringtable_players == old(self).stringtable_players,
            final(self).baselines == old(self).baselines,
            final(self).tick == old(self).tick,
            header_view(final(self).header@) == header_view(old(self).header@).push(
                (key@, value@),
            ),
    {
        proof {
            broadcast use vstd::string::to_string_from_display_ensures_for_str;
        }
        let ghost before = self.header@;
        self.header.push((key.to_string(), value));
        proof {
            assert(header_view(self.header@) =~= header_view(before).push((key@, value@)));
        }
    }

    #[verifier::rlimit(100)]
    /// Reads a file-header message into the header fields.
    pub fn parse_header(&mut self, bytes: &Vec<u8>) -> (r: Result<(), DemoParserError>)
        requires
            old(self).wf(),
        ensures
            same_config(*old(self), *final(self)),
            r is Ok <==> pb_fields(bytes@) is Some,
            r is Ok ==> header_applied(*old(self), *final(self), bytes@),
            keeps_tables(*old(self), *final(self)),
            keeps_baselines(*old(self), *final(self)),
            keeps_players(*old(self), *final(self)),
            keeps_descriptors(*old(self), *final(self)),
            keeps_counts(*old(self), *final(self)),
            keeps_entities(*old(self), *final(self)),
            keeps_cls_bits(*old(self), *final(self)),
            final(self).wf(),
            final(self).reader == old(self).reader,
            final(self).string_tables@ == old(self).string_tables@,
            final(self).stringtable_players == old(self).stringtable_players,
            final(self).baselines == old(self).baselines,
            final(self).tick == old(self).tick,
            match pb_fields(bytes@) {
                None => r == Err::<(), DemoParserError>(DemoParserError::MalformedMessage),
                Some(fs) => r is Ok && header_view(final(self).header@) == header_view(
                    old(self).header@,
                ) + header_fields_of(fs),
            },
    {
        proof {
            reveal_strlit("demo_file_stamp");
            reveal_strlit("network_protocol");
            reveal_strlit("server_name");
            reveal_strlit("client_name");
            reveal_strlit("map_name");
            reveal_strlit("game_directory");
            reveal_strlit("fullpackets_version");
            reveal_strlit("allow_clientside_entities");
            reveal_strlit("allow_clientside_particles");
            reveal_strlit("addons");
            reveal_strlit("demo_version_name");
            reveal_strlit("demo_version_guid");
        }
        let fs = parse_message(bytes)?;
        let ghost fv = crate::proto::fields_view(fs@);
        let ghost h0 = header_view(self.header@);
        self.set_header("demo_file_stamp", lossy_string(&get_bytes(&fs, 1)));
        self.set_header("network_protocol", int_to_text(#[verifier::truncate] (get_int(&fs, 2, 0) as i32) as i64));
        self.set_header("server_name", lossy_string(&get_bytes(&fs, 3)));
        self.set_header("client_name", lossy_string(&get_bytes(&fs, 4)));
        self.set_header("map_name", lossy_string(&get_bytes(&fs, 5)));
        self.set_header("game_directory", lossy_string(&get_bytes(&fs, 6)));
        self.set_header("fullpackets_version", int_to_text(#[verifier::truncate] (get_int(&fs, 7, 0) as i32) as i64));
        self.set_header("allow_clientside_entities", bool_to_text(get_int(&fs, 8, 0) != 0));
        self.set_header("allow_clientside_particles", bool_to_text(get_int(&fs, 9, 0) != 0));
        self.set_header("addons", lossy_string(&get_bytes(&fs, 10)));
        self.set_header("demo_version_name", lossy_string(&get_bytes(&fs, 11)));
        self.set_header("demo_version_guid", lossy_string(&get_bytes(&fs, 12)));
        proof {
            assert(header_view(self.header@) =~= h0 + header_fields_of(fv));
        }
        Ok(())
    }
}

} // verus!
