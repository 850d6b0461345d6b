use demoparser::bitreader::BitReader;
use demoparser::demo::class_id_bits;
use demoparser::entities::{entity_cmd_from_bits, EntityCmd, EntityTable};
use demoparser::error::DemoParserError;
use demoparser::frame::{bool_to_text, demo_cmd_type_from_int, handle_short_header, int_to_text, EDemoCommands};
use demoparser::friendly::{og_name_of, rm_user_friendly_names};
use demoparser::outside::decompress;
use demoparser::parser::{Parser, ParserInputs};
use demoparser::proto::{get_bytes, get_int, parse_message};
use demoparser::steamworks::EProtoExecutionSite;
use demoparser::stringtables::{
    key_from_history, parse_u32_decimal, parse_userinfo, remember_key, UserInfo,
};
use demoparser::variants::{aos_to_soa, eventdata_type_from_variant, filter_to_vec, soa_to_aos, PropColumn, VarVec, Variant};

/// Writes bits least significant first, as the reader reads them.
struct BitWriter {
    bytes: Vec<u8>,
    nbits: usize,
}

impl BitWriter {
    fn new() -> Self {
        BitWriter { bytes: vec![], nbits: 0 }
    }
    fn bit(&mut self, b: bool) {
        if self.nbits % 8 == 0 {
            self.bytes.push(0);
        }
        if b {
            let last = self.bytes.len() - 1;
            self.bytes[last] |= 1 << (self.nbits % 8);
        }
        self.nbits += 1;
    }
    fn bits(&mut self, v: u64, n: u32) {
        for i in 0..n {
            self.bit((v >> i) & 1 == 1);
        }
    }
    fn byte(&mut self, b: u8) {
        self.bits(b as u64, 8);
    }
    fn varint(&mut self, v: u64) {
        for b in varint(v) {
            self.byte(b);
        }
    }
    fn ubitvar(&mut self, v: u32) {
        if v < 16 {
            self.bits(v as u64, 6);
        } else if v < 256 {
            self.bits((16 | (v & 15)) as u64, 6);
            self.bits((v >> 4) as u64, 4);
        } else if v < 4096 {
            self.bits((32 | (v & 15)) as u64, 6);
            self.bits((v >> 4) as u64, 8);
        } else {
            self.bits((48 | (v & 15)) as u64, 6);
            self.bits((v >> 4) as u64, 28);
        }
    }
    fn cstr(&mut self, s: &str) {
        for b in s.bytes() {
            self.byte(b);
        }
        self.byte(0);
    }
}

fn varint(mut v: u64) -> Vec<u8> {
    let mut out = vec![];
    loop {
        let b = (v & 127) as u8;
        v >>= 7;
        if v == 0 {
            out.push(b);
            return out;
        }
        out.push(b | 128);
    }
}

fn field_varint(num: u64, v: u64) -> Vec<u8> {
    let mut out = varint(num << 3);
    out.extend(varint(v));
    out
}

fn field_bytes(num: u64, b: &[u8]) -> Vec<u8> {
    let mut out = varint((num << 3) | 2);
    out.extend(varint(b.len() as u64));
    out.extend_from_slice(b);
    out
}

fn field_fixed64(num: u64, v: u64) -> Vec<u8> {
    let mut out = varint((num << 3) | 1);
    out.extend_from_slice(&v.to_le_bytes());
    out
}

fn frame(cmd: u64, tick: u64, payload: &[u8]) -> Vec<u8> {
    let mut out = varint(cmd);
    out.extend(varint(tick));
    out.extend(varint(payload.len() as u64));
    out.extend_from_slice(payload);
    out
}

fn demo(frames: &[Vec<u8>]) -> Vec<u8> {
    let mut body = vec![];
    for f in frames {
        body.extend_from_slice(f);
    }
    let total = 16 + body.len();
    let mut out = b"PBDEMS2\0".to_vec();
    out.extend_from_slice(&((total - 18) as u32).to_le_bytes());
    out.extend_from_slice(&[0, 0, 0, 0]);
    out.extend(body);
    out
}

fn header_value(p: &Parser, key: &str) -> Option<String> {
    p.header.iter().rev().find(|(k, _)| k == key).map(|(_, v)| v.clone())
}

#[test]
fn read_nbits_least_significant_first() {
    let mut r = BitReader::new(vec![0b1010_1100, 0xff]);
    assert_eq!(r.read_nbits(3), Ok(0b100));
    assert_eq!(r.read_nbits(5), Ok(0b10101));
    assert_eq!(r.read_nbits(8), Ok(255));
    assert_eq!(r.read_nbits(1), Err(DemoParserError::UnexpectedEof));
}

#[test]
fn read_varint_of_300() {
    let mut r = BitReader::new(vec![0xac, 0x02]);
    assert_eq!(r.read_varint(), Ok(300));
    assert_eq!(r.pos, 16);
}

#[test]
fn read_varint_past_end() {
    let mut r = BitReader::new(vec![0x80]);
    assert_eq!(r.read_varint(), Err(DemoParserError::UnexpectedEof));
}

#[test]
fn read_u_bit_var_widths() {
    let mut w = BitWriter::new();
    w.ubitvar(7);
    w.ubitvar(205);
    w.ubitvar(4000);
    w.ubitvar(100000);
    let mut r = BitReader::new(w.bytes);
    assert_eq!(r.read_u_bit_var(), Ok(7));
    assert_eq!(r.read_u_bit_var(), Ok(205));
    assert_eq!(r.read_u_bit_var(), Ok(4000));
    assert_eq!(r.read_u_bit_var(), Ok(100000));
}

#[test]
fn read_string_stops_at_zero() {
    let mut r = BitReader::new(b"abc\0de".to_vec());
    assert_eq!(r.read_string(), Ok(b"abc".to_vec()));
    assert_eq!(r.read_string(), Err(DemoParserError::UnexpectedEof));
}

#[test]
fn read_n_bytes_unaligned() {
    let mut w = BitWriter::new();
    w.bit(true);
    w.byte(0x12);
    w.byte(0x34);
    let mut r = BitReader::new(w.bytes);
    assert_eq!(r.read_boolean(), Ok(true));
    assert_eq!(r.read_n_bytes(2), Ok(vec![0x12, 0x34]));
    assert_eq!(r.read_n_bytes(1), Err(DemoParserError::UnexpectedEof));
}

#[test]
fn proto_fields_last_wins() {
    let mut msg = field_varint(2, 5);
    msg.extend(field_bytes(1, b"hi"));
    msg.extend(field_varint(2, 9));
    let fs = parse_message(&msg).unwrap();
    assert_eq!(fs.len(), 3);
    assert_eq!(get_int(&fs, 2, 0), 9);
    assert_eq!(get_bytes(&fs, 1), b"hi".to_vec());
    assert_eq!(get_int(&fs, 7, 0), 0);
}

#[test]
fn proto_truncated_is_malformed() {
    let msg = vec![10u8, 5, b'a'];
    assert!(matches!(parse_message(&msg), Err(DemoParserError::MalformedMessage)));
}

#[test]
fn userinfo_fields() {
    let mut msg = field_bytes(1, b"bob");
    msg.extend(field_fixed64(2, 76561198000000000));
    msg.extend(field_varint(3, 12));
    msg.extend(field_varint(6, 1));
    let u: UserInfo = parse_userinfo(&msg).unwrap();
    assert_eq!(u.name, "bob");
    assert_eq!(u.steamid, 76561198000000000);
    assert_eq!(u.userid, 12);
    assert!(u.is_hltv);
}

#[test]
fn userinfo_name_invalid_utf8_is_replaced() {
    let msg = field_bytes(1, &[0x66, 0xff]);
    let u = parse_userinfo(&msg).unwrap();
    assert_eq!(u.name, "f\u{fffd}");
}

#[test]
fn decimal_class_ids() {
    assert_eq!(parse_u32_decimal(&b"123".to_vec()), Some(123));
    assert_eq!(parse_u32_decimal(&b"+7".to_vec()), Some(7));
    assert_eq!(parse_u32_decimal(&b"-1".to_vec()), None);
    assert_eq!(parse_u32_decimal(&b"4294967295".to_vec()), Some(4294967295));
    assert_eq!(parse_u32_decimal(&b"4294967296".to_vec()), None);
    assert_eq!(parse_u32_decimal(&b"".to_vec()), None);
    assert_eq!(parse_u32_decimal(&b"12a".to_vec()), None);
}

#[test]
fn back_reference_key() {
    let history = vec![b"alpha".to_vec(), b"beta".to_vec()];
    let key = key_from_history(&history, 1, 3, &b"gam".to_vec());
    assert_eq!(key, b"betgam".to_vec());
}

#[test]
fn back_reference_past_history_reads_fresh_string() {
    let history = vec![b"alpha".to_vec(), b"beta".to_vec()];
    let key = key_from_history(&history, 2, 3, &b"fresh".to_vec());
    assert_eq!(key, b"fresh".to_vec());
}

#[test]
fn back_reference_longer_than_key_copies_all() {
    let history = vec![b"ab".to_vec()];
    let key = key_from_history(&history, 0, 9, &b"c".to_vec());
    assert_eq!(key, b"abc".to_vec());
}

#[test]
fn key_history_keeps_last_32() {
    let mut history: Vec<Vec<u8>> = vec![];
    for i in 0..40u8 {
        remember_key(&mut history, vec![i]);
    }
    assert_eq!(history.len(), 32);
    assert_eq!(history[0], vec![8]);
    assert_eq!(history[31], vec![39]);
}

fn baseline_table_bits() -> Vec<u8> {
    let mut w = BitWriter::new();
    // entry 0: plain key "7", value of 2 bytes
    w.bit(true);
    w.bit(true);
    w.bit(false);
    w.cstr("7");
    w.bit(true);
    w.bits(2, 17);
    w.byte(0xaa);
    w.byte(0xbb);
    // entry 2 (skip one): back-reference to "7" plus "5" -> "75", no value
    w.bit(false);
    w.varint(1);
    w.bit(true);
    w.bit(true);
    w.bits(0, 5);
    w.bits(1, 5);
    w.cstr("5");
    w.bit(false);
    w.bytes
}

#[test]
fn string_table_entries_and_baselines() {
    let mut p = Parser::new(ParserInputs::new(vec![]));
    p.parse_string_table(baseline_table_bits(), 2, "instancebaseline".to_string(), false, 0, 0, false)
        .unwrap();
    assert_eq!(p.string_tables.len(), 1);
    let t = &p.string_tables[0];
    assert_eq!(t.data.len(), 2);
    assert_eq!(t.data[0].idx, 0);
    assert_eq!(t.data[0].key, "7");
    assert_eq!(t.data[0].value, vec![0xaa, 0xbb]);
    assert_eq!(t.data[1].idx, 2);
    assert_eq!(t.data[1].key, "75");
    assert_eq!(p.baselines.get(&7), Some(&vec![0xaa, 0xbb]));
    assert_eq!(p.baselines.get(&75), Some(&vec![]));
}

#[test]
fn string_table_other_name_sets_no_baseline() {
    let mut p = Parser::new(ParserInputs::new(vec![]));
    p.parse_string_table(baseline_table_bits(), 2, "other".to_string(), false, 0, 0, false).unwrap();
    assert!(p.baselines.get(&7).is_none());
}

#[test]
fn string_table_truncated_is_eof() {
    let mut p = Parser::new(ParserInputs::new(vec![]));
    let r = p.parse_string_table(vec![0b11], 3, "x".to_string(), false, 0, 0, false);
    assert_eq!(r, Err(DemoParserError::UnexpectedEof));
    assert!(p.string_tables.is_empty());
}

#[test]
fn userinfo_table_records_players() {
    let mut info = field_bytes(1, b"amy");
    info.extend(field_fixed64(2, 42));
    let mut w = BitWriter::new();
    w.bit(true);
    w.bit(true);
    w.bit(false);
    w.cstr("0");
    w.bit(true);
    w.bits(info.len() as u64, 17);
    for b in &info {
        w.byte(*b);
    }
    let mut p = Parser::new(ParserInputs::new(vec![]));
    p.parse_string_table(w.bytes, 1, "userinfo".to_string(), false, 0, 0, false).unwrap();
    assert_eq!(p.stringtable_players.len(), 1);
    assert_eq!(p.stringtable_players.get(&42).unwrap().name, "amy");
    assert_eq!(p.stringtable_players.get(&42).unwrap().steamid, 42);
}

#[test]
fn update_of_unknown_table() {
    let mut p = Parser::new(ParserInputs::new(vec![]));
    let msg = field_varint(1, 3);
    assert_eq!(p.update_string_table(&msg), Err(DemoParserError::StringTableNotFound));
}

#[test]
fn update_replaces_entry_in_place() {
    let mut create = field_bytes(1, b"instancebaseline");
    create.extend(field_varint(2, 2));
    create.extend(field_bytes(7, &baseline_table_bits()));
    let mut p = Parser::new(ParserInputs::new(vec![]));
    p.parse_create_stringtable(&create).unwrap();
    let mut w = BitWriter::new();
    w.bit(true);
    w.bit(true);
    w.bit(false);
    w.cstr("7");
    w.bit(true);
    w.bits(1, 17);
    w.byte(0xcc);
    let mut update = field_varint(1, 0);
    update.extend(field_varint(2, 1));
    update.extend(field_bytes(3, &w.bytes));
    p.update_string_table(&update).unwrap();
    assert_eq!(p.string_tables.len(), 1);
    assert_eq!(p.string_tables[0].data.len(), 2);
    assert_eq!(p.string_tables[0].data[0].value, vec![0xcc]);
    assert_eq!(p.baselines.get(&7), Some(&vec![0xcc]));
}

#[test]
fn snappy_literal_block() {
    assert_eq!(decompress(&vec![3, 8, b'a', b'b', b'c']), Ok(b"abc".to_vec()));
    assert_eq!(decompress(&vec![]), Err(DemoParserError::DecompressionFailed));
}

#[test]
fn zero_length_input_is_eof() {
    assert_eq!(handle_short_header(&vec![]), Err(DemoParserError::UnexpectedEof));
    let mut p = Parser::new(ParserInputs::new(vec![]));
    assert_eq!(p.start(), Err(DemoParserError::UnexpectedEof));
}

#[test]
fn source1_magic_is_rejected() {
    assert_eq!(handle_short_header(&b"HL2DEMO\0".to_vec()), Err(DemoParserError::Source1DemoError));
    let mut p = Parser::new(ParserInputs::new(b"HL2DEMO\0".to_vec()));
    assert_eq!(p.start(), Err(DemoParserError::Source1DemoError));
}

#[test]
fn unknown_magic() {
    assert_eq!(handle_short_header(&b"ABCDEFGH".to_vec()), Err(DemoParserError::UnknownFile));
}

#[test]
fn demo_ends_early() {
    let mut b = b"PBDEMS2\0".to_vec();
    b.extend_from_slice(&100u32.to_le_bytes());
    b.extend_from_slice(&[0, 0, 0, 0]);
    assert_eq!(
        handle_short_header(&b),
        Err(DemoParserError::DemoEndsEarly { expected: 118, actual: 16 })
    );
}

#[test]
fn command_kinds() {
    assert_eq!(demo_cmd_type_from_int(0), Some(EDemoCommands::DEM_Stop));
    assert_eq!(demo_cmd_type_from_int(13), Some(EDemoCommands::DEM_FullPacket));
    assert_eq!(demo_cmd_type_from_int(-1), Some(EDemoCommands::DEM_Error));
    assert_eq!(demo_cmd_type_from_int(99), None);
}

#[test]
fn compressed_frame_payload() {
    let mut f = varint(1 | 64);
    f.extend(varint(5));
    let block = vec![3u8, 8, b'x', b'y', b'z'];
    f.extend(varint(block.len() as u64));
    f.extend(block);
    let mut p = Parser::new(ParserInputs::new(demo(&[f])));
    p.reader.pos = 16 * 8;
    let fr = p.read_frame().unwrap();
    assert_eq!(fr.cmd, 1);
    assert_eq!(fr.tick, 5);
    assert_eq!(fr.payload, b"xyz".to_vec());
    assert_eq!(p.tick, 5);
}

#[test]
fn header_only() {
    let mut h = field_bytes(5, b"de_mirage");
    h.extend(field_bytes(3, b"s"));
    h.extend(field_bytes(12, b"g"));
    h.extend(field_varint(2, 13992));
    h.extend(field_varint(8, 1));
    let bytes = demo(&[frame(1, 0, &h), frame(0, 0, &[])]);
    let mut p = Parser::new(ParserInputs::new(bytes));
    p.parse_header_only().unwrap();
    assert_eq!(header_value(&p, "map_name").as_deref(), Some("de_mirage"));
    assert_eq!(header_value(&p, "server_name").as_deref(), Some("s"));
    assert_eq!(header_value(&p, "demo_version_guid").as_deref(), Some("g"));
    assert_eq!(header_value(&p, "network_protocol").as_deref(), Some("13992"));
    assert_eq!(header_value(&p, "allow_clientside_entities").as_deref(), Some("true"));
    assert_eq!(header_value(&p, "allow_clientside_particles").as_deref(), Some("false"));
    assert_eq!(header_value(&p, "client_name").as_deref(), Some(""));
}

fn net_message(w: &mut BitWriter, kind: u32, msg: &[u8]) {
    w.ubitvar(kind);
    w.varint(msg.len() as u64);
    for b in msg {
        w.byte(*b);
    }
}

#[test]
fn event_counting() {
    let mut d1 = field_varint(1, 1);
    d1.extend(field_bytes(2, b"player_death"));
    let mut d2 = field_varint(1, 2);
    d2.extend(field_bytes(2, b"weapon_fire"));
    let mut list = field_bytes(1, &d1);
    list.extend(field_bytes(1, &d2));
    let mut w = BitWriter::new();
    net_message(&mut w, 205, &list);
    for _ in 0..7 {
        net_message(&mut w, 207, &field_varint(2, 1));
    }
    for _ in 0..3 {
        net_message(&mut w, 207, &field_varint(2, 2));
    }
    let packet = field_bytes(3, &w.bytes);
    let bytes = demo(&[frame(7, 1, &packet), frame(0, 2, &[])]);
    let mut p = Parser::new(ParserInputs::new(bytes));
    assert_eq!(p.start(), Ok(2));
    let mut counts = p.game_events_counter.clone();
    counts.sort();
    assert_eq!(
        counts,
        vec![("player_death".to_string(), 7), ("weapon_fire".to_string(), 3)]
    );
}

#[test]
fn unknown_command_is_skipped() {
    let bytes = demo(&[frame(40, 0, &[1, 2, 3]), frame(0, 0, &[])]);
    let mut p = Parser::new(ParserInputs::new(bytes));
    assert_eq!(p.start(), Ok(2));
}

#[test]
fn int_and_bool_text() {
    assert_eq!(int_to_text(-42), "-42");
    assert_eq!(int_to_text(0), "0");
    assert_eq!(int_to_text(1234567890123), "1234567890123");
    assert_eq!(bool_to_text(true), "true");
}

#[test]
fn column_counts_leading_nulls() {
    let mut c = PropColumn::new();
    c.push(None);
    c.push(None);
    c.push(Some(Variant::I32(5)));
    c.push(None);
    assert_eq!(c.len(), 4);
    assert_eq!(c.num_nones, 3);
    match &c.data {
        Some(VarVec::I32(v)) => assert_eq!(v, &vec![None, None, Some(5), None]),
        other => panic!("unexpected column {:?}", other),
    }
}

#[test]
fn column_all_nulls_has_no_kind() {
    let mut c = PropColumn::new();
    c.push(None);
    c.push(None);
    assert!(c.data.is_none());
    assert_eq!(c.len(), 2);
}

#[test]
fn soa_aos_round_trip() {
    let a = PropColumn::from_values(&vec![Some(Variant::I32(100)), Some(Variant::I32(200))]);
    let b = PropColumn::from_values(&vec![Some(Variant::String("x".to_string())), None]);
    let rows = soa_to_aos(&vec![a, b], 2);
    assert_eq!(rows.len(), 2);
    assert!(matches!(rows[1][0], Some(Variant::I32(200))));
    assert!(rows[1][1].is_none());
    let cols = aos_to_soa(&rows, 2);
    match &cols[0].data {
        Some(VarVec::I32(v)) => assert_eq!(v, &vec![Some(100), Some(200)]),
        other => panic!("unexpected column {:?}", other),
    }
    match &cols[1].data {
        Some(VarVec::String(v)) => assert_eq!(v, &vec![Some("x".to_string()), None]),
        other => panic!("unexpected column {:?}", other),
    }
}

#[test]
fn event_type_codes() {
    assert_eq!(eventdata_type_from_variant(&Some(Variant::String("a".to_string()))), 1);
    assert_eq!(eventdata_type_from_variant(&Some(Variant::F32(0))), 2);
    assert_eq!(eventdata_type_from_variant(&Some(Variant::U32(1))), 7);
    assert_eq!(eventdata_type_from_variant(&Some(Variant::I32(1))), 4);
    assert_eq!(eventdata_type_from_variant(&Some(Variant::Bool(true))), 6);
    assert_eq!(eventdata_type_from_variant(&None), 99);
}

#[test]
fn filter_keeps_fitting_values() {
    assert_eq!(filter_to_vec(&vec![1, 1 << 40, -5]), vec![1, -5]);
}

#[test]
fn friendly_name_alias() {
    let real = rm_user_friendly_names(&vec!["health".to_string(), "X".to_string()]).unwrap();
    assert_eq!(real, vec!["CCSPlayerPawn.m_iHealth".to_string(), "X".to_string()]);
    assert_eq!(og_name_of(&real[0]), Some("health".to_string()));
}

#[test]
fn friendly_name_unknown() {
    let r = rm_user_friendly_names(&vec!["armor".to_string(), "nope".to_string()]);
    assert_eq!(r, Err(DemoParserError::UnknownPropName("nope".to_string())));
}

#[test]
fn execution_site_enum() {
    assert_eq!(EProtoExecutionSite::from_i32(3), Some(EProtoExecutionSite::k_EProtoExecutionSiteSteamClient));
    assert_eq!(EProtoExecutionSite::from_i32(1), None);
    assert_eq!(EProtoExecutionSite::k_EProtoExecutionSiteSteamClient.value(), 3);
    assert_eq!(
        EProtoExecutionSite::from_str("k_EProtoExecutionSiteUnknown"),
        Some(EProtoExecutionSite::k_EProtoExecutionSiteUnknown)
    );
    assert_eq!(EProtoExecutionSite::default(), EProtoExecutionSite::k_EProtoExecutionSiteUnknown);
}

#[test]
fn create_needs_baseline() {
    let mut p = Parser::new(ParserInputs::new(vec![]));
    p.record_baseline(&b"9".to_vec(), vec![1, 2]);
    let mut t = EntityTable::new();
    assert_eq!(t.create(&p.baselines, 5, 3, 77), Err(DemoParserError::SchemaInconsistent));
    assert!(t.slots[5].is_none());
    assert_eq!(t.create(&p.baselines, 5, 9, 77), Ok(()));
    let e = t.slots[5].as_ref().unwrap();
    assert_eq!(e.class_id, 9);
    assert_eq!(e.serial, 77);
    assert_eq!(e.baseline, vec![1, 2]);
}

#[test]
fn delta_from_unknown_tick_clears() {
    let mut p = Parser::new(ParserInputs::new(vec![]));
    p.record_baseline(&b"1".to_vec(), vec![]);
    let mut t = EntityTable::new();
    t.begin_packet(false, 0, 10);
    t.create(&p.baselines, 2, 1, 0).unwrap();
    t.begin_packet(true, 10, 11);
    assert!(t.slots[2].is_some());
    t.begin_packet(true, 5, 12);
    assert!(t.slots[2].is_none());
}

#[test]
fn entity_update_bits() {
    assert_eq!(entity_cmd_from_bits(0), EntityCmd::Delta);
    assert_eq!(entity_cmd_from_bits(1), EntityCmd::Leave);
    assert_eq!(entity_cmd_from_bits(2), EntityCmd::Create);
    assert_eq!(entity_cmd_from_bits(3), EntityCmd::Delete);
}

#[test]
fn front_scan_offsets() {
    let f0 = frame(4, 0, &[1, 2]);
    let f1 = frame(5, 0, &[3]);
    let f2 = frame(7, 1, &[]);
    let f3 = frame(13 | 64, 2, &[9, 9, 9]);
    let f4 = frame(13, 3, &[]);
    let f5 = frame(0, 4, &[]);
    let o1 = 16 + f0.len();
    let o3 = o1 + f1.len() + f2.len();
    let o4 = o3 + f3.len();
    let mut p = Parser::new(ParserInputs::new(demo(&[f0, f1, f2, f3, f4, f5])));
    let md = p.front_demo_metadata().unwrap();
    assert_eq!(md.sendtable_offset, 16);
    assert_eq!(md.classinfo_offset, o1);
    assert_eq!(md.fullpacket_offsets, vec![o3, o4]);
}

#[test]
fn front_scan_truncated_payload() {
    let mut bytes = demo(&[frame(7, 0, &[1, 2, 3])]);
    bytes.pop();
    let mut b = bytes.clone();
    let total = b.len() as u32 - 18;
    b[8..12].copy_from_slice(&total.to_le_bytes());
    let mut p = Parser::new(ParserInputs::new(b));
    assert_eq!(p.front_demo_metadata().err(), Some(DemoParserError::UnexpectedEof));
}

#[test]
fn class_id_widths() {
    assert_eq!(class_id_bits(0), 0);
    assert_eq!(class_id_bits(1), 1);
    assert_eq!(class_id_bits(2), 2);
    assert_eq!(class_id_bits(3), 2);
    assert_eq!(class_id_bits(4), 3);
    assert_eq!(class_id_bits(255), 8);
    assert_eq!(class_id_bits(256), 9);
    assert_eq!(class_id_bits(-1), 0);
}

#[test]
fn server_info_sets_class_bits() {
    let mut p = Parser::new(ParserInputs::new(vec![]));
    p.parse_server_info(&field_varint(11, 600)).unwrap();
    assert_eq!(p.cls_bits, Some(10));
}

#[test]
fn string_tables_command_loads_baselines() {
    let mut item = field_bytes(1, b"12");
    item.extend(field_bytes(2, &[1, 2]));
    let mut table = field_bytes(1, b"instancebaseline");
    table.extend(field_bytes(2, &item));
    let mut other = field_bytes(1, b"userinfo");
    other.extend(field_bytes(2, &item));
    let mut msg = field_bytes(1, &other);
    msg.extend(field_bytes(1, &table));
    let mut p = Parser::new(ParserInputs::new(vec![]));
    p.parse_stringtable_cmd(&msg).unwrap();
    assert_eq!(p.baselines.get(&12), Some(&vec![1, 2]));
    assert_eq!(p.baselines.len(), 1);
}

#[test]
fn compressed_and_fixed_size_values() {
    let block = [3u8, 8, b'a', b'b', b'c'];
    let mut w = BitWriter::new();
    w.bit(true);
    w.bit(true);
    w.bit(false);
    w.cstr("k");
    w.bit(true);
    w.bit(true);
    w.bits(block.len() as u64, 17);
    for b in &block {
        w.byte(*b);
    }
    let mut p = Parser::new(ParserInputs::new(vec![]));
    p.parse_string_table(w.bytes, 1, "t".to_string(), false, 0, 1, false).unwrap();
    assert_eq!(p.string_tables[0].data[0].value, b"abc".to_vec());

    let mut w = BitWriter::new();
    w.bit(true);
    w.bit(true);
    w.bit(false);
    w.cstr("f");
    w.bit(true);
    w.byte(0x5a);
    w.byte(0xa5);
    let mut p = Parser::new(ParserInputs::new(vec![]));
    p.parse_string_table(w.bytes, 1, "t".to_string(), true, 16, 0, false).unwrap();
    assert_eq!(p.string_tables[0].data[0].value, vec![0x5a, 0xa5]);
}

#[test]
fn varint_bit_count_values() {
    let mut w = BitWriter::new();
    w.bit(true);
    w.bit(true);
    w.bit(false);
    w.cstr("v");
    w.bit(true);
    w.ubitvar(3);
    w.byte(1);
    w.byte(2);
    w.byte(3);
    let mut p = Parser::new(ParserInputs::new(vec![]));
    p.parse_string_table(w.bytes, 1, "t".to_string(), false, 0, 0, true).unwrap();
    assert_eq!(p.string_tables[0].data[0].value, vec![1, 2, 3]);
}

#[test]
fn only_header_stops_after_header() {
    let h = field_bytes(5, b"de_nuke");
    let bytes = demo(&[frame(1, 0, &h), frame(7, 1, &[0xff]), frame(0, 2, &[])]);
    let mut inputs = ParserInputs::new(bytes.clone());
    inputs.only_header = true;
    let mut p = Parser::new(inputs);
    assert_eq!(p.start(), Ok(1));
    assert_eq!(header_value(&p, "map_name").as_deref(), Some("de_nuke"));
    let mut full = Parser::new(ParserInputs::new(bytes));
    assert_eq!(full.start(), Err(DemoParserError::MalformedMessage));
}

#[test]
fn source1_prefix_with_other_byte_is_unknown() {
    assert_eq!(handle_short_header(&b"HL2DEMOx".to_vec()), Err(DemoParserError::UnknownFile));
}

#[test]
fn demo_longer_than_announced() {
    let mut b = b"PBDEMS2\0".to_vec();
    b.extend_from_slice(&0u32.to_le_bytes());
    b.extend_from_slice(&[0u8; 8]);
    assert_eq!(
        handle_short_header(&b),
        Err(DemoParserError::DemoEndsEarly { expected: 18, actual: 20 })
    );
}

#[test]
fn friendly_name_first_unknown_reported() {
    let r = rm_user_friendly_names(&vec!["first_bad".to_string(), "health".to_string(), "second_bad".to_string()]);
    assert_eq!(r, Err(DemoParserError::UnknownPropName("first_bad".to_string())));
}

#[test]
fn bad_snappy_frame_fails() {
    let mut f = varint(7 | 64);
    f.extend(varint(0));
    f.extend(varint(2));
    f.extend([0xff, 0xff]);
    let mut p = Parser::new(ParserInputs::new(demo(&[f])));
    assert_eq!(p.start(), Err(DemoParserError::DecompressionFailed));
}

#[test]
fn truncated_frame_fails() {
    let mut bytes = demo(&[frame(7, 0, &[1, 2, 3])]);
    bytes.pop();
    let total = bytes.len() as u32 - 18;
    bytes[8..12].copy_from_slice(&total.to_le_bytes());
    let mut p = Parser::new(ParserInputs::new(bytes));
    assert_eq!(p.start(), Err(DemoParserError::UnexpectedEof));
}

#[test]
fn last_tick_is_kept() {
    let bytes = demo(&[frame(3, 5, &[]), frame(3, 9, &[]), frame(0, 12, &[])]);
    let mut p = Parser::new(ParserInputs::new(bytes));
    assert_eq!(p.start(), Ok(3));
    assert_eq!(p.tick, 12);
}

#[test]
fn packet_entities_from_unknown_tick_clears_table() {
    let mut p = Parser::new(ParserInputs::new(vec![]));
    p.record_baseline(&b"1".to_vec(), vec![7]);
    let b = p.baselines.clone();
    p.entities.create(&b, 3, 1, 0).unwrap();
    let mut msg = field_varint(3, 1);
    msg.extend(field_varint(6, 40));
    p.parse_packet_ents_header(&msg).unwrap();
    assert!(p.entities.slots[3].is_none());
    assert_eq!(p.entities.state_tick, Some(0));
}

#[test]
fn update_string_table_replaces_all_with_index() {
    let mut p = Parser::new(ParserInputs::new(vec![]));
    p.parse_string_table(baseline_table_bits(), 2, "t".to_string(), false, 0, 0, false).unwrap();
    let mut w = BitWriter::new();
    w.bit(false);
    w.varint(2);
    w.bit(true);
    w.bit(false);
    w.cstr("new");
    w.bit(false);
    let mut update = field_varint(1, 0);
    update.extend(field_varint(2, 1));
    update.extend(field_bytes(3, &w.bytes));
    p.update_string_table(&update).unwrap();
    let keys: Vec<(i32, String)> = p.string_tables[0].data.iter().map(|e| (e.idx, e.key.clone())).collect();
    assert_eq!(keys, vec![(0, "7".to_string()), (2, "new".to_string())]);
}

#[test]
fn later_descriptor_with_same_id_wins() {
    let mut d1 = field_varint(1, 4);
    d1.extend(field_bytes(2, b"old_name"));
    let mut d2 = field_varint(1, 4);
    d2.extend(field_bytes(2, b"new_name"));
    let mut list = field_bytes(1, &d1);
    list.extend(field_bytes(1, &d2));
    let mut p = Parser::new(ParserInputs::new(vec![]));
    p.parse_game_event_list(&list).unwrap();
    p.parse_event(&field_varint(2, 4)).unwrap();
    let mut unknown = field_bytes(1, b"own_name");
    unknown.extend(field_varint(2, 9));
    p.parse_event(&unknown).unwrap();
    let mut counts = p.game_events_counter.clone();
    counts.sort();
    assert_eq!(counts, vec![("new_name".to_string(), 1), ("own_name".to_string(), 1)]);
}

#[test]
fn new_copies_settings() {
    let mut inputs = ParserInputs::new(vec![1, 2]);
    inputs.wanted_player_props = vec!["health".to_string()];
    inputs.parse_ents = false;
    inputs.parse_projectiles = true;
    inputs.wanted_ticks = vec![100, 200];
    let p = Parser::new(inputs);
    assert_eq!(p.wanted_player_props, vec!["health".to_string()]);
    assert!(!p.parse_entities);
    assert!(p.parse_projectiles);
    assert_eq!(p.wanted_ticks, vec![100, 200]);
    assert_eq!(p.tick, 0);
    assert!(p.baselines.is_empty());
}
