use vstd::prelude::*;
use crate::baselines::{baseline_entries, descriptor_entries};
use crate::demo::{class_bits_for, tables_fold, net_messages};
use crate::events::{bumped, count_of, descriptors_fold, event_list, event_name};
use crate::frame::{header_fields_of, header_view};
use crate::outside::utf8_lossy_of;
use crate::parser::{
    Parser, same_content, same_config, keeps_tables, keeps_baselines, keeps_players, keeps_header,
    keeps_descriptors, keeps_counts, keeps_entities, keeps_cls_bits,
};
use crate::proto::{pb_fields, pb_int, pb_bytes};
use crate::stringtables::{
    create_data, decoded_entries, merged_with, records_applied, string_table_applied,
};

verus! {

/// Whether a create-string-table message succeeds.
pub open spec fn create_ok(s: Parser, b: Seq<u8>) -> bool {
    match pb_fields(b) {
        None => false,
        Some(fs) => match create_data(fs) {
            None => false,
            Some(data) => data.len() <= usize::MAX / 8 && decoded_entries(
                data,
                pb_int(fs, 2, 0) as i32,
                pb_int(fs, 3, 0) != 0,
                pb_int(fs, 4, 0) as i32,
                pb_int(fs, 6, 0) as i32,
                pb_int(fs, 10, 0) != 0,
            ) is Some,
        },
    }
}

/// What a successful create-string-table message does.
pub open spec fn create_applied(s: Parser, t: Parser, b: Seq<u8>) -> bool {
    &&& same_config(s, t)
    &&& keeps_header(s, t) && keeps_descriptors(s, t) && keeps_counts(s, t)
    &&& keeps_entities(s, t) && keeps_cls_bits(s, t)
    &&& match pb_fields(b) {
        None => false,
        Some(fs) => match create_data(fs) {
            None => false,
            Some(data) => string_table_applied(
                s,
                t,
                data,
                pb_int(fs, 2, 0) as i32,
                utf8_lossy_of(pb_bytes(fs, 1)),
                pb_int(fs, 3, 0) != 0,
                pb_int(fs, 4, 0) as i32,
                pb_int(fs, 6, 0) as i32,
                pb_int(fs, 10, 0) != 0,
            ),
        },
    }
}

/// Whether an update-string-table message names a table that exists.
pub open spec fn update_in_range(s: Parser, fs: Seq<(u64, u8, u64, Seq<u8>)>) -> bool {
    0 <= pb_int(fs, 1, 0) as i32 && (pb_int(fs, 1, 0) as i32) < s.string_tables@.len()
}

/// The entries an update-string-table message decodes to, with its table's settings.
pub open spec fn update_decoded(s: Parser, fs: Seq<(u64, u8, u64, Seq<u8>)>) -> Option<
    Seq<(int, Seq<u8>, Seq<u8>)>,
> {
    let t = s.string_tables@[pb_int(fs, 1, 0) as i32 as int];
    decoded_entries(
        pb_bytes(fs, 3),
        pb_int(fs, 2, 0) as i32,
        t.user_data_fixed,
        t.user_data_size,
        t.flags,
        t.var_bit_counts,
    )
}

/// Whether an update-string-table message succeeds.
pub open spec fn update_ok(s: Parser, b: Seq<u8>) -> bool {
    match pb_fields(b) {
        None => false,
        Some(fs) => update_in_range(s, fs) && pb_bytes(fs, 3).len() <= usize::MAX / 8
            && update_decoded(s, fs) is Some,
    }
}

/// What a successful update-string-table message does: its table takes the decoded entries
/// in place, the other tables stay.
pub open spec fn update_applied(s: Parser, t: Parser, b: Seq<u8>) -> bool {
    &&& same_config(s, t)
    &&& keeps_header(s, t) && keeps_descriptors(s, t) && keeps_counts(s, t)
    &&& keeps_entities(s, t) && keeps_cls_bits(s, t)
    &&& match pb_fields(b) {
        None => false,
        Some(fs) => {
            let id = pb_int(fs, 1, 0) as i32 as int;
            let old_t = s.string_tables@[id];
            let new_t = t.string_tables@[id];
            let dec = update_decoded(s, fs)->Some_0;
            &&& t.string_tables@.len() == s.string_tables@.len()
            &&& forall|k: int|
                0 <= k < s.string_tables@.len() && k != id ==> #[trigger] t.string_tables@[k]
                    == s.string_tables@[k]
            &&& new_t.name@ == old_t.name@
            &&& new_t.user_data_fixed == old_t.user_data_fixed
            &&& new_t.user_data_size == old_t.user_data_size
            &&& new_t.flags == old_t.flags
            &&& new_t.var_bit_counts == old_t.var_bit_counts
            &&& merged_with(old_t.data@, dec, new_t.data@)
            &&& records_applied(s, t, old_t.name@, dec)
        },
    }
}

/// What a successful server-info message does.
pub open spec fn server_info_applied(s: Parser, t: Parser, b: Seq<u8>) -> bool {
    &&& same_config(s, t)
    &&& keeps_tables(s, t) && keeps_baselines(s, t) && keeps_players(s, t)
    &&& keeps_header(s, t) && keeps_descriptors(s, t) && keeps_counts(s, t)
    &&& keeps_entities(s, t)
    &&& match pb_fields(b) {
        None => false,
        Some(fs) => t.cls_bits == Some(class_bits_for(pb_int(fs, 11, 0) as i32 as int)),
    }
}

/// What a successful entity-update header does: the table is taken as the state of this
/// tick, cleared first unless it is a delta from the tick whose state it holds.
pub open spec fn ents_header_applied(s: Parser, t: Parser, b: Seq<u8>) -> bool {
    &&& same_config(s, t)
    &&& keeps_tables(s, t) && keeps_baselines(s, t) && keeps_players(s, t)
    &&& keeps_header(s, t) && keeps_descriptors(s, t) && keeps_counts(s, t)
    &&& keeps_cls_bits(s, t)
    &&& match pb_fields(b) {
        None => false,
        Some(fs) => {
            let is_delta = pb_int(fs, 3, 0) != 0;
            let from = pb_int(fs, 6, 0) as i32;
            &&& t.entities.state_tick == Some(s.tick)
            &&& !(is_delta && s.entities.state_tick == Some(from)) ==> t.entities.is_empty()
            &&& is_delta && s.entities.state_tick == Some(from) ==> t.entities.slots@
                == s.entities.slots@
        },
    }
}

/// Whether a game-event descriptor list succeeds.
pub open spec fn event_list_ok(b: Seq<u8>) -> bool {
    match pb_fields(b) {
        None => false,
        Some(fs) => event_list(fs) is Some,
    }
}

/// What a successful game-event descriptor list does.
pub open spec fn event_list_applied(s: Parser, t: Parser, b: Seq<u8>) -> bool {
    &&& same_config(s, t)
    &&& keeps_tables(s, t) && keeps_baselines(s, t) && keeps_players(s, t)
    &&& keeps_header(s, t) && keeps_counts(s, t) && keeps_entities(s, t)
    &&& keeps_cls_bits(s, t)
    &&& match pb_fields(b) {
        None => false,
        Some(fs) => match event_list(fs) {
            None => false,
            Some(ds) => descriptor_entries(t.ge_list) == descriptors_fold(descriptor_entries(s.ge_list), ds),
        },
    }
}

/// What a successful game event does: its name is counted once more.
pub open spec fn event_applied(s: Parser, t: Parser, b: Seq<u8>) -> bool {
    &&& same_config(s, t)
    &&& keeps_tables(s, t) && keeps_baselines(s, t) && keeps_players(s, t)
    &&& keeps_header(s, t) && keeps_descriptors(s, t) && keeps_entities(s, t)
    &&& keeps_cls_bits(s, t)
    &&& match pb_fields(b) {
        None => false,
        Some(fs) => {
            let n = event_name(
                descriptor_entries(s.ge_list),
                pb_int(fs, 2, 0) as i32,
                utf8_lossy_of(pb_bytes(fs, 1)),
            );
            &&& count_of(t.game_events_counter@, n) == Some(
                bumped(count_of(s.game_events_counter@, n)),
            )
            &&& forall|k: Seq<char>|
                k != n ==> #[trigger] count_of(t.game_events_counter@, k) == count_of(
                    s.game_events_counter@,
                    k,
                )
        },
    }
}

/// What a successful file-header message does.
pub open spec fn header_applied(s: Parser, t: Parser, b: Seq<u8>) -> bool {
    &&& same_config(s, t)
    &&& keeps_tables(s, t) && keeps_baselines(s, t) && keeps_players(s, t)
    &&& keeps_descriptors(s, t) && keeps_counts(s, t) && keeps_entities(s, t)
    &&& keeps_cls_bits(s, t)
    &&& match pb_fields(b) {
        None => false,
        Some(fs) => header_view(t.header@) == header_view(s.header@) + header_fields_of(fs),
    }
}

/// Whether a string-tables command succeeds.
pub open spec fn string_tables_cmd_ok(s: Parser, b: Seq<u8>) -> bool {
    match pb_fields(b) {
        None => false,
        Some(fs) => tables_fold(baseline_entries(s.baselines), fs) is Some,
    }
}

/// What a successful string-tables command does: the baselines of its `instancebaseline`
/// table are stored.
pub open spec fn string_tables_cmd_applied(s: Parser, t: Parser, b: Seq<u8>) -> bool {
    &&& same_config(s, t)
    &&& keeps_tables(s, t) && keeps_players(s, t) && keeps_header(s, t)
    &&& keeps_descriptors(s, t) && keeps_counts(s, t) && keeps_entities(s, t)
    &&& keeps_cls_bits(s, t)
    &&& match pb_fields(b) {
        None => false,
        Some(fs) => tables_fold(baseline_entries(s.baselines), fs) == Some(
            baseline_entries(t.baselines),
        ),
    }
}

/// Whether a net message succeeds on a state: string-table, server-info, entity-update,
/// game-event-list and game-event messages by their own rules; other kinds are skipped.
#[verifier::opaque]
pub open spec fn msg_ok(s: Parser, m: (nat, Seq<u8>)) -> bool {
    if m.0 == 44 {
        create_ok(s, m.1)
    } else if m.0 == 45 {
        update_ok(s, m.1)
    } else if m.0 == 40 || m.0 == 55 || m.0 == 207 {
        pb_fields(m.1) is Some
    } else if m.0 == 205 {
        event_list_ok(m.1)
    } else {
        true
    }
}

/// What a successful net message does; a skipped kind changes nothing.
#[verifier::opaque]
pub open spec fn msg_applied(s: Parser, t: Parser, m: (nat, Seq<u8>)) -> bool {
    if m.0 == 44 {
        create_applied(s, t, m.1)
    } else if m.0 == 45 {
        update_applied(s, t, m.1)
    } else if m.0 == 40 {
        server_info_applied(s, t, m.1)
    } else if m.0 == 55 {
        ents_header_applied(s, t, m.1)
    } else if m.0 == 205 {
        event_list_applied(s, t, m.1)
    } else if m.0 == 207 {
        event_applied(s, t, m.1)
    } else {
        t == s
    }
}

/// Whether `t` is `s` after the net messages, applied in order, each succeeding.
pub open spec fn msgs_applied(s: Parser, t: Parser, ms: Seq<(nat, Seq<u8>)>) -> bool
    decreases ms.len(),
{
    if ms.len() == 0 {
        t == s
    } else {
        exists|mid: Parser|
            msgs_applied(s, mid, ms.drop_last()) && msg_ok(mid, ms.last()) && msg_applied(
                mid,
                t,
                ms.last(),
            )
    }
}

/// Whether applying the net messages in order reaches one that fails.
pub open spec fn msgs_fail(s: Parser, ms: Seq<(nat, Seq<u8>)>) -> bool {
    exists|k: int, mid: Parser|
        0 <= k < ms.len() && #[trigger] msgs_applied(s, mid, ms.take(k)) && !msg_ok(mid, ms[k])
}

/// What a successful packet (its data is field 3) does: its net messages, in order.
pub open spec fn packet_applied(s: Parser, t: Parser, b: Seq<u8>) -> bool {
    match pb_fields(b) {
        None => false,
        Some(fs) => pb_bytes(fs, 3).len() <= usize::MAX / 8 && match net_messages(
            pb_bytes(fs, 3),
            0,
        ) {
            None => false,
            Some(ms) => msgs_applied(s, t, ms),
        },
    }
}

/// Whether a packet fails: it is malformed, its messages do not frame, or one of them fails.
pub open spec fn packet_fails(s: Parser, b: Seq<u8>) -> bool {
    match pb_fields(b) {
        None => true,
        Some(fs) => pb_bytes(fs, 3).len() > usize::MAX / 8 || match net_messages(
            pb_bytes(fs, 3),
            0,
        ) {
            None => true,
            Some(ms) => msgs_fail(s, ms),
        },
    }
}

/// What a successful full-state dump does: the baselines of its string tables (field 1)
/// are stored, then its packet (field 2) runs on that state.
pub open spec fn full_packet_applied(s: Parser, t: Parser, b: Seq<u8>) -> bool {
    match pb_fields(b) {
        None => false,
        Some(fs) => exists|mid: Parser|
            #[trigger] string_tables_cmd_applied(s, mid, pb_bytes(fs, 1)) && packet_applied(
                mid,
                t,
                pb_bytes(fs, 2),
            ),
    }
}

/// Whether a full-state dump fails: it is malformed, its string tables fail, or its packet
/// fails on the state they leave.
pub open spec fn full_packet_fails(s: Parser, b: Seq<u8>) -> bool {
    match pb_fields(b) {
        None => true,
        Some(fs) => !string_tables_cmd_ok(s, pb_bytes(fs, 1)) || exists|mid: Parser|
            #[trigger] string_tables_cmd_applied(s, mid, pb_bytes(fs, 1)) && packet_fails(
                mid,
                pb_bytes(fs, 2),
            ),
    }
}

/// A frame as its kind, tick and (decompressed) payload.
pub type FrameView = (u32, i32, Seq<u8>);

/// What a successful frame does, on the state after it was read: packets, full-state dumps,
/// the file header and string-tables commands are applied; other kinds are skipped.
#[verifier::opaque]
pub open spec fn frame_applied(s: Parser, t: Parser, f: FrameView) -> bool {
    if f.0 == 7 || f.0 == 8 {
        packet_applied(s, t, f.2)
    } else if f.0 == 13 {
        full_packet_applied(s, t, f.2)
    } else if f.0 == 1 {
        header_applied(s, t, f.2)
    } else if f.0 == 6 {
        string_tables_cmd_applied(s, t, f.2)
    } else {
        t == s
    }
}

/// Whether a frame's payload fails on the state after it was read.
#[verifier::opaque]
pub open spec fn frame_fails(s: Parser, f: FrameView) -> bool {
    if f.0 == 7 || f.0 == 8 {
        packet_fails(s, f.2)
    } else if f.0 == 13 {
        full_packet_fails(s, f.2)
    } else if f.0 == 1 {
        pb_fields(f.2) is None
    } else if f.0 == 6 {
        !string_tables_cmd_ok(s, f.2)
    } else {
        false
    }
}

/// Whether `t` is `s` after reading the frames in order, each setting the tick and then
/// being applied.
pub open spec fn frames_applied(s: Parser, t: Parser, fs: Seq<FrameView>) -> bool
    decreases fs.len(),
{
    if fs.len() == 0 {
        same_content(s, t) && t.tick == s.tick
    } else {
        exists|mid: Parser| frames_applied(s, mid, fs.drop_last()) && #[trigger] frame_step(mid, t, fs.last())
    }
}

/// Whether `t` is `s` after reading one frame (which sets the tick) and applying it.
pub open spec fn frame_step(s: Parser, t: Parser, f: FrameView) -> bool {
    exists|read: Parser| same_content(s, read) && read.tick == f.1 && #[trigger] frame_applied(read, t, f)
}

} // verus!
