use vstd::prelude::*;
use ahash::AHashMap;
use crate::baselines::{baseline_entries, baselines_new, player_entries, players_new, descriptor_entries, descriptors_new};
use crate::bitreader::BitReader;
use crate::stringtables::{StringTable, UserInfo};
use crate::events::{EventDescriptor, names_unique};
use crate::entities::EntityTable;

verus! {

/// What a parse is asked for.
#[derive(Debug, Clone)]
pub struct ParserInputs {
    /// The whole demo.
    pub bytes: Vec<u8>,
    pub wanted_player_props: Vec<String>,
    pub wanted_player_props_og_names: Vec<String>,
    pub wanted_other_props: Vec<String>,
    pub wanted_other_props_og_names: Vec<String>,
    /// Ticks to collect at; empty for every tick.
    pub wanted_ticks: Vec<i32>,
    pub wanted_event: Option<String>,
    pub parse_ents: bool,
    pub parse_projectiles: bool,
    /// Stop after the file header.
    pub only_header: bool,
    pub count_props: bool,
    pub only_convars: bool,
}

impl ParserInputs {
    /// Inputs that ask for a full parse of `bytes` and nothing in particular.
    pub fn new(bytes: Vec<u8>) -> (r: Self)
        ensures
            r.bytes@ == bytes@,
            r.wanted_player_props@.len() == 0,
            r.wanted_player_props_og_names@.len() == 0,
            r.wanted_other_props@.len() == 0,
            r.wanted_other_props_og_names@.len() == 0,
            r.wanted_ticks@.len() == 0,
            r.wanted_event is None,
            r.parse_ents,
            !r.parse_projectiles,
            !r.only_header,
            !r.count_props,
            !r.only_convars,
    {
        ParserInputs {
            bytes,
            wanted_player_props: Vec::new(),
            wanted_player_props_og_names: Vec::new(),
            wanted_other_props: Vec::new(),
            wanted_other_props_og_names: Vec::new(),
            wanted_ticks: Vec::new(),
            wanted_event: None,
            parse_ents: true,
            parse_projectiles: false,
            only_header: false,
            count_props: false,
            only_convars: false,
        }
    }
}

/// The state of one parse.
pub struct Parser {
    /// The whole demo, with the position of the next frame.
    pub reader: BitReader,
    /// Tick of the frame read last.
    pub tick: i32,
    /// Stop after the file header.
    pub only_header: bool,
    pub wanted_player_props: Vec<String>,
    pub wanted_other_props: Vec<String>,
    pub wanted_ticks: Vec<i32>,
    pub wanted_event: Option<String>,
    pub parse_entities: bool,
    pub parse_projectiles: bool,
    pub string_tables: Vec<StringTable>,
    /// Raw baseline field bytes by class id.
    pub baselines: AHashMap<u32, Vec<u8>>,
    /// Players from the `userinfo` table, one per steam id.
    pub stringtable_players: AHashMap<u64, UserInfo>,
    /// Header fields by name, in the order in which they were set.
    pub header: Vec<(String, String)>,
    /// Width of class ids in entity updates, once the server info has given it.
    pub cls_bits: Option<u32>,
    /// Game-event descriptors by id.
    pub ge_list: AHashMap<i32, EventDescriptor>,
    /// How often each game event occurred, one entry per name.
    pub game_events_counter: Vec<(String, u64)>,
    /// The entity slots.
    pub entities: EntityTable,
}

/// Whether two parser states agree on the input position, the tick and the configuration.
pub open spec fn same_config(a: Parser, b: Parser) -> bool {
    &&& a.reader == b.reader
    &&& a.tick == b.tick
    &&& a.only_header == b.only_header
    &&& a.wanted_player_props@ == b.wanted_player_props@
    &&& a.wanted_other_props@ == b.wanted_other_props@
    &&& a.wanted_ticks@ == b.wanted_ticks@
    &&& a.wanted_event == b.wanted_event
    &&& a.parse_entities == b.parse_entities
    &&& a.parse_projectiles == b.parse_projectiles
}

/// Whether two states hold the same string tables.
pub open spec fn keeps_tables(a: Parser, b: Parser) -> bool {
    a.string_tables@ == b.string_tables@
}

/// Whether two states hold the same baselines.
pub open spec fn keeps_baselines(a: Parser, b: Parser) -> bool {
    a.baselines == b.baselines
}

/// Whether two states hold the same players.
pub open spec fn keeps_players(a: Parser, b: Parser) -> bool {
    a.stringtable_players == b.stringtable_players
}

/// Whether two states hold the same header fields.
pub open spec fn keeps_header(a: Parser, b: Parser) -> bool {
    a.header@ == b.header@
}

/// Whether two states hold the same game-event descriptors.
pub open spec fn keeps_descriptors(a: Parser, b: Parser) -> bool {
    a.ge_list == b.ge_list
}

/// Whether two states hold the same event counts.
pub open spec fn keeps_counts(a: Parser, b: Parser) -> bool {
    a.game_events_counter@ == b.game_events_counter@
}

/// Whether two states hold the same entity table.
pub open spec fn keeps_entities(a: Parser, b: Parser) -> bool {
    a.entities == b.entities
}

/// Whether two states hold the same class-id width.
pub open spec fn keeps_cls_bits(a: Parser, b: Parser) -> bool {
    a.cls_bits == b.cls_bits
}

/// Whether two states agree on everything but the input position and the tick.
pub open spec fn same_content(a: Parser, b: Parser) -> bool {
    &&& a.reader.data@ == b.reader.data@
    &&& a.only_header == b.only_header
    &&& a.wanted_player_props@ == b.wanted_player_props@
    &&& a.wanted_other_props@ == b.wanted_other_props@
    &&& a.wanted_ticks@ == b.wanted_ticks@
    &&& a.wanted_event == b.wanted_event
    &&& a.parse_entities == b.parse_entities
    &&& a.parse_projectiles == b.parse_projectiles
    &&& keeps_tables(a, b) && keeps_baselines(a, b) && keeps_players(a, b)
    &&& keeps_header(a, b) && keeps_descriptors(a, b) && keeps_counts(a, b)
    &&& keeps_entities(a, b) && keeps_cls_bits(a, b)
}

impl Parser {
    pub open spec fn wf(&self) -> bool {
        &&& self.reader.wf()
        &&& names_unique(self.game_events_counter@)
        &&& self.entities.wf()
    }

    /// A parser at the start of a demo.
    pub fn new(inputs: ParserInputs) -> (r: Self)
        requires
            inputs.bytes@.len() * 8 <= usize::MAX,
        ensures
            r.wf(),
            r.reader.data@ == inputs.bytes@,
            r.only_header == inputs.only_header,
            r.reader.pos == 0,
            r.tick == 0,
            r.string_tables@.len() == 0,
            player_entries(r.stringtable_players).dom() == Set::<u64>::empty(),
            r.header@.len() == 0,
            r.game_events_counter@.len() == 0,
            baseline_entries(r.baselines).dom() == Set::<u32>::empty(),
            r.wanted_player_props@ == inputs.wanted_player_props@,
            r.wanted_other_props@ == inputs.wanted_other_props@,
            r.wanted_ticks@ == inputs.wanted_ticks@,
            r.wanted_event == inputs.wanted_event,
            r.parse_entities == inputs.parse_ents,
            r.parse_projectiles == inputs.parse_projectiles,
            r.cls_bits is None,
            descriptor_entries(r.ge_list).dom() == Set::<i32>::empty(),
            r.entities.is_empty(),
            r.entities.state_tick is None,
    {
        Parser {
            reader: BitReader::new(inputs.bytes),
            tick: 0,
            only_header: inputs.only_header,
            wanted_player_props: inputs.wanted_player_props,
            wanted_other_props: inputs.wanted_other_props,
            wanted_ticks: inputs.wanted_ticks,
            wanted_event: inputs.wanted_event,
            parse_entities: inputs.parse_ents,
            parse_projectiles: inputs.parse_projectiles,
            string_tables: Vec::new(),
            baselines: baselines_new(),
            stringtable_players: players_new(),
            header: Vec::new(),
            cls_bits: None,
            ge_list: descriptors_new(),
            game_events_counter: Vec::new(),
            entities: EntityTable::new(),
        }
    }
}

} // verus!
