use vstd::prelude::*;
use ahash::AHashMap;
use crate::baselines::{baseline_entries, baselines_get};
use crate::error::DemoParserError;

verus! {

/// Largest number of entity slots.
pub const MAX_ENTITIES: usize = 2048;

/// One live entity: its class, serial and the raw field bytes it started from.
#[derive(Clone, Debug)]
pub struct Entity {
    pub class_id: u32,
    pub serial: u32,
    pub baseline: Vec<u8>,
}

/// What an entity update asks for, from its two command bits.
#[derive(Clone, Copy, Debug, PartialEq, Eq, Structural)]
pub enum EntityCmd {
    Delta,
    Leave,
    Create,
    Delete,
}

/// The command of two update bits, low bit first: 00 delta, 01 leave, 10 create, 11 delete.
pub open spec fn entity_cmd_of(bits: u32) -> EntityCmd {
    if bits % 4 == 0 {
        EntityCmd::Delta
    } else if bits % 4 == 1 {
        EntityCmd::Leave
    } else if bits % 4 == 2 {
        EntityCmd::Create
    } else {
        EntityCmd::Delete
    }
}

/// The command of an entity update's two bits.
pub fn entity_cmd_from_bits(bits: u32) -> (r: EntityCmd)
    ensures
        r == entity_cmd_of(bits),
{
    let b = bits % 4;
    if b == 0 {
        EntityCmd::Delta
    } else if b == 1 {
        EntityCmd::Leave
    } else if b == 2 {
        EntityCmd::Create
    } else {
        EntityCmd::Delete
    }
}

/// The entity slots, and the tick whose state they hold.
pub struct EntityTable {
    pub slots: Vec<Option<Entity>>,
    pub state_tick: Option<i32>,
}

impl EntityTable {
    pub open spec fn wf(&self) -> bool {
        self.slots@.len() == MAX_ENTITIES
    }

    /// Whether every slot is empty.
    pub open spec fn is_empty(&self) -> bool {
        forall|i: int| 0 <= i < self.slots@.len() ==> #[trigger] self.slots@[i] is None
    }

    pub fn new() -> (r: Self)
        ensures
            r.wf(),
            r.is_empty(),
            r.state_tick is None,
    {
        let mut slots: Vec<Option<Entity>> = Vec::new();
        let mut i: usize = 0;
        while i < MAX_ENTITIES
            invariant
                i <= MAX_ENTITIES,
                slots@.len() == i,
                forall|k: int| 0 <= k < i ==> #[trigger] slots@[k] is None,
            decreases MAX_ENTITIES - i,
        {
            slots.push(None);
            i = i + 1;
        }
        EntityTable { slots, state_tick: None }
    }

    /// Empties every slot.
    pub fn clear(&mut self)
        requires
            old(self).wf(),
        ensures
            final(self).wf(),
            final(self).is_empty(),
            final(self).state_tick == old(self).state_tick,
    {
        let mut i: usize = 0;
        while i < self.slots.len()
            invariant
                i <= self.slots@.len() == MAX_ENTITIES,
                self.state_tick == old(self).state_tick,
                forall|k: int| 0 <= k < i ==> #[trigger] self.slots@[k] is None,
            decreases MAX_ENTITIES - i,
        {
            self.slots.set(i, None);
            i = i + 1;
        }
    }

    /// Starts a packet of entity updates at `tick`. A delta from a tick whose state is not
    /// the one held, and a full update, start from an empty table.
    pub fn begin_packet(&mut self, is_delta: bool, delta_from: i32, tick: i32)
        requires
            old(self).wf(),
        ensures
            final(self).wf(),
            final(self).state_tick == Some(tick),
            !(is_delta && old(self).state_tick == Some(delta_from)) ==> final(self).is_empty(),
            is_delta && old(self).state_tick == Some(delta_from) ==> final(self).slots@
                == old(self).slots@,
    {
        let known = match self.state_tick {
            Some(t) => t == delta_from,
            None => false,
        };
        if !(is_delta && known) {
            self.clear();
        }
        self.state_tick = Some(tick);
    }

    /// Creates an entity in a slot from its class's baseline. Without a baseline for the
    /// class nothing is created.
    pub fn create(
        &mut self,
        baselines: &AHashMap<u32, Vec<u8>>,
        slot: usize,
        class_id: u32,
        serial: u32,
    ) -> (r: Result<(), DemoParserError>)
        requires
            old(self).wf(),
        ensures
            final(self).wf(),
            final(self).state_tick == old(self).state_tick,
            r is Ok <==> slot < MAX_ENTITIES && baseline_entries(*baselines).contains_key(
                class_id,
            ),
            r is Ok ==> {
                &&& final(self).slots@ == old(self).slots@.update(
                    slot as int,
                    final(self).slots@[slot as int],
                )
                &&& final(self).slots@[slot as int] is Some
                &&& final(self).slots@[slot as int]->Some_0.class_id == class_id
                &&& final(self).slots@[slot as int]->Some_0.serial == serial
                &&& final(self).slots@[slot as int]->Some_0.baseline@ == baseline_entries(
                    *baselines,
                )[class_id]
            },
            r is Err ==> final(self).slots@ == old(self).slots@ && r
                == Err::<(), DemoParserError>(DemoParserError::SchemaInconsistent),
    {
        if slot >= self.slots.len() {
            return Err(DemoParserError::SchemaInconsistent);
        }
        match baselines_get(baselines, class_id) {
            Some(baseline) => {
                self.slots.set(slot, Some(Entity { class_id, serial, baseline }));
                Ok(())
            },
            None => Err(DemoParserError::SchemaInconsistent),
        }
    }

    /// Removes the entity in a slot.
    pub fn delete(&mut self, slot: usize)
        requires
            old(self).wf(),
        ensures
            final(self).wf(),
            final(self).state_tick == old(self).state_tick,
            slot < MAX_ENTITIES ==> final(self).slots@ == old(self).slots@.update(
                slot as int,
                None,
            ),
            slot >= MAX_ENTITIES ==> final(self).slots@ == old(self).slots@,
    {
        if slot < self.slots.len() {
            self.slots.set(slot, None);
        }
    }
}

} // verus!
