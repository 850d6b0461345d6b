use vstd::prelude::*;
use crate::effects::{event_list_ok, event_list_applied, event_applied};
use crate::error::DemoParserError;
use crate::outside::lossy_string;
use crate::parser::{Parser, same_config, keeps_tables, keeps_baselines, keeps_players, keeps_header, keeps_descriptors, keeps_counts, keeps_entities, keeps_cls_bits};
use crate::proto::{parse_message, get_int, get_bytes, pb_fields, pb_int, pb_bytes, fields_view, PbFieldView};
use crate::outside::utf8_lossy_of;
use crate::baselines::{descriptor_entries, descriptors_insert, descriptors_get_name};

verus! {

/// Net message kind of the game-event descriptor list.
pub const GE_GAME_EVENT_LIST: u32 = 205;

/// Net message kind of one game event.
pub const GE_GAME_EVENT: u32 = 207;

/// How many times an event name has been counted.
pub open spec fn count_of(c: Seq<(String, u64)>, name: Seq<char>) -> Option<u64>
    decreases c.len(),
{
    if c.len() == 0 {
        None
    } else if c.last().0@ == name {
        Some(c.last().1)
    } else {
        count_of(c.drop_last(), name)
    }
}

/// Whether no name is counted twice.
pub open spec fn names_unique(c: Seq<(String, u64)>) -> bool {
    forall|i: int, j: int| 0 <= i < j < c.len() ==> (#[trigger] c[i]).0@ != (#[trigger] c[j]).0@
}

/// Counts one more occurrence of an event name.
pub fn count_event(counter: &mut Vec<(String, u64)>, name: String)
    requires
        names_unique(old(counter)@),
    ensures
        names_unique(final(counter)@),
        count_of(final(counter)@, name@) == Some(
            match count_of(old(counter)@, name@) {
                Some(n) => if n < u64::MAX {
                    (n + 1) as u64
                } else {
                    n
                },
                None => 1u64,
            },
        ),
        forall|k: Seq<char>| k != name@ ==> #[trigger] count_of(final(counter)@, k) == count_of(
            old(counter)@,
            k,
        ),
{
    let mut i: usize = 0;
    while i < counter.len()
        invariant
            i <= counter@.len(),
            counter@ == old(counter)@,
            names_unique(counter@),
            forall|k: int| 0 <= k < i ==> (#[trigger] counter@[k]).0@ != name@,
        decreases counter@.len() - i,
    {
        if counter[i].0 == name {
            let n = counter[i].1;
            let ghost before = counter@;
            let name_copy = counter[i].0.clone();
            let next = if n < u64::MAX {
                n + 1
            } else {
                n
            };
            counter.set(i, (name_copy, next));
            proof {
                lemma_count_of_unique(before, i as int);
                lemma_count_of_update(before, i as int, counter@);
            }
            return;
        }
        i = i + 1;
    }
    let ghost before = counter@;
    counter.push((name, 1));
    proof {
        assert(counter@.drop_last() =~= before);
        lemma_count_absent(before, name@);
        assert forall|a: int, b: int| 0 <= a < b < counter@.len() implies (#[trigger] counter@[a]).0@
            != (#[trigger] counter@[b]).0@ by {
            if b < before.len() {
                assert(counter@[a] == before[a] && counter@[b] == before[b]);
            } else {
                assert(counter@[a] == before[a]);
            }
        }
    }
}

proof fn lemma_count_absent(c: Seq<(String, u64)>, name: Seq<char>)
    requires
        forall|k: int| 0 <= k < c.len() ==> (#[trigger] c[k]).0@ != name,
    ensures
        count_of(c, name) is None,
    decreases c.len(),
{
    if c.len() > 0 {
        assert(c[c.len() - 1].0@ != name);
        assert forall|k: int| 0 <= k < c.drop_last().len() implies (#[trigger] c.drop_last()[k]).0@
            != name by {
            assert(c.drop_last()[k] == c[k]);
        }
        lemma_count_absent(c.drop_last(), name);
    }
}

proof fn lemma_count_of_unique(c: Seq<(String, u64)>, i: int)
    requires
        names_unique(c),
        0 <= i < c.len(),
    ensures
        count_of(c, c[i].0@) == Some(c[i].1),
    decreases c.len(),
{
    if i != c.len() - 1 {
        let d = c.drop_last();
        assert(c.last().0@ != c[i].0@);
        assert(names_unique(d)) by {
            assert forall|a: int, b: int| 0 <= a < b < d.len() implies (#[trigger] d[a]).0@
                != (#[trigger] d[b]).0@ by {
                assert(d[a] == c[a] && d[b] == c[b]);
            }
        }
        assert(d[i] == c[i]);
        lemma_count_of_unique(d, i);
    }
}

proof fn lemma_count_of_update(c: Seq<(String, u64)>, i: int, e: Seq<(String, u64)>)
    requires
        names_unique(c),
        0 <= i < c.len(),
        e.len() == c.len(),
        e[i].0@ == c[i].0@,
        forall|k: int| 0 <= k < c.len() && k != i ==> e[k] == c[k],
    ensures
        names_unique(e),
        count_of(e, c[i].0@) == Some(e[i].1),
        forall|k: Seq<char>| k != c[i].0@ ==> #[trigger] count_of(e, k) == count_of(c, k),
    decreases c.len(),
{
    assert(names_unique(e)) by {
        assert forall|a: int, b: int| 0 <= a < b < e.len() implies (#[trigger] e[a]).0@
            != (#[trigger] e[b]).0@ by {
            if a != i {
                assert(e[a] == c[a]);
            }
            if b != i {
                assert(e[b] == c[b]);
            }
        }
    }
    lemma_count_of_unique(e, i);
    assert forall|k: Seq<char>| k != c[i].0@ implies #[trigger] count_of(e, k) == count_of(c, k) by {
        lemma_count_same_elsewhere(c, i, e, k);
    }
}

proof fn lemma_count_same_elsewhere(c: Seq<(String, u64)>, i: int, e: Seq<(String, u64)>, k: Seq<char>)
    requires
        0 <= i < c.len(),
        e.len() == c.len(),
        e[i].0@ == c[i].0@,
        forall|j: int| 0 <= j < c.len() && j != i ==> e[j] == c[j],
        k != c[i].0@,
    ensures
        count_of(e, k) == count_of(c, k),
    decreases c.len(),
{
    if c.len() > 0 {
        let cd = c.drop_last();
        let ed = e.drop_last();
        if i < c.len() - 1 {
            assert(e.last() == c.last());
            lemma_count_same_elsewhere(cd, i, ed, k);
        } else {
            assert(cd =~= ed) by {
                assert forall|j: int| 0 <= j < cd.len() implies cd[j] == ed[j] by {
                    assert(e[j] == c[j]);
                }
            }
        }
    }
}

/// One entry of the game-event descriptor list: its id and name.
pub struct EventDescriptor {
    pub eventid: i32,
    pub name: String,
}

/// The descriptor table after storing each descriptor in order: a later one with the same id
/// replaces an earlier one.
pub open spec fn descriptors_fold(m: Map<i32, Seq<char>>, ds: Seq<(i32, Seq<char>)>) -> Map<i32, Seq<char>>
    decreases ds.len(),
{
    if ds.len() == 0 {
        m
    } else {
        descriptors_fold(m, ds.drop_last()).insert(ds.last().0, ds.last().1)
    }
}

/// The descriptors that a descriptor-list message holds (its length-delimited fields 1,
/// each with id 1 and name 2), or `None` where one of them is malformed.
pub open spec fn event_list(fs: Seq<PbFieldView>) -> Option<Seq<(i32, Seq<char>)>>
    decreases fs.len(),
{
    if fs.len() == 0 {
        Some(Seq::empty())
    } else {
        match event_list(fs.drop_last()) {
            None => None,
            Some(prev) => if fs.last().0 == 1 && fs.last().1 == 2 {
                match pb_fields(fs.last().3) {
                    None => None,
                    Some(d) => Some(prev.push((pb_int(d, 1, 0) as i32, utf8_lossy_of(pb_bytes(d, 2))))),
                }
            } else {
                Some(prev)
            },
        }
    }
}

proof fn lemma_event_list_prefix_none(fs: Seq<PbFieldView>, i: int)
    requires
        0 <= i <= fs.len(),
        event_list(fs.subrange(0, i)) is None,
    ensures
        event_list(fs) is None,
    decreases fs.len() - i,
{
    if i < fs.len() {
        assert(fs.subrange(0, i + 1).drop_last() =~= fs.subrange(0, i));
        lemma_event_list_prefix_none(fs, i + 1);
    } else {
        assert(fs.subrange(0, i) =~= fs);
    }
}

/// The name that an event with this id is counted under: that of the descriptor with the
/// id, or the event's own name where there is none.
pub open spec fn event_name(m: Map<i32, Seq<char>>, id: i32, own: Seq<char>) -> Seq<char> {
    if m.contains_key(id) {
        m[id]
    } else {
        own
    }
}

/// A count one higher, staying at the largest `u64`.
pub open spec fn bumped(c: Option<u64>) -> u64 {
    match c {
        Some(n) => if n < u64::MAX {
            (n + 1) as u64
        } else {
            n
        },
        None => 1u64,
    }
}

impl Parser {
    /// Reads the game-event descriptor list (field 1, each with id 1 and name 2).
    pub fn parse_game_event_list(&mut self, bytes: &Vec<u8>) -> (r: Result<(), DemoParserError>)
        requires
            old(self).wf(),
        ensures
            same_config(*old(self), *final(self)),
            r is Ok <==> event_list_ok(bytes@),
            r is Ok ==> event_list_applied(*old(self), *final(self), bytes@),
            keeps_tables(*old(self), *final(self)),
            keeps_baselines(*old(self), *final(self)),
            keeps_players(*old(self), *final(self)),
            keeps_header(*old(self), *final(self)),
            keeps_counts(*old(self), *final(self)),
            keeps_entities(*old(self), *final(self)),
            keeps_cls_bits(*old(self), *final(self)),
            final(self).wf(),
            final(self).reader == old(self).reader,
            final(self).tick == old(self).tick,
            final(self).game_events_counter@ == old(self).game_events_counter@,
            match pb_fields(bytes@) {
                None => r == Err::<(), DemoParserError>(DemoParserError::MalformedMessage),
                Some(fs) => match event_list(fs) {
                    None => r == Err::<(), DemoParserError>(DemoParserError::MalformedMessage),
                    Some(ds) => r is Ok && descriptor_entries(final(self).ge_list) == descriptors_fold(
                        descriptor_entries(old(self).ge_list),
                        ds,
                    ),
                },
            },
    {
        let fs = parse_message(bytes)?;
        let ghost fv = fields_view(fs@);
        let ghost old_ds = descriptor_entries(self.ge_list);
        let ghost mut added: Seq<(i32, Seq<char>)> = Seq::empty();
        let mut i: usize = 0;
        proof {
            assert(fv.subrange(0, 0) =~= Seq::<PbFieldView>::empty());
        }
        while i < fs.len()
            invariant
                same_config(*old(self), *self),
                keeps_tables(*old(self), *self),
                keeps_baselines(*old(self), *self),
                keeps_players(*old(self), *self),
                keeps_header(*old(self), *self),
                keeps_counts(*old(self), *self),
                keeps_entities(*old(self), *self),
                keeps_cls_bits(*old(self), *self),
                i <= fs@.len(),
                fv == fields_view(fs@),
                pb_fields(bytes@) == Some(fv),
                self.wf(),
                self.reader == old(self).reader,
                self.tick == old(self).tick,
                self.game_events_counter@ == old(self).game_events_counter@,
                old_ds == descriptor_entries(old(self).ge_list),
                event_list(fv.subrange(0, i as int)) == Some(added),
                descriptor_entries(self.ge_list) == descriptors_fold(old_ds, added),
            decreases fs@.len() - i,
        {
            proof {
                assert(fv.subrange(0, i + 1).drop_last() =~= fv.subrange(0, i as int));
                assert(fv.subrange(0, i + 1).last() == fs@[i as int]@);
            }
            if fs[i].number == 1 && fs[i].wire == 2 {
                let d = match parse_message(&fs[i].bytes) {
                    Ok(d) => d,
                    Err(e) => {
                        proof {
                            let sub = fv.subrange(0, i + 1);
                            assert(sub.last().3 == fs@[i as int].bytes@);
                            assert(pb_fields(sub.last().3) is None);
                            assert(event_list(sub) is None);
                            lemma_event_list_prefix_none(fv, i + 1);
                            assert(fv.subrange(0, fv.len() as int) =~= fv);
                        }
                        return Err(e);
                    },
                };
                let name = lossy_string(&get_bytes(&d, 2));
                let eventid = #[verifier::truncate] (get_int(&d, 1, 0) as i32);
                let entry = EventDescriptor { eventid, name };
                let ghost ev = (entry.eventid, entry.name@);
                descriptors_insert(&mut self.ge_list, eventid, entry);
                proof {
                    let prev_added = added;
                    added = added.push(ev);
                    assert(added.drop_last() =~= prev_added);
                }
            }
            i = i + 1;
        }
        proof {
            assert(fv.subrange(0, fv.len() as int) =~= fv);
        }
        Ok(())
    }

    /// Counts one game event by the name of its descriptor (event id is field 2); an
    /// event whose id has no descriptor is counted under its own name (field 1).
    pub fn parse_event(&mut self, bytes: &Vec<u8>) -> (r: Result<(), DemoParserError>)
        requires
            old(self).wf(),
        ensures
            same_config(*old(self), *final(self)),
            r is Ok <==> pb_fields(bytes@) is Some,
            r is Ok ==> event_applied(*old(self), *final(self), bytes@),
            keeps_tables(*old(self), *final(self)),
            keeps_baselines(*old(self), *final(self)),
            keeps_players(*old(self), *final(self)),
            keeps_header(*old(self), *final(self)),
            keeps_descriptors(*old(self), *final(self)),
            keeps_entities(*old(self), *final(self)),
            keeps_cls_bits(*old(self), *final(self)),
            final(self).wf(),
            final(self).reader == old(self).reader,
            final(self).tick == old(self).tick,
            final(self).ge_list == old(self).ge_list,
            match pb_fields(bytes@) {
                None => r == Err::<(), DemoParserError>(DemoParserError::MalformedMessage),
                Some(fs) => {
                    let n = event_name(
                        descriptor_entries(old(self).ge_list),
                        #[verifier::truncate] (pb_int(fs, 2, 0) as i32),
                        utf8_lossy_of(pb_bytes(fs, 1)),
                    );
                    &&& r is Ok
                    &&& count_of(final(self).game_events_counter@, n) == Some(
                        bumped(count_of(old(self).game_events_counter@, n)),
                    )
                    &&& forall|k: Seq<char>|
                        k != n ==> #[trigger] count_of(final(self).game_events_counter@, k)
                            == count_of(old(self).game_events_counter@, k)
                },
            },
    {
        let fs = parse_message(bytes)?;
        let id = #[verifier::truncate] (get_int(&fs, 2, 0) as i32);
        let name = match descriptors_get_name(&self.ge_list, id) {
            Some(n) => n,
            None => lossy_string(&get_bytes(&fs, 1)),
        };
        count_event(&mut self.game_events_counter, name);
        Ok(())
    }
}

} // verus!
