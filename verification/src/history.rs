//! The history of probes by index, as a display wants it: the latest state
//! of each probe, found by its index.
use crate::events::NetupEvent;
use crate::store::TrackedMessage;
use std::collections::HashMap;
use vstd::prelude::*;
use vstd::std_specs::hash::spec_hash_map_iter;
use vstd::std_specs::iter::IteratorSpec;

verus! {

broadcast use vstd::std_specs::hash::group_hash_axioms;

/// The map after probe `idx` was sent at `snt_time`: the probe is entered
/// anew, without an echo.
pub open spec fn with_sent(map: Map<u64, TrackedMessage>, idx: u64, snt_time: u128) -> Map<
    u64,
    TrackedMessage,
> {
    map.insert(idx, TrackedMessage { idx, snt_time, rcv_time: None })
}

/// The map after an echo of probe `idx` was seen at `rcv_time`. An echo of a
/// probe that the map does not know changes nothing.
pub open spec fn with_received(map: Map<u64, TrackedMessage>, idx: u64, rcv_time: u128) -> Map<
    u64,
    TrackedMessage,
> {
    if map.contains_key(idx) {
        map.insert(idx, map[idx].received_at(rcv_time))
    } else {
        map
    }
}

/// The map after one event.
pub open spec fn with_event(map: Map<u64, TrackedMessage>, event: NetupEvent) -> Map<
    u64,
    TrackedMessage,
> {
    match event {
        NetupEvent::MessageSent(sent) => with_sent(map, sent.idx, sent.snt_time),
        NetupEvent::MessageReceived(received) => with_received(
            map,
            received.idx,
            received.rcv_time,
        ),
    }
}

/// The map after a run of events, taken in order.
pub open spec fn with_events(map: Map<u64, TrackedMessage>, events: Seq<NetupEvent>) -> Map<
    u64,
    TrackedMessage,
>
    decreases events.len(),
{
    if events.len() == 0 {
        map
    } else {
        with_event(with_events(map, events.drop_last()), events.last())
    }
}

/// The probes seen so far, by index.
pub struct MessageMap {
    msgs: HashMap<u64, TrackedMessage>,
}

impl View for MessageMap {
    type V = Map<u64, TrackedMessage>;

    closed spec fn view(&self) -> Map<u64, TrackedMessage> {
        self.msgs@
    }
}

impl Default for MessageMap {
    /// The empty map.
    fn default() -> (map: Self)
        ensures
            map.wf(),
            map@ == Map::<u64, TrackedMessage>::empty(),
    {
        MessageMap { msgs: HashMap::new() }
    }
}

impl MessageMap {
    /// Every probe is filed under its own index.
    pub open spec fn wf(&self) -> bool {
        forall|idx: u64| #[trigger] self@.contains_key(idx) ==> self@[idx].idx == idx
    }

    /// Enters a probe that was sent. An earlier entry with the same index is
    /// replaced.
    pub fn add_sent(&mut self, idx: u64, snt_time: u128)
        requires
            old(self).wf(),
        ensures
            final(self).wf(),
            final(self)@ == with_sent(old(self)@, idx, snt_time),
    {
        self.msgs.insert(idx, TrackedMessage { idx, snt_time, rcv_time: None });
    }

    /// Records the echo of a probe. Where the probe is not known nothing
    /// changes.
    pub fn add_received(&mut self, idx: u64, rcv_time: u128)
        requires
            old(self).wf(),
        ensures
            final(self).wf(),
            final(self)@ == with_received(old(self)@, idx, rcv_time),
    {
        let known = match self.msgs.get(&idx) {
            Some(msg) => *msg,
            None => return ,
        };
        self.msgs.insert(
            idx,
            TrackedMessage { idx: known.idx, snt_time: known.snt_time, rcv_time: Some(rcv_time) },
        );
    }

    /// Takes in one event.
    pub fn apply(&mut self, event: NetupEvent)
        requires
            old(self).wf(),
        ensures
            final(self).wf(),
            final(self)@ == with_event(old(self)@, event),
    {
        match event {
            NetupEvent::MessageSent(sent) => self.add_sent(sent.idx, sent.snt_time),
            NetupEvent::MessageReceived(received) => self.add_received(
                received.idx,
                received.rcv_time,
            ),
        }
    }

    /// Takes in the events that have come since the last call, in order.
    pub fn collect_events(&mut self, events: &Vec<NetupEvent>)
        requires
            old(self).wf(),
        ensures
            final(self).wf(),
            final(self)@ == with_events(old(self)@, events@),
    {
        let n = events.len();
        let mut i: usize = 0;
        assert(events@.subrange(0, 0) =~= Seq::<NetupEvent>::empty());
        while i < n
            invariant
                i <= n,
                n == events@.len(),
                self.wf(),
                self@ == with_events(old(self)@, events@.subrange(0, i as int)),
            decreases n - i,
        {
            proof {
                let next = events@.subrange(0, i + 1);
                assert(next.drop_last() =~= events@.subrange(0, i as int));
                assert(next.last() == events@[i as int]);
            }
            self.apply(events[i]);
            i = i + 1;
        }
        assert(events@.subrange(0, n as int) =~= events@);
    }

    /// The state of probe `idx`, if it is known.
    pub fn get(&self, idx: u64) -> (msg: Option<TrackedMessage>)
        ensures
            msg == if self@.contains_key(idx) {
                Some(self@[idx])
            } else {
                None
            },
    {
        match self.msgs.get(&idx) {
            Some(msg) => Some(*msg),
            None => None,
        }
    }

    /// The number of probes known.
    pub fn len(&self) -> (n: usize)
        ensures
            n == self@.dom().len(),
    {
        self.msgs.len()
    }

    /// All probes known, each exactly once, in no particular order.
    pub fn iter(&self) -> (out: Vec<TrackedMessage>)
        requires
            self.wf(),
        ensures
            out@.to_set() == self@.values(),
            out@.no_duplicates(),
    {
        let mut out: Vec<TrackedMessage> = Vec::new();
        for entry in it: self.msgs.iter()
            invariant
                out@.len() == it.index(),
                forall|i: int| 0 <= i < out@.len() ==> out@[i] == *it.seq()[i].1,
        {
            out.push(*entry.1);
        }
        proof {
            let all = spec_hash_map_iter(&self.msgs).remaining();
            assert(out@.len() == all.len());
            assert forall|i: int, j: int| 0 <= i < j < out@.len() implies out@[i] != out@[j] by {
                assert(self.msgs@.contains_key(*all[i].0) && self.msgs@[*all[i].0] == *all[i].1);
                assert(self.msgs@.contains_key(*all[j].0) && self.msgs@[*all[j].0] == *all[j].1);
                assert(all[i] != all[j]);
            }
            assert(out@.to_set() =~= self@.values()) by {
                assert forall|msg: TrackedMessage| out@.to_set().contains(msg) implies self@.values().contains(msg) by {
                    let i = choose|i: int| 0 <= i < out@.len() && out@[i] == msg;
                    assert(self.msgs@.contains_key(*all[i].0) && self.msgs@[*all[i].0] == *all[i].1);
                }
                assert forall|msg: TrackedMessage| self@.values().contains(msg) implies out@.to_set().contains(msg) by {
                    let k = choose|k: u64| self.msgs@.contains_key(k) && self.msgs@[k] == msg;
                    assert(all.contains((&k, &self.msgs@[k])));
                    let i = choose|i: int| 0 <= i < all.len() && all[i] == (&k, &self.msgs@[k]);
                    assert(out@[i] == msg);
                }
            }
        }
        out
    }
}

/// An echo with no probe to match it is harmless: the map stays as it is.
pub proof fn lemma_unmatched_echo_changes_nothing(
    map: Map<u64, TrackedMessage>,
    idx: u64,
    rcv_time: u128,
)
    requires
        !map.contains_key(idx),
    ensures
        with_received(map, idx, rcv_time) == map,
{
}

} // verus!
