//! The ordered history of probes.
//!
//! Records are kept in the order in which they were sent, which is also the
//! strictly ascending order of their send times. That order makes send times
//! unique and lets every lookup by time be a binary search.
use crate::events::NetupEvent;
use crate::export::{csv_encode_record, export_text, header_row, record_row, rows_text};
use vstd::prelude::*;
use vstd::slice::slice_subrange;

verus! {

/// One probe as the history knows it.
#[derive(Clone, Copy, Debug, PartialEq, Eq, Structural)]
pub struct TrackedMessage {
    pub idx: u64,
    pub snt_time: u128,
    /// Absent until the echo has come back.
    pub rcv_time: Option<u128>,
}

impl TrackedMessage {
    /// A probe that was sent and has not been answered yet.
    pub fn new(idx: u64, snt_time: u128) -> (msg: Self)
        ensures
            msg == (TrackedMessage { idx, snt_time, rcv_time: None }),
    {
        TrackedMessage { idx, snt_time, rcv_time: None }
    }

    /// The same probe with its echo recorded.
    pub open spec fn received_at(self, rcv_time: u128) -> TrackedMessage {
        TrackedMessage { idx: self.idx, snt_time: self.snt_time, rcv_time: Some(rcv_time) }
    }

    /// The probe counts as lost to someone who looks at time `now`: its echo
    /// did not come within `max_delay` of sending. That is so where no echo
    /// has come and more than `max_delay` has passed since it was sent, and
    /// where the echo took longer than `max_delay`.
    pub open spec fn is_lost_at(self, now: u128, max_delay: u128) -> bool {
        match self.rcv_time {
            Some(rcv_time) => rcv_time - self.snt_time > max_delay,
            None => now - self.snt_time > max_delay,
        }
    }

    /// Whether the probe counts as lost at time `now`.
    pub fn is_lost(&self, now: u128, max_delay: u128) -> (lost: bool)
        ensures
            lost == self.is_lost_at(now, max_delay),
    {
        let seen = match self.rcv_time {
            Some(rcv_time) => rcv_time,
            None => now,
        };
        seen > self.snt_time && seen - self.snt_time > max_delay
    }
}

/// The test that a probe counts as lost at `now`.
pub open spec fn lost_at(now: u128, max_delay: u128) -> spec_fn(TrackedMessage) -> bool {
    |msg: TrackedMessage| msg.is_lost_at(now, max_delay)
}

/// How `SortedMessages::find` reads its target time.
#[derive(Clone, Copy, Debug, PartialEq, Eq, Structural)]
pub enum FindMode {
    /// The record sent exactly then.
    Exact,
    /// The last record sent then or earlier.
    LowerBound,
    /// The first record sent later.
    UpperBound,
}

/// Send times grow strictly from each record to the next.
pub open spec fn strictly_ascending(records: Seq<TrackedMessage>) -> bool {
    forall|i: int, j: int| 0 <= i < j < records.len() ==> records[i].snt_time < records[j].snt_time
}

/// `p` parts the records into those sent at `time` or earlier, before `p`,
/// and those sent later, from `p` on.
pub open spec fn is_ceiling(records: Seq<TrackedMessage>, time: u128, p: int) -> bool {
    &&& 0 <= p <= records.len()
    &&& forall|i: int| 0 <= i < p ==> records[i].snt_time <= time
    &&& forall|i: int| p <= i < records.len() ==> records[i].snt_time > time
}

/// The number of records sent at `time` or earlier. In ascending records
/// that is the position of the first record sent later, or the length where
/// there is none.
pub open spec fn ceiling_of(records: Seq<TrackedMessage>, time: u128) -> int
    decreases records.len(),
{
    if records.len() == 0 {
        0
    } else if records.last().snt_time <= time {
        ceiling_of(records.drop_last(), time) + 1
    } else {
        ceiling_of(records.drop_last(), time)
    }
}

/// What `find` returns, as a function of the records.
pub open spec fn find_position(records: Seq<TrackedMessage>, time: u128, mode: FindMode) -> Option<
    int,
> {
    let ceiling = ceiling_of(records, time);
    match mode {
        FindMode::UpperBound => Some(ceiling),
        FindMode::LowerBound => if ceiling == 0 {
            Some(0)
        } else {
            Some(ceiling - 1)
        },
        FindMode::Exact => if ceiling > 0 && records[ceiling - 1].snt_time == time {
            Some(ceiling - 1)
        } else {
            None
        },
    }
}

/// The test that a record was sent within `lower` and `upper`, both included.
pub open spec fn in_window(lower: u128, upper: u128) -> spec_fn(TrackedMessage) -> bool {
    |msg: TrackedMessage| lower <= msg.snt_time <= upper
}

/// The records sent within `lower` and `upper`, both included, in order.
pub open spec fn window(records: Seq<TrackedMessage>, lower: u128, upper: u128) -> Seq<
    TrackedMessage,
> {
    records.filter(in_window(lower, upper))
}

/// `i` is the position of the first record that carries the index `idx`.
pub open spec fn is_first_with_index(records: Seq<TrackedMessage>, i: int, idx: u64) -> bool {
    &&& 0 <= i < records.len()
    &&& records[i].idx == idx
    &&& forall|j: int| 0 <= j < i ==> records[j].idx != idx
}

/// The records after an echo of probe `idx` was seen at `rcv_time`: the first
/// record with that index has the time filled in, all others are as before.
pub open spec fn mark_received(records: Seq<TrackedMessage>, idx: u64, rcv_time: u128) -> Seq<
    TrackedMessage,
> {
    Seq::new(
        records.len(),
        |i: int|
            if is_first_with_index(records, i, idx) {
                records[i].received_at(rcv_time)
            } else {
                records[i]
            },
    )
}

/// The records that an export still owes: those sent after `watermark`.
pub open spec fn pending(records: Seq<TrackedMessage>, watermark: u128) -> Seq<TrackedMessage> {
    records.subrange(ceiling_of(records, watermark), records.len() as int)
}

/// The watermark after an export: the send time of the last record written,
/// or the old mark where nothing was owed.
pub open spec fn watermark_after_export(records: Seq<TrackedMessage>, watermark: u128) -> u128 {
    if pending(records, watermark).len() == 0 {
        watermark
    } else {
        records.last().snt_time
    }
}

/// The history after `added` was added to `start`, record by record.
pub open spec fn after_adds(start: Seq<TrackedMessage>, added: Seq<TrackedMessage>) -> Seq<
    TrackedMessage,
>
    decreases added.len(),
{
    if added.len() == 0 {
        start
    } else {
        after_adds(start, added.drop_last()).push(added.last())
    }
}

/// The records after an event was taken in. A probe that was sent is added
/// where its send time lies after the last record's; an echo is entered with
/// the probe it belongs to. Any other event leaves the records as they are.
pub open spec fn after_event(records: Seq<TrackedMessage>, event: NetupEvent) -> Seq<
    TrackedMessage,
> {
    match event {
        NetupEvent::MessageSent(sent) => if records.len() == 0 || records.last().snt_time
            < sent.snt_time {
            records.push(TrackedMessage { idx: sent.idx, snt_time: sent.snt_time, rcv_time: None })
        } else {
            records
        },
        NetupEvent::MessageReceived(received) => mark_received(
            records,
            received.idx,
            received.rcv_time,
        ),
    }
}

/// In ascending records `ceiling_of` is the one position that parts them at
/// `time`.
pub proof fn lemma_ceiling_of(records: Seq<TrackedMessage>, time: u128)
    requires
        strictly_ascending(records),
    ensures
        is_ceiling(records, time, ceiling_of(records, time)),
        forall|p: int| is_ceiling(records, time, p) ==> p == ceiling_of(records, time),
    decreases records.len(),
{
    if records.len() > 0 {
        let front = records.drop_last();
        lemma_ceiling_of(front, time);
        let c = ceiling_of(front, time);
        if records.last().snt_time <= time {
            if c < front.len() {
                assert(front[c].snt_time == records[c].snt_time);
                assert(records[c].snt_time < records[records.len() - 1].snt_time);
            }
            assert(is_ceiling(records, time, records.len() as int));
        } else {
            assert(is_ceiling(records, time, c)) by {
                assert forall|i: int| c <= i < records.len() implies records[i].snt_time
                    > time by {
                    if i < front.len() {
                        assert(front[i].snt_time > time);
                    }
                }
                assert forall|i: int| 0 <= i < c implies records[i].snt_time <= time by {
                    assert(front[i].snt_time <= time);
                }
            }
        }
    }
    let c = ceiling_of(records, time);
    assert forall|p: int| is_ceiling(records, time, p) implies p == c by {
        if p < c {
            assert(records[p].snt_time > time);
            assert(records[p].snt_time <= time);
        } else if c < p {
            assert(records[c].snt_time > time);
            assert(records[c].snt_time <= time);
        }
    }
}

/// Where the positions `a` to `b` hold exactly the records of the window,
/// the window is that stretch of the records.
proof fn lemma_window_is_subrange(
    records: Seq<TrackedMessage>,
    lower: u128,
    upper: u128,
    a: int,
    b: int,
)
    requires
        0 <= a <= b <= records.len(),
        forall|i: int|
            0 <= i < records.len() ==> ((a <= i < b) <==> (lower <= (#[trigger] records[i]).snt_time
                && records[i].snt_time <= upper)),
    ensures
        window(records, lower, upper) == records.subrange(a, b),
    decreases records.len(),
{
    reveal(Seq::filter);
    if records.len() == 0 {
        assert(records.subrange(a, b) =~= records);
    } else {
        let n = records.len() as int;
        let front = records.drop_last();
        let a1 = if a < n { a } else { n - 1 };
        let b1 = if b < n { b } else { n - 1 };
        assert forall|i: int| 0 <= i < front.len() implies ((a1 <= i < b1) <==> (lower <= (
        #[trigger] front[i]).snt_time && front[i].snt_time <= upper)) by {
            assert(front[i] == records[i]);
        }
        lemma_window_is_subrange(front, lower, upper, a1, b1);
        if a < n && b == n {
            assert(records.subrange(a, b) =~= front.subrange(a1, b1).push(records.last()));
        } else {
            assert(records.subrange(a, b) =~= front.subrange(a1, b1));
        }
    }
}

/// The history of probes, ordered by send time, with the mark up to which it
/// has been exported.
pub struct SortedMessages {
    messages: Vec<TrackedMessage>,
    last_saved: u128,
}

impl View for SortedMessages {
    type V = Seq<TrackedMessage>;

    closed spec fn view(&self) -> Seq<TrackedMessage> {
        self.messages@
    }
}

impl Default for SortedMessages {
    /// The empty history, with nothing exported.
    fn default() -> (store: Self)
        ensures
            store.wf(),
            store@ == Seq::<TrackedMessage>::empty(),
            store.watermark() == 0,
    {
        SortedMessages { messages: Vec::new(), last_saved: 0 }
    }
}

impl SortedMessages {
    /// The send time of the last record that was exported; zero before the
    /// first export.
    pub closed spec fn watermark(&self) -> u128 {
        self.last_saved
    }

    /// The records are in strictly ascending order of send time.
    pub open spec fn wf(&self) -> bool {
        strictly_ascending(self@)
    }

    /// The number of records.
    pub fn len(&self) -> (n: usize)
        ensures
            n == self@.len(),
    {
        self.messages.len()
    }

    /// All records, in order.
    pub fn messages(&self) -> (all: &[TrackedMessage])
        ensures
            all@ == self@,
    {
        self.messages.as_slice()
    }

    /// The send time up to which the history has been exported.
    pub fn last_saved(&self) -> (mark: u128)
        ensures
            mark == self.watermark(),
    {
        self.last_saved
    }

    /// Whether a record sent at `snt_time` may be added: the history is empty
    /// or its last record was sent earlier.
    pub fn can_add(&self, snt_time: u128) -> (ok: bool)
        ensures
            ok == (self@.len() == 0 || self@.last().snt_time < snt_time),
    {
        let n = self.messages.len();
        n == 0 || self.messages[n - 1].snt_time < snt_time
    }

    /// Appends a record. The record must have been sent after the last one
    /// stored: probes come from one sender, in the order of its clock.
    pub fn add(&mut self, msg: TrackedMessage)
        requires
            old(self).wf(),
            old(self)@.len() == 0 || old(self)@.last().snt_time < msg.snt_time,
        ensures
            final(self).wf(),
            final(self)@ == old(self)@.push(msg),
            final(self).watermark() == old(self).watermark(),
    {
        self.messages.push(msg);
    }

    /// Records the echo of probe `idx`: the first record with that index gets
    /// `rcv_time`. Where no record has the index nothing changes.
    pub fn update(&mut self, idx: u64, rcv_time: u128)
        requires
            old(self).wf(),
        ensures
            final(self).wf(),
            final(self)@ == mark_received(old(self)@, idx, rcv_time),
            final(self).watermark() == old(self).watermark(),
    {
        let n = self.messages.len();
        let mut i: usize = 0;
        while i < n
            invariant
                i <= n,
                n == self.messages@.len(),
                self.messages@ == old(self).messages@,
                self.last_saved == old(self).last_saved,
                strictly_ascending(old(self).messages@),
                forall|j: int| 0 <= j < i ==> self.messages@[j].idx != idx,
            decreases n - i,
        {
            if self.messages[i].idx == idx {
                let found = self.messages[i];
                self.messages.set(
                    i,
                    TrackedMessage {
                        idx: found.idx,
                        snt_time: found.snt_time,
                        rcv_time: Some(rcv_time),
                    },
                );
                assert(is_first_with_index(old(self)@, i as int, idx));
                assert(self@ =~= mark_received(old(self)@, idx, rcv_time));
                assert forall|a: int, b: int| 0 <= a < b < self@.len() implies self@[a].snt_time
                    < self@[b].snt_time by {
                    assert(old(self)@[a].snt_time < old(self)@[b].snt_time);
                }
                return ;
            }
            i = i + 1;
        }
        assert(self@ =~= mark_received(old(self)@, idx, rcv_time));
    }

    /// Takes in one event of the client. The result says whether the event
    /// was in order: it is `false` for a probe whose send time does not lie
    /// after the last record's, which then is not added. An echo is always in
    /// order, also where no probe matches it.
    pub fn record(&mut self, event: NetupEvent) -> (in_order: bool)
        requires
            old(self).wf(),
        ensures
            final(self).wf(),
            final(self)@ == after_event(old(self)@, event),
            final(self).watermark() == old(self).watermark(),
            in_order == (event matches NetupEvent::MessageSent(sent) ==> old(self)@.len() == 0
                || old(self)@.last().snt_time < sent.snt_time),
    {
        match event {
            NetupEvent::MessageSent(sent) => {
                if !self.can_add(sent.snt_time) {
                    return false;
                }
                self.add(TrackedMessage::new(sent.idx, sent.snt_time));
            },
            NetupEvent::MessageReceived(received) => {
                self.update(received.idx, received.rcv_time);
            },
        }
        true
    }

    /// Looks a send time up by binary search.
    ///
    /// `Exact` gives the position of the record sent at `snt_time`, or `None`
    /// where there is none. `LowerBound` gives the position of the last record
    /// sent at `snt_time` or earlier, and position 0 where every record was
    /// sent later or the history is empty. `UpperBound` gives the position of
    /// the first record sent after `snt_time`, and the length of the history
    /// where there is none.
    pub fn find(&self, snt_time: u128, mode: FindMode) -> (found: Option<usize>)
        requires
            self.wf(),
        ensures
            match found {
                Some(p) => find_position(self@, snt_time, mode) == Some(p as int),
                None => find_position(self@, snt_time, mode) is None,
            },
            mode == FindMode::UpperBound ==> found is Some && is_ceiling(
                self@,
                snt_time,
                found->0 as int,
            ),
            mode == FindMode::LowerBound ==> found is Some && (if exists|i: int|
                0 <= i < self@.len() && self@[i].snt_time <= snt_time {
                is_ceiling(self@, snt_time, found->0 + 1)
            } else {
                found->0 == 0
            }),
            mode == FindMode::Exact ==> (match found {
                Some(p) => p < self@.len() && self@[p as int].snt_time == snt_time,
                None => forall|i: int| 0 <= i < self@.len() ==> self@[i].snt_time != snt_time,
            }),
    {
        let mut lower: usize = 0;
        let mut upper: usize = self.messages.len();
        while lower < upper
            invariant
                lower <= upper <= self.messages@.len(),
                forall|i: int| 0 <= i < lower ==> self.messages@[i].snt_time <= snt_time,
                forall|i: int|
                    upper <= i < self.messages@.len() ==> self.messages@[i].snt_time > snt_time,
                strictly_ascending(self.messages@),
            decreases upper - lower,
        {
            let middle = lower + (upper - lower) / 2;
            if self.messages[middle].snt_time > snt_time {
                upper = middle;
            } else {
                lower = middle + 1;
            }
        }
        proof {
            lemma_ceiling_of(self@, snt_time);
            assert(is_ceiling(self@, snt_time, lower as int));
        }
        match mode {
            FindMode::UpperBound => Some(lower),
            FindMode::LowerBound => {
                if lower == 0 {
                    Some(0)
                } else {
                    assert(self@[lower - 1].snt_time <= snt_time);
                    Some(lower - 1)
                }
            },
            FindMode::Exact => {
                if lower > 0 && self.messages[lower - 1].snt_time == snt_time {
                    Some(lower - 1)
                } else {
                    assert forall|i: int| 0 <= i < self@.len() implies self@[i].snt_time
                        != snt_time by {
                        if i < lower - 1 {
                            assert(self@[i].snt_time < self@[lower - 1].snt_time);
                        }
                    }
                    None
                }
            },
        }
    }

    /// The records sent within `lower` and `upper`, both included, in order.
    /// The slice borrows the history, so it lasts until the next change.
    pub fn get(&self, lower: u128, upper: u128) -> (out: &[TrackedMessage])
        requires
            self.wf(),
        ensures
            out@ == window(self@, lower, upper),
    {
        let all = self.messages.as_slice();
        let n = self.messages.len();
        let floor = match self.find(lower, FindMode::LowerBound) {
            Some(p) => p,
            None => 0,
        };
        // The floor itself belongs to the window only if it was sent at `lower`.
        let start = if floor < n && self.messages[floor].snt_time < lower {
            floor + 1
        } else {
            floor
        };
        let end = match self.find(upper, FindMode::UpperBound) {
            Some(p) => p,
            None => n,
        };
        let stop = if end < start {
            start
        } else {
            end
        };
        proof {
            let records = self@;
            assert forall|i: int| 0 <= i < records.len() implies ((start <= i < stop) <==> (lower
                <= (#[trigger] records[i]).snt_time && records[i].snt_time <= upper)) by {
                if i < start {
                    if i < floor {
                        assert(records[i].snt_time < records[floor as int].snt_time);
                    }
                }
                if i >= start && start < records.len() {
                    if start < i {
                        assert(records[start as int].snt_time < records[i].snt_time);
                    }
                }
            }
            lemma_window_is_subrange(records, lower, upper, start as int, stop as int);
        }
        slice_subrange(all, start, stop)
    }

    /// The records that count as lost at time `now`, in order.
    pub fn lost(&self, now: u128, max_delay: u128) -> (out: Vec<TrackedMessage>)
        ensures
            out@ == self@.filter(lost_at(now, max_delay)),
    {
        let mut out: Vec<TrackedMessage> = Vec::new();
        let n = self.messages.len();
        let mut i: usize = 0;
        proof {
            reveal(Seq::filter);
            assert(self@.subrange(0, 0) =~= Seq::<TrackedMessage>::empty());
        }
        while i < n
            invariant
                i <= n,
                n == self.messages@.len(),
                out@ == self.messages@.subrange(0, i as int).filter(lost_at(now, max_delay)),
            decreases n - i,
        {
            let msg = self.messages[i];
            proof {
                reveal(Seq::filter);
                let next = self.messages@.subrange(0, i + 1);
                assert(next.drop_last() =~= self.messages@.subrange(0, i as int));
                assert(next.last() == msg);
            }
            if msg.is_lost(now, max_delay) {
                out.push(msg);
            }
            i = i + 1;
        }
        assert(self.messages@.subrange(0, n as int) =~= self.messages@);
        out
    }

    /// The records that the next export will write: those sent after the
    /// watermark.
    pub fn unsaved(&self) -> (out: &[TrackedMessage])
        requires
            self.wf(),
        ensures
            out@ == pending(self@, self.watermark()),
    {
        let n = self.messages.len();
        let first = match self.find(self.last_saved, FindMode::UpperBound) {
            Some(p) => p,
            None => n,
        };
        slice_subrange(self.messages.as_slice(), first, n)
    }

    /// Exports what is new. The result is the text to put into the export
    /// file: the header row unless `append` says that the file already holds
    /// earlier output, then one row for each record sent after the
    /// watermark, oldest first. The watermark moves to the last record
    /// written, so the next export starts behind it and a second export
    /// without new records writes no row.
    ///
    /// The rows are written by the `csv` crate into memory, where it has no
    /// error to report: the result is always `Some`.
    pub fn write_to_file(&mut self, append: bool) -> (out: Option<Vec<u8>>)
        requires
            old(self).wf(),
        ensures
            out is Some,
            out->0@ == export_text(pending(old(self)@, old(self).watermark()), append),
            final(self).wf(),
            final(self)@ == old(self)@,
            final(self).watermark() == watermark_after_export(old(self)@, old(self).watermark()),
            pending(final(self)@, final(self).watermark()).len() == 0,
    {
        let mut text: Vec<u8> = Vec::new();
        if !append {
            let header = header_row();
            match csv_encode_record(&header) {
                Some(mut line) => text.append(&mut line),
                None => return None,
            }
        }
        let n = self.messages.len();
        let first = match self.find(self.last_saved, FindMode::UpperBound) {
            Some(p) => p,
            None => n,
        };
        let mut i: usize = first;
        assert(self.messages@.subrange(first as int, first as int) =~= Seq::<
            TrackedMessage,
        >::empty());
        while i < n
            invariant
                first <= i <= n,
                n == self.messages@.len(),
                self.messages@ == old(self).messages@,
                self.last_saved == old(self).last_saved,
                strictly_ascending(self.messages@),
                first as int == ceiling_of(self.messages@, self.last_saved),
                text@ == export_text(self.messages@.subrange(first as int, i as int), append),
            decreases n - i,
        {
            let row = record_row(&self.messages[i]);
            match csv_encode_record(&row) {
                Some(mut line) => text.append(&mut line),
                None => return None,
            }
            proof {
                let next = self.messages@.subrange(first as int, i + 1);
                assert(next.drop_last() =~= self.messages@.subrange(first as int, i as int));
                assert(next.last() == self.messages@[i as int]);
            }
            i = i + 1;
        }
        if first < n {
            self.last_saved = self.messages[n - 1].snt_time;
        }
        proof {
            lemma_export_is_idempotent(old(self)@, old(self).watermark());
        }
        Some(text)
    }

    /// Empties the history ahead of a reload. The watermark stays.
    pub fn load_from_file(&mut self)
        ensures
            final(self).wf(),
            final(self)@ == Seq::<TrackedMessage>::empty(),
            final(self).watermark() == old(self).watermark(),
    {
        self.messages.clear();
    }
}

/// Adding records in the order of their send times builds exactly that
/// sequence of records, and each addition is one that `add` permits.
pub proof fn lemma_after_adds(added: Seq<TrackedMessage>)
    requires
        strictly_ascending(added),
    ensures
        after_adds(Seq::empty(), added) == added,
        forall|k: int|
            0 <= k < added.len() ==> {
                let before = #[trigger] after_adds(Seq::empty(), added.subrange(0, k));
                before.len() == 0 || before.last().snt_time < added[k].snt_time
            },
    decreases added.len(),
{
    if added.len() == 0 {
        assert(after_adds(Seq::empty(), added) =~= added);
    } else {
        let front = added.drop_last();
        lemma_after_adds(front);
        assert(after_adds(Seq::empty(), added) =~= added);
        assert forall|k: int| 0 <= k < added.len() implies {
            let before = #[trigger] after_adds(Seq::empty(), added.subrange(0, k));
            before.len() == 0 || before.last().snt_time < added[k].snt_time
        } by {
            let part = added.subrange(0, k);
            lemma_after_adds(part);
            if k > 0 {
                assert(part.last() == added[k - 1]);
            }
        }
    }
}

/// After any run of additions with strictly growing send times, an exact
/// lookup of the send time of the record added in place `i` gives position
/// `i`, and an exact lookup of a time at which none was added gives nothing.
pub proof fn lemma_exact_find_after_adds(added: Seq<TrackedMessage>, time: u128)
    requires
        strictly_ascending(added),
    ensures
        forall|i: int|
            0 <= i < added.len() ==> find_position(
                after_adds(Seq::empty(), added),
                #[trigger] added[i].snt_time,
                FindMode::Exact,
            ) == Some(i),
        (forall|i: int| 0 <= i < added.len() ==> added[i].snt_time != time) ==> find_position(
            after_adds(Seq::empty(), added),
            time,
            FindMode::Exact,
        ) is None,
{
    lemma_after_adds(added);
    assert forall|i: int| 0 <= i < added.len() implies find_position(
        added,
        #[trigger] added[i].snt_time,
        FindMode::Exact,
    ) == Some(i) by {
        lemma_ceiling_of(added, added[i].snt_time);
        assert(is_ceiling(added, added[i].snt_time, i + 1)) by {
            assert forall|j: int| 0 <= j < i + 1 implies added[j].snt_time
                <= added[i].snt_time by {
                if j < i {
                    assert(added[j].snt_time < added[i].snt_time);
                }
            }
        }
    }
    lemma_ceiling_of(added, time);
}

/// An export leaves nothing behind for the next one: with the watermark that
/// an export sets, no record is pending, an appending export writes no byte,
/// and the watermark stays where it is.
pub proof fn lemma_export_is_idempotent(records: Seq<TrackedMessage>, watermark: u128)
    requires
        strictly_ascending(records),
    ensures
        pending(records, watermark_after_export(records, watermark)).len() == 0,
        export_text(pending(records, watermark_after_export(records, watermark)), true).len() == 0,
        watermark_after_export(records, watermark_after_export(records, watermark))
            == watermark_after_export(records, watermark),
{
    let mark = watermark_after_export(records, watermark);
    lemma_ceiling_of(records, watermark);
    lemma_ceiling_of(records, mark);
    if pending(records, watermark).len() > 0 {
        assert(is_ceiling(records, mark, records.len() as int)) by {
            assert forall|i: int| 0 <= i < records.len() implies records[i].snt_time <= mark by {
                if i < records.len() - 1 {
                    assert(records[i].snt_time < records[records.len() - 1].snt_time);
                }
            }
        }
    }
    assert(pending(records, mark) =~= Seq::<TrackedMessage>::empty());
}

/// The records that an export writes are exactly those sent after the
/// watermark.
pub proof fn lemma_pending_is_after_watermark(records: Seq<TrackedMessage>, watermark: u128)
    requires
        strictly_ascending(records),
    ensures
        forall|i: int|
            0 <= i < records.len() ==> (ceiling_of(records, watermark) <= i <==> (
            #[trigger] records[i]).snt_time > watermark),
{
    lemma_ceiling_of(records, watermark);
}

} // verus!
