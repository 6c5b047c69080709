//! The bounded history of job events and the decisions behind replaying it
//! to a subscriber that resumes from a cursor.
use vstd::prelude::*;
use std::collections::VecDeque;

use crate::job_model::JobId;
use crate::numbers::{digits_spec, format_unsigned, parse_u64, parse_u64_spec};
use crate::text::{concat_str, split_once, split_once_spec, str_equal};

verus! {

broadcast use vstd::string::group_string_axioms;

/// The kind of a job event, which is also its SSE event name.
#[derive(Debug, Clone, Copy, PartialEq, Eq, Structural)]
pub enum EventKind {
    State,
    Progress,
    Completion,
    Review,
}

pub open spec fn event_kind_name(kind: EventKind) -> Seq<char> {
    match kind {
        EventKind::State => "state"@,
        EventKind::Progress => "progress"@,
        EventKind::Completion => "completion"@,
        EventKind::Review => "review"@,
    }
}

impl EventKind {
    pub fn as_str(self) -> (name: &'static str)
        ensures
            name@ == event_kind_name(self),
    {
        match self {
            EventKind::State => "state",
            EventKind::Progress => "progress",
            EventKind::Completion => "completion",
            EventKind::Review => "review",
        }
    }
}

/// A published event: its sequence number, job, kind and JSON payload.
#[derive(Debug)]
pub struct JobEvent {
    pub sequence: u64,
    pub job_id: JobId,
    pub kind: EventKind,
    pub data: String,
}

/// An event as a value: sequence, job id, kind and payload text.
pub type EventView = (u64, i64, EventKind, Seq<char>);

impl JobEvent {
    pub open spec fn view_event(&self) -> EventView {
        (self.sequence, self.job_id.id(), self.kind, self.data@)
    }
}

impl Clone for JobEvent {
    fn clone(&self) -> (copy: Self)
        ensures
            copy.view_event() == self.view_event(),
    {
        JobEvent {
            sequence: self.sequence,
            job_id: self.job_id,
            kind: self.kind,
            data: self.data.clone(),
        }
    }
}

/// Why a subscription or a publish was refused.
#[derive(Debug, Clone, Copy, PartialEq, Eq, Structural)]
pub enum SubscribeError {
    Expired,
    Invalid,
    SequenceExhausted,
}

/// The events of a list, as values.
pub open spec fn events_view(events: Seq<JobEvent>) -> Seq<EventView> {
    events.map_values(|e: JobEvent| e.view_event())
}

/// The last `capacity` events of `events`.
pub open spec fn keep_last(events: Seq<EventView>, capacity: nat) -> Seq<EventView> {
    if events.len() > capacity {
        events.skip(events.len() - capacity)
    } else {
        events
    }
}

/// A well-formed history: within its capacity, with strictly increasing
/// positive sequence numbers, the newest being the last one handed out.
pub open spec fn history_well_formed(events: Seq<EventView>, capacity: nat, next_sequence: u64) -> bool {
    &&& capacity > 0
    &&& events.len() <= capacity
    &&& forall|i: int, j: int| 0 <= i < j < events.len() ==> #[trigger] events[i].0 < #[trigger] events[j].0
    &&& forall|i: int| 0 <= i < events.len() ==> 0 < #[trigger] events[i].0 <= next_sequence
    &&& events.len() > 0 ==> events.last().0 == next_sequence
}

/// Globally bounded event history of one server run.
pub struct JobEventHub {
    capacity: usize,
    epoch: String,
    next_sequence: u64,
    retained: VecDeque<JobEvent>,
}

impl JobEventHub {
    pub closed spec fn capacity_view(&self) -> nat {
        self.capacity as nat
    }

    pub closed spec fn epoch_view(&self) -> Seq<char> {
        self.epoch@
    }

    pub closed spec fn next_sequence_view(&self) -> u64 {
        self.next_sequence
    }

    pub closed spec fn events(&self) -> Seq<EventView> {
        events_view(self.retained@)
    }

    pub open spec fn wf(&self) -> bool {
        history_well_formed(self.events(), self.capacity_view(), self.next_sequence_view())
    }

    /// An empty history for a run identified by `epoch`.
    pub fn new(capacity: usize, epoch: String) -> (hub: Self)
        requires
            capacity > 0,
        ensures
            hub.wf(),
            hub.capacity_view() == capacity,
            hub.epoch_view() == epoch@,
            hub.next_sequence_view() == 0,
            hub.events().len() == 0,
    {
        let hub = JobEventHub { capacity, epoch, next_sequence: 0, retained: VecDeque::new() };
        assert(hub.events() =~= Seq::<EventView>::empty());
        hub
    }

    pub fn epoch(&self) -> (epoch: &str)
        ensures
            epoch@ == self.epoch_view(),
    {
        self.epoch.as_str()
    }

    pub fn capacity(&self) -> (capacity: usize)
        ensures
            capacity == self.capacity_view(),
    {
        self.capacity
    }

    /// The number of retained events.
    pub fn retained_len(&self) -> (len: usize)
        ensures
            len == self.events().len(),
    {
        self.retained.len()
    }

    /// Appends an event with the next sequence number and forgets the oldest
    /// events beyond the capacity. Fails, changing nothing, once every
    /// sequence number has been used.
    pub fn publish(&mut self, job_id: JobId, kind: EventKind, data: String) -> (result: Result<
        JobEvent,
        SubscribeError,
    >)
        requires
            old(self).wf(),
        ensures
            final(self).wf(),
            final(self).capacity_view() == old(self).capacity_view(),
            final(self).epoch_view() == old(self).epoch_view(),
            match result {
                Ok(e) => {
                    &&& old(self).next_sequence_view() < u64::MAX
                    &&& e.view_event() == (
                        (old(self).next_sequence_view() + 1) as u64,
                        job_id.id(),
                        kind,
                        data@,
                    )
                    &&& final(self).next_sequence_view() == old(self).next_sequence_view() + 1
                    &&& final(self).events() == keep_last(
                        old(self).events().push(e.view_event()),
                        old(self).capacity_view(),
                    )
                },
                Err(err) => {
                    &&& old(self).next_sequence_view() == u64::MAX
                    &&& err == SubscribeError::SequenceExhausted
                    &&& final(self).next_sequence_view() == old(self).next_sequence_view()
                    &&& final(self).events() == old(self).events()
                },
            },
    {
        let sequence = match self.next_sequence.checked_add(1) {
            Some(s) => s,
            None => return Err(SubscribeError::SequenceExhausted),
        };
        let ghost before = self.events();
        assert(self.epoch@ == old(self).epoch_view());
        self.next_sequence = sequence;
        let event = JobEvent { sequence, job_id, kind, data };
        let copy = event.clone();
        self.retained.push_back(copy);
        let ghost pushed = before.push(event.view_event());
        assert(self.events() =~= pushed);
        let ghost cap = self.capacity as nat;
        let ghost epoch0 = self.epoch@;
        while self.retained.len() > self.capacity
            invariant
                cap == self.capacity as nat,
                epoch0 == self.epoch@,
                self.next_sequence == sequence,
                cap > 0,
                pushed.len() <= cap + 1,
                self.events().len() == self.retained@.len(),
                self.events() == pushed || (self.events() == pushed.drop_first()
                    && pushed.len() == cap + 1),
            decreases self.retained@.len(),
        {
            let ghost prior = self.events();
            self.retained.pop_front();
            assert(self.events() =~= prior.drop_first());
            assert(prior == pushed);
        }
        proof {
            let now = self.events();
            assert(now =~= keep_last(pushed, cap));
            assert forall|i: int, j: int| 0 <= i < j < now.len() implies #[trigger] now[i].0
                < #[trigger] now[j].0 by {
                let off = pushed.len() - now.len();
                assert(now[i] == pushed[i + off]);
                assert(now[j] == pushed[j + off]);
                if j + off == pushed.len() - 1 {
                    if before.len() > 0 {
                        assert(before[i + off].0 <= before.last().0);
                    }
                } else {
                    assert(pushed[i + off] == before[i + off]);
                    assert(pushed[j + off] == before[j + off]);
                }
            }
            assert forall|i: int| 0 <= i < now.len() implies 0 < #[trigger] now[i].0
                <= sequence by {
                let off = pushed.len() - now.len();
                assert(now[i] == pushed[i + off]);
                if i + off < before.len() {
                    assert(pushed[i + off] == before[i + off]);
                }
            }
        }
        Ok(event)
    }

    /// Whether some retained event belongs to `job_id`.
    pub fn has_events_for(&self, job_id: JobId) -> (found: bool)
        ensures
            found == exists|i: int| 0 <= i < self.events().len() && #[trigger] self.events()[i].1
                == job_id.id(),
    {
        let mut i: usize = 0;
        while i < self.retained.len()
            invariant
                i <= self.retained@.len(),
                forall|j: int| 0 <= j < i ==> #[trigger] self.events()[j].1 != job_id.id(),
            decreases self.retained@.len() - i,
        {
            assert(self.events()[i as int] == self.retained@[i as int].view_event());
            if self.retained[i].job_id.get() == job_id.get() {
                assert(self.events()[i as int].1 == job_id.id());
                return true;
            }
            i += 1;
        }
        false
    }

    /// Publishes an event for a job only if no retained event belongs to it.
    pub fn ensure_published(&mut self, job_id: JobId, kind: EventKind, data: String) -> (result:
        Result<Option<JobEvent>, SubscribeError>)
        requires
            old(self).wf(),
        ensures
            final(self).wf(),
            final(self).capacity_view() == old(self).capacity_view(),
            final(self).epoch_view() == old(self).epoch_view(),
            (exists|i: int| 0 <= i < old(self).events().len() && #[trigger] old(self).events()[i].1
                == job_id.id()) ==> result == Ok::<Option<JobEvent>, SubscribeError>(None)
                && final(self).events() == old(self).events()
                && final(self).next_sequence_view() == old(self).next_sequence_view(),
            (forall|i: int| 0 <= i < old(self).events().len() ==> #[trigger] old(self).events()[i].1
                != job_id.id()) ==> match result {
                Ok(Some(e)) => old(self).next_sequence_view() < u64::MAX && e.view_event() == (
                    (old(self).next_sequence_view() + 1) as u64,
                    job_id.id(),
                    kind,
                    data@,
                ) && final(self).next_sequence_view() == old(self).next_sequence_view() + 1
                    && final(self).events() == keep_last(
                    old(self).events().push(e.view_event()),
                    old(self).capacity_view(),
                ),
                Ok(None) => false,
                Err(err) => old(self).next_sequence_view() == u64::MAX && err
                    == SubscribeError::SequenceExhausted && final(self).events()
                    == old(self).events(),
            },
    {
        if self.has_events_for(job_id) {
            return Ok(None);
        }
        match self.publish(job_id, kind, data) {
            Ok(e) => Ok(Some(e)),
            Err(err) => Err(err),
        }
    }

    /// The retained events a new subscriber to `job_id` is replayed before it
    /// receives live ones. With a cursor from this run, only the events after
    /// it; a cursor from another run, or one older than everything retained,
    /// has expired.
    pub fn subscribe(&self, job_id: JobId, raw_cursor: Option<&str>) -> (result: Result<
        Vec<JobEvent>,
        SubscribeError,
    >)
        requires
            self.wf(),
        ensures
            match subscription_spec(
                self.epoch_view(),
                self.next_sequence_view(),
                self.events(),
                job_id.id(),
                match raw_cursor {
                    Some(c) => Some(c@),
                    None => None,
                },
            ) {
                Ok(replay) => result is Ok && events_view(result->Ok_0@) == replay,
                Err(e) => result == Err::<Vec<JobEvent>, SubscribeError>(e),
            },
    {
        let after: Option<u64> = match raw_cursor {
            None => None,
            Some(raw) => {
                let (epoch, sequence) = match parse_cursor(raw) {
                    Ok(c) => c,
                    Err(e) => return Err(e),
                };
                if !str_equal(epoch.as_str(), self.epoch.as_str()) {
                    return Err(SubscribeError::Expired);
                }
                if sequence > self.next_sequence {
                    return Err(SubscribeError::Invalid);
                }
                if self.retained.len() > 0 {
                    let next = match sequence.checked_add(1) {
                        Some(n) => n,
                        None => return Err(SubscribeError::Invalid),
                    };
                    if next < self.retained[0].sequence {
                        return Err(SubscribeError::Expired);
                    }
                }
                Some(sequence)
            },
        };
        let mut replay: Vec<JobEvent> = Vec::new();
        let mut i: usize = 0;
        let ghost all = self.events();
        assert(all.take(0) =~= Seq::<EventView>::empty());
        assert(events_view(replay@) =~= Seq::<EventView>::empty());
        while i < self.retained.len()
            invariant
                i <= self.retained@.len(),
                all == self.events(),
                events_view(replay@) == replay_spec(all.take(i as int), job_id.id(), after),
            decreases self.retained@.len() - i,
        {
            let event = &self.retained[i];
            assert(all[i as int] == event.view_event());
            assert(all.take(i + 1).drop_last() =~= all.take(i as int));
            let wanted = event.job_id.get() == job_id.get() && match after {
                None => true,
                Some(s) => event.sequence > s,
            };
            if wanted {
                let copy = event.clone();
                replay.push(copy);
                assert(events_view(replay@) =~= replay_spec(all.take(i as int), job_id.id(), after).push(
                    all[i as int],
                ));
            }
            i += 1;
        }
        assert(all.take(i as int) =~= all);
        Ok(replay)
    }
}

/// The events of `job` in `events` newer than `after`, in order.
pub open spec fn replay_spec(events: Seq<EventView>, job: i64, after: Option<u64>) -> Seq<EventView>
    decreases events.len(),
{
    if events.len() == 0 {
        seq![]
    } else {
        let rest = replay_spec(events.drop_last(), job, after);
        let e = events.last();
        if e.1 == job && match after {
            None => true,
            Some(s) => e.0 > s,
        } {
            rest.push(e)
        } else {
            rest
        }
    }
}

/// A cursor `<epoch>:<sequence>` with a non-empty epoch and a decimal sequence.
pub open spec fn cursor_spec(value: Seq<char>) -> Result<(Seq<char>, u64), SubscribeError> {
    match split_once_spec(value, ':') {
        None => Err(SubscribeError::Invalid),
        Some(parts) => if parts.0.len() == 0 {
            Err(SubscribeError::Invalid)
        } else {
            match parse_u64_spec(parts.1) {
                Some(n) => Ok((parts.0, n)),
                None => Err(SubscribeError::Invalid),
            }
        },
    }
}

/// The outcome of subscribing to `job` with an optional cursor, given the
/// run's epoch, the last sequence number handed out and the retained events.
pub open spec fn subscription_spec(
    epoch: Seq<char>,
    next_sequence: u64,
    events: Seq<EventView>,
    job: i64,
    cursor: Option<Seq<char>>,
) -> Result<Seq<EventView>, SubscribeError> {
    match cursor {
        None => Ok(replay_spec(events, job, None)),
        Some(raw) => match cursor_spec(raw) {
            Err(e) => Err(e),
            Ok(c) => if c.0 != epoch {
                Err(SubscribeError::Expired)
            } else if c.1 > next_sequence {
                Err(SubscribeError::Invalid)
            } else if events.len() > 0 && c.1 == u64::MAX {
                Err(SubscribeError::Invalid)
            } else if events.len() > 0 && c.1 + 1 < events[0].0 {
                Err(SubscribeError::Expired)
            } else {
                Ok(replay_spec(events, job, Some(c.1)))
            },
        },
    }
}

/// Splits a `<epoch>:<sequence>` cursor.
pub fn parse_cursor(value: &str) -> (cursor: Result<(String, u64), SubscribeError>)
    ensures
        match cursor_spec(value@) {
            Ok(c) => cursor is Ok && cursor->Ok_0.0@ == c.0 && cursor->Ok_0.1 == c.1,
            Err(e) => cursor == Err::<(String, u64), SubscribeError>(e),
        },
{
    let (epoch, sequence) = match split_once(value, ':') {
        Some(parts) => parts,
        None => return Err(SubscribeError::Invalid),
    };
    if epoch.as_str().is_empty() {
        return Err(SubscribeError::Invalid);
    }
    match parse_u64(sequence.as_str()) {
        Some(n) => Ok((epoch, n)),
        None => Err(SubscribeError::Invalid),
    }
}

/// The SSE id of an event: `<epoch>:<sequence>`.
pub fn event_id(epoch: &str, sequence: u64) -> (id: String)
    ensures
        id@ == epoch@ + ":"@ + digits_spec(sequence as nat, 10),
{
    let head = concat_str(epoch, ":");
    let digits = format_unsigned(sequence as u128, 10, 0);
    proof {
        assert(crate::numbers::zero_pad(digits_spec(sequence as nat, 10), 0) == digits_spec(
            sequence as nat,
            10,
        ));
    }
    concat_str(head.as_str(), digits.as_str())
}

/// The identity of a server run: the start time in nanoseconds, the process id
/// and a per-process counter, each in lower-case hexadecimal.
pub fn runtime_epoch_text(nanos: u128, process_id: u32, local: u64) -> (epoch: String)
    ensures
        epoch@ == digits_spec(nanos as nat, 16) + "-"@ + digits_spec(process_id as nat, 16) + "-"@
            + digits_spec(local as nat, 16),
{
    let a = format_unsigned(nanos, 16, 0);
    let b = format_unsigned(process_id as u128, 16, 0);
    let c = format_unsigned(local as u128, 16, 0);
    let ab = concat_str(concat_str(a.as_str(), "-").as_str(), b.as_str());
    concat_str(concat_str(ab.as_str(), "-").as_str(), c.as_str())
}

/// A published event is the newest retained one, and a subscriber to its job
/// without a cursor is replayed it last.
pub proof fn law_published_event_is_replayed(
    before: Seq<EventView>,
    capacity: nat,
    event: EventView,
)
    requires
        capacity > 0,
    ensures
        keep_last(before.push(event), capacity).last() == event,
        replay_spec(keep_last(before.push(event), capacity), event.1, None).last() == event,
        keep_last(before.push(event), capacity).len() <= capacity,
{
    let after = keep_last(before.push(event), capacity);
    assert(after.last() == event);
    assert(after.drop_last().push(event) =~= after);
}

/// However many events are published, the history never holds more than its
/// capacity, and what it holds are the newest ones in order.
pub proof fn law_history_is_bounded(hub: JobEventHub)
    requires
        hub.wf(),
    ensures
        hub.events().len() <= hub.capacity_view(),
        forall|i: int, j: int|
            0 <= i < j < hub.events().len() ==> #[trigger] hub.events()[i].0
                < #[trigger] hub.events()[j].0,
{
}

/// The id given to an event is a cursor that resumes right after it: parsing
/// `<epoch>:<sequence>` gives back the epoch and the sequence number, for
/// every epoch that is not empty and holds no `:`.
pub proof fn law_event_id_is_a_cursor(epoch: Seq<char>, sequence: u64)
    requires
        epoch.len() > 0,
        !epoch.contains(':'),
    ensures
        cursor_spec(epoch + ":"@ + digits_spec(sequence as nat, 10)) == Ok::<(Seq<char>, u64), SubscribeError>(
            (epoch, sequence),
        ),
{
    let digits = digits_spec(sequence as nat, 10);
    let text = epoch + ":"@ + digits;
    crate::numbers::lemma_decimal_round_trip(sequence as nat);
    reveal_strlit(":");
    assert(":"@ =~= seq![':']);
    let k = epoch.len() as int;
    assert(text[k] == ':');
    assert(text.contains(':'));
    assert(crate::text::first_index_of(text, ':', k)) by {
        assert forall|j: int| 0 <= j < k implies text[j] != ':' by {
            assert(text[j] == epoch[j]);
            if epoch[j] == ':' {
                assert(epoch.contains(':'));
            }
        }
    }
    let i = choose|i: int| crate::text::first_index_of(text, ':', i);
    assert(i == k) by {
        if i < k {
            assert(text[i] == epoch[i]);
            assert(epoch.contains(':'));
        } else if i > k {
            assert(text[k] != ':');
        }
    }
    assert(text.take(k) =~= epoch);
    assert(text.skip(k + 1) =~= digits);
}

} // verus!
