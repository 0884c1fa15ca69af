//! Product analytics: the events that are reported and how they are queued.
use vstd::prelude::*;

use crate::conf::PostHogConfig;
use crate::json::{empty_object, facts_of, no_facts, set_property, Fact, Property};
use crate::text::{trim_end_matches, without_trailing};

verus! {

/// `chrono::Utc::now` in RFC 3339 form. Nothing is claimed of the reading.
#[verifier::external_body]
fn now_rfc3339() -> (timestamp: String)
{
    chrono::Utc::now().to_rfc3339()
}

/// A single capture event.
#[derive(Debug)]
pub struct AnalyticsEvent {
    pub event: String,
    pub distinct_id: String,
    pub properties: serde_json::Map<String, serde_json::Value>,
    /// RFC 3339 timestamp of when the event happened, not of when it was flushed.
    pub timestamp: String,
}

impl AnalyticsEvent {
    /// What the event says of its subject, by key.
    pub open spec fn facts(self) -> Map<Seq<char>, Fact> {
        facts_of(self.properties)
    }

    /// Builds an event for the given name and distinct id, stamped now.
    pub fn new(event: &str, distinct_id: &str) -> (built: AnalyticsEvent)
        ensures
            built.event@ == event@,
            built.distinct_id@ == distinct_id@,
            built.facts() == no_facts(),
    {
        AnalyticsEvent::stamped(event, distinct_id, now_rfc3339())
    }

    /// Builds an event that happened at `timestamp`.
    pub fn stamped(event: &str, distinct_id: &str, timestamp: String) -> (built: AnalyticsEvent)
        ensures
            built.event@ == event@,
            built.distinct_id@ == distinct_id@,
            built.facts() == no_facts(),
            built.timestamp@ == timestamp@,
    {
        AnalyticsEvent {
            event: event.to_string(),
            distinct_id: distinct_id.to_string(),
            properties: empty_object(),
            timestamp,
        }
    }

    /// Attaches a property.
    pub fn with(self, key: &str, value: Property) -> (built: AnalyticsEvent)
        ensures
            built.facts() == self.facts().insert(key@, value@),
            built.event == self.event,
            built.distinct_id == self.distinct_id,
            built.timestamp == self.timestamp,
    {
        let mut built = self;
        set_property(&mut built.properties, key, value);
        built
    }

    /// Attaches a property only when there is one.
    pub fn with_opt(self, key: &str, value: Option<Property>) -> (built: AnalyticsEvent)
        ensures
            built.facts() == match value {
                Some(property) => self.facts().insert(key@, property@),
                None => self.facts(),
            },
            built.event == self.event,
            built.distinct_id == self.distinct_id,
            built.timestamp == self.timestamp,
    {
        match value {
            Some(property) => self.with(key, property),
            None => self,
        }
    }

    /// Marks this event as belonging to an anonymous actor, so that no person
    /// profile is created or updated for it.
    pub fn anonymous(self) -> (built: AnalyticsEvent)
        ensures
            built.facts() == self.facts().insert("$process_person_profile"@, Fact::Flag(false)),
            built.event == self.event,
            built.distinct_id == self.distinct_id,
            built.timestamp == self.timestamp,
    {
        self.with("$process_person_profile", Property::Flag(false))
    }
}

/// What a client that delivers events needs to run its queue.
#[derive(Debug)]
pub struct QueueSettings {
    pub capacity: usize,
    pub host: String,
    pub api_key: String,
    pub flush_interval_seconds: u64,
}

/// How the queue took an event that was offered to it.
#[derive(Clone, Copy, Debug, PartialEq, Eq, Structural)]
pub enum Enqueued {
    Accepted,
    Full,
    Closed,
}

/// An event that was dropped: the reason it is counted under, what is said of
/// it, and whether it is said at all.
#[derive(Debug)]
pub struct DropReport {
    pub reason: &'static str,
    pub message: &'static str,
    /// Events dropped so far, this one among them.
    pub dropped: u64,
    pub logged: bool,
}

/// Handle on the event queue. A disabled one discards everything.
#[derive(Debug)]
pub struct AnalyticsClient {
    pub queue: Option<QueueSettings>,
    pub dropped: u64,
}

/// Whether the drop that brings the count to `dropped` is logged: the first one
/// and then every thousandth.
pub open spec fn drop_is_logged(dropped: u64) -> bool {
    dropped == 1 || dropped % 1000 == 0
}

impl AnalyticsClient {
    /// A client that discards every event.
    pub fn disabled() -> (client: AnalyticsClient)
        ensures
            client.queue is None,
            client.dropped == 0,
    {
        AnalyticsClient { queue: None, dropped: 0 }
    }

    /// Whether events enqueued on this client will actually be delivered.
    pub fn is_enabled(&self) -> (enabled: bool)
        ensures
            enabled == self.queue is Some,
    {
        self.queue.is_some()
    }

    /// Builds a client from its configuration: disabled when no project key is
    /// configured, and otherwise with a queue that holds at least one event and
    /// is flushed no more than once a second.
    pub fn from_config(config: &PostHogConfig) -> (client: AnalyticsClient)
        ensures
            client.dropped == 0,
            client.queue is Some <==> config.enabled(),
            client.queue matches Some(queue) ==> {
                &&& queue.capacity == if config.queue_capacity == 0 {
                    1
                } else {
                    config.queue_capacity
                }
                &&& queue.host@ == without_trailing(config.host@, '/')
                &&& queue.api_key@ == config.project_api_key@
                &&& queue.flush_interval_seconds == if config.flush_interval_seconds == 0 {
                    1
                } else {
                    config.flush_interval_seconds
                }
            },
    {
        if !config.is_enabled() {
            return AnalyticsClient::disabled();
        }
        let capacity: usize = if config.queue_capacity == 0 {
            1
        } else {
            config.queue_capacity
        };
        let interval: u64 = if config.flush_interval_seconds == 0 {
            1
        } else {
            config.flush_interval_seconds
        };
        AnalyticsClient {
            queue: Some(
                QueueSettings {
                    capacity,
                    host: trim_end_matches(config.host.as_str(), '/').to_string(),
                    api_key: config.project_api_key.clone(),
                    flush_interval_seconds: interval,
                },
            ),
            dropped: 0,
        }
    }

    /// Takes note of how the queue took an event. An event is dropped, and
    /// counted, when the queue is full or closed; a disabled client counts
    /// nothing.
    pub fn capture(&mut self, outcome: Enqueued) -> (report: Option<DropReport>)
        ensures
            final(self).queue == old(self).queue,
            report is Some <==> old(self).queue is Some && outcome != Enqueued::Accepted,
            report is None ==> final(self).dropped == old(self).dropped,
            report matches Some(report) ==> {
                &&& final(self).dropped == (old(self).dropped + 1) % 0x1_0000_0000_0000_0000
                &&& report.dropped == final(self).dropped
                &&& report.logged == drop_is_logged(report.dropped)
                &&& report.reason@ == if outcome == Enqueued::Full {
                    "queue_full"@
                } else {
                    "queue_closed"@
                }
                &&& report.message@ == if outcome == Enqueued::Full {
                    queue_full_message()
                } else {
                    queue_closed_message()
                }
            },
    {
        if self.queue.is_none() {
            return None;
        }
        let (reason, message) = match outcome {
            Enqueued::Accepted => {
                return None;
            },
            Enqueued::Full => (
                "queue_full",
                "PostHog analytics queue is full; dropping events. Increase posthog.queue_capacity or check PostHog availability.",
            ),
            Enqueued::Closed => (
                "queue_closed",
                "PostHog analytics queue is closed; the flush task is no longer running and events will be dropped until the service restarts.",
            ),
        };
        let dropped: u64 = self.dropped.wrapping_add(1);
        self.dropped = dropped;
        Some(DropReport { reason, message, dropped, logged: dropped == 1 || dropped % 1000 == 0 })
    }
}

pub open spec fn queue_full_message() -> Seq<char> {
    "PostHog analytics queue is full; dropping events. Increase posthog.queue_capacity or check PostHog availability."@
}

pub open spec fn queue_closed_message() -> Seq<char> {
    "PostHog analytics queue is closed; the flush task is no longer running and events will be dropped until the service restarts."@
}

/// Maximum number of events sent in a single request.
pub const MAX_BATCH_SIZE: usize = 250;

/// What the flush task hears of.
#[derive(Debug)]
pub enum FlushInput {
    /// An event came off the queue.
    Received(AnalyticsEvent),
    /// The flush interval has passed.
    Tick,
    /// The queue is closed and drained.
    Closed,
}

/// The events that the flush task has received and not sent yet.
#[derive(Debug)]
pub struct Batch {
    pub events: Vec<AnalyticsEvent>,
}

/// The events that stand in the batch once `input` is in it, before any is sent.
pub open spec fn gathered(pending: Seq<AnalyticsEvent>, input: FlushInput) -> Seq<AnalyticsEvent> {
    match input {
        FlushInput::Received(event) => pending.push(event),
        _ => pending,
    }
}

/// Whether `input` makes the flush task send what it has gathered: when the batch
/// is full, and on every tick or close that finds it with something in it.
pub open spec fn sends(pending: Seq<AnalyticsEvent>, input: FlushInput) -> bool {
    match input {
        FlushInput::Received(_) => pending.len() + 1 >= MAX_BATCH_SIZE,
        _ => pending.len() > 0,
    }
}

impl Batch {
    /// Between inputs the batch always has room for another event.
    pub open spec fn wf(self) -> bool {
        self.events@.len() < MAX_BATCH_SIZE
    }

    pub fn new() -> (batch: Batch)
        ensures
            batch.wf(),
            batch.events@ == Seq::<AnalyticsEvent>::empty(),
    {
        Batch { events: Vec::new() }
    }

    /// Takes in one input and hands out the batch to send, if it is time to.
    pub fn step(&mut self, input: FlushInput) -> (batch: Option<Vec<AnalyticsEvent>>)
        requires
            old(self).wf(),
        ensures
            final(self).wf(),
            batch is Some <==> sends(old(self).events@, input),
            batch matches Some(sent) ==> {
                &&& sent@ == gathered(old(self).events@, input)
                &&& final(self).events@ == Seq::<AnalyticsEvent>::empty()
            },
            batch is None ==> final(self).events@ == gathered(old(self).events@, input),
    {
        let full = match input {
            FlushInput::Received(event) => {
                self.events.push(event);
                self.events.len() >= MAX_BATCH_SIZE
            },
            FlushInput::Tick => self.events.len() > 0,
            FlushInput::Closed => self.events.len() > 0,
        };
        if full {
            let mut sent: Vec<AnalyticsEvent> = Vec::new();
            std::mem::swap(&mut sent, &mut self.events);
            Some(sent)
        } else {
            None
        }
    }
}

/// The events among `inputs`, in the order they were received.
pub open spec fn received(inputs: Seq<FlushInput>) -> Seq<AnalyticsEvent>
    decreases inputs.len(),
{
    if inputs.len() == 0 {
        Seq::empty()
    } else {
        gathered(received(inputs.drop_last()), inputs.last())
    }
}

/// What is pending after `inputs`.
pub open spec fn pending_after(inputs: Seq<FlushInput>) -> Seq<AnalyticsEvent>
    decreases inputs.len(),
{
    if inputs.len() == 0 {
        Seq::empty()
    } else {
        let before = pending_after(inputs.drop_last());
        if sends(before, inputs.last()) {
            Seq::empty()
        } else {
            gathered(before, inputs.last())
        }
    }
}

/// What has been sent after `inputs`, batch after batch.
pub open spec fn sent_after(inputs: Seq<FlushInput>) -> Seq<AnalyticsEvent>
    decreases inputs.len(),
{
    if inputs.len() == 0 {
        Seq::empty()
    } else {
        let before = pending_after(inputs.drop_last());
        let sent = sent_after(inputs.drop_last());
        if sends(before, inputs.last()) {
            sent + gathered(before, inputs.last())
        } else {
            sent
        }
    }
}

/// No event is lost, repeated or reordered on its way through the batch: what
/// has been sent, followed by what is pending, is what was received.
pub proof fn every_event_is_sent_or_pending(inputs: Seq<FlushInput>)
    ensures
        sent_after(inputs) + pending_after(inputs) == received(inputs),
        pending_after(inputs).len() < MAX_BATCH_SIZE,
    decreases inputs.len(),
{
    if inputs.len() > 0 {
        every_event_is_sent_or_pending(inputs.drop_last());
    }
    assert(sent_after(inputs) + pending_after(inputs) =~= received(inputs));
}

/// Once the queue is closed everything that was received has been sent.
pub proof fn closing_leaves_nothing_pending(inputs: Seq<FlushInput>)
    requires
        inputs.len() > 0,
        inputs.last() is Closed,
    ensures
        pending_after(inputs).len() == 0,
        sent_after(inputs) == received(inputs),
{
    every_event_is_sent_or_pending(inputs);
    assert(sent_after(inputs) + pending_after(inputs) =~= sent_after(inputs));
}

/// How the delivery of a batch ended.
#[derive(Debug)]
pub enum Delivery {
    Sent(u64),
    Dropped(u64, &'static str),
}

/// Books the events of a batch as sent or dropped, by the status of the reply or
/// its absence. A batch is never retried.
pub fn book_batch(status: Option<u16>, count: u64) -> (delivery: Delivery)
    ensures
        delivery matches Delivery::Sent(n) ==> n == count,
        delivery is Sent <==> (status matches Some(code) && 200 <= code < 300),
        delivery matches Delivery::Dropped(n, reason) ==> n == count && reason@ == if status
            is Some {
            "http_error"@
        } else {
            "request_failed"@
        },
{
    match status {
        Some(code) => {
            if 200 <= code && code < 300 {
                Delivery::Sent(count)
            } else {
                Delivery::Dropped(count, "http_error")
            }
        },
        None => Delivery::Dropped(count, "request_failed"),
    }
}

}
