//! How work is shared, counted and reported.
use std::sync::Arc;

use vstd::prelude::*;

use crate::api::analytics::{
    AnalyticsClient, AnalyticsEvent, Batch, DropReport, Enqueued, FlushInput,
};
use crate::backfill::{
    find_filter, find_projection, host_update, probe_catalogs, summary, Backfill, Flush,
};
use crate::document::{only, Bson, Document, Node};
use crate::enrichment::models::{
    targets, SharedModelPool, SharedModels, ACAI_B, ACAI_H, ACAI_N, ACAI_O, ACAI_V, BTSBOT,
};
use crate::gpu::pool::{DeviceGuard, GpuPool};
use crate::kafka::lsst::LsstAlertConsumer;
use crate::laws::alerts::lemma_only;
use crate::laws::reprocessing::applied;
use crate::named::{
    listed, lookup, put, setting_a_name_leaves_the_others, what_was_set_is_read_back, Named,
};
use crate::reprocess::{CatalogMatch, CatalogRun, ObjectBatch, Pending, Phase, WorkerOutcome};
use crate::text::decimal;
use crate::utils::enums::Survey;
use crate::utils::host::config::HostGalaxyConfig;
use crate::utils::parser::{fault_from, parse_positive_usize, read_i32, unsigned_part, value_of};

verus! {

/// A pool that is made hands out nothing yet, and holds the devices it was given in their
/// order. One without devices is refused.
pub proof fn pools_hold_their_devices(
    device_ids: &[i32],
    made: Result<GpuPool, String>,
)
    requires
        call_ensures(GpuPool::new, (device_ids,), made),
    ensures
        made is Err <==> device_ids@.len() == 0,
        made matches Err(message) ==> message@ == "GpuPool requires at least one device ID"@,
        made matches Ok(pool) ==> {
            &&& pool.devices@.len() == device_ids@.len()
            &&& forall|i: int|
                0 <= i < device_ids@.len() ==> (#[trigger] pool.devices@[i]).device_id
                    == device_ids@[i] && pool.devices@[i].active_count == 0
        },
{
    if let Ok(pool) = made {
        assert forall|i: int| 0 <= i < device_ids@.len() implies (
        #[trigger] pool.devices@[i]).device_id == device_ids@[i] && pool.devices@[i].active_count
            == 0 by {
            assert(pool.ids()[i] == device_ids@[i]);
            assert(pool.counts()[i] == 0);
        }
    }
}

/// The device that is handed out has no more guards out than any other, and fewer than those
/// before it; it then has one more, and nothing else changes.
pub proof fn the_least_contended_device_is_handed_out(
    pool: &mut GpuPool,
    guard: DeviceGuard,
)
    requires
        old(pool).devices@.len() > 0,
        call_ensures(GpuPool::acquire, (pool,), guard),
    ensures
        guard.slot < old(pool).devices@.len(),
        guard.context.device_id == old(pool).devices@[guard.slot as int].device_id,
        final(pool).devices@.len() == old(pool).devices@.len(),
        forall|i: int|
            0 <= i < old(pool).devices@.len() ==> {
                let before = #[trigger] old(pool).devices@[i];
                let after = final(pool).devices@[i];
                let own = old(pool).devices@[guard.slot as int].active_count;
                &&& after.device_id == before.device_id
                &&& own <= before.active_count
                &&& i < guard.slot ==> own < before.active_count
                &&& i != guard.slot ==> after.active_count == before.active_count
                &&& i == guard.slot && own < usize::MAX ==> after.active_count == own + 1
                &&& i == guard.slot && own == usize::MAX ==> after.active_count == 0
            },
{
    let counts = old(pool).counts();
    let later = final(pool).counts();
    assert(old(pool).ids().len() == old(pool).devices@.len());
    assert(final(pool).ids().len() == final(pool).devices@.len());
    assert forall|i: int| 0 <= i < old(pool).devices@.len() implies {
        let before = #[trigger] old(pool).devices@[i];
        let after = final(pool).devices@[i];
        let own = old(pool).devices@[guard.slot as int].active_count;
        &&& after.device_id == before.device_id
        &&& own <= before.active_count
        &&& i < guard.slot ==> own < before.active_count
        &&& i != guard.slot ==> after.active_count == before.active_count
        &&& i == guard.slot && own < usize::MAX ==> after.active_count == own + 1
        &&& i == guard.slot && own == usize::MAX ==> after.active_count == 0
    } by {
        assert(old(pool).ids()[i] == final(pool).ids()[i]);
        assert(counts[i] == old(pool).devices@[i].active_count);
        assert(later[i] == final(pool).devices@[i].active_count);
    }
}

/// Taking a device back undoes handing it out.
pub proof fn taking_back_undoes_handing_out(
    pool: &mut GpuPool,
    guard: DeviceGuard,
)
    requires
        guard.slot < old(pool).devices@.len(),
        call_ensures(GpuPool::release, (pool, guard), ()),
    ensures
        final(pool).devices@.len() == old(pool).devices@.len(),
        forall|i: int|
            0 <= i < old(pool).devices@.len() ==> {
                let before = #[trigger] old(pool).devices@[i];
                let after = final(pool).devices@[i];
                &&& after.device_id == before.device_id
                &&& i != guard.slot ==> after.active_count == before.active_count
                &&& i == guard.slot && before.active_count > 0 ==> after.active_count
                    == before.active_count - 1
                &&& i == guard.slot && before.active_count == 0 ==> after.active_count
                    == usize::MAX
            },
{
    assert(old(pool).ids().len() == old(pool).devices@.len());
    assert(final(pool).ids().len() == final(pool).devices@.len());
    assert forall|i: int| 0 <= i < old(pool).devices@.len() implies {
        let before = #[trigger] old(pool).devices@[i];
        let after = final(pool).devices@[i];
        &&& after.device_id == before.device_id
        &&& i != guard.slot ==> after.active_count == before.active_count
        &&& i == guard.slot && before.active_count > 0 ==> after.active_count
            == before.active_count - 1
        &&& i == guard.slot && before.active_count == 0 ==> after.active_count == usize::MAX
    } by {
        assert(old(pool).ids()[i] == final(pool).ids()[i]);
        assert(old(pool).counts()[i] == old(pool).devices@[i].active_count);
        assert(final(pool).counts()[i] == final(pool).devices@[i].active_count);
    }
}

/// A pool tells its size and its devices.
pub proof fn pools_tell_their_devices(pool: GpuPool, n: usize, empty: bool, ids: Vec<i32>)
    requires
        call_ensures(GpuPool::len, (&pool,), n),
        call_ensures(GpuPool::is_empty, (&pool,), empty),
        call_ensures(GpuPool::device_ids, (&pool,), ids),
    ensures
        n == pool.devices@.len(),
        empty <==> n == 0,
        ids@.len() == n,
        forall|i: int|
            0 <= i < ids@.len() ==> #[trigger] ids@[i] == pool.devices@[i].device_id,
{
}

/// Models are given in turn: as many turns later as there are sets, the same set is given
/// again.
pub proof fn models_are_given_in_turn<A, B>(
    pool: &mut SharedModelPool<A, B>,
    models: Arc<SharedModels<A, B>>,
)
    requires
        old(pool).model_sets@.len() > 0,
        call_ensures(SharedModelPool::<A, B>::next_model_set, (pool,), models),
    ensures
        ({
            let n = old(pool).model_sets@.len() as int;
            models == old(pool).model_sets@[old(pool).next as int % n]
        }),
        final(pool).model_sets@ == old(pool).model_sets@,
        old(pool).next < usize::MAX ==> final(pool).next == old(pool).next + 1,
        old(pool).next == usize::MAX ==> final(pool).next == 0,
{
}

/// One set is loaded for each device in its order, and a single one on the CPU where there
/// is none.
pub proof fn where_models_are_loaded(device_ids: Seq<i32>)
    ensures
        device_ids.len() == 0 ==> targets(device_ids) == seq![None::<i32>],
        device_ids.len() > 0 ==> targets(device_ids).len() == device_ids.len() && forall|i: int|
            0 <= i < device_ids.len() ==> #[trigger] targets(device_ids)[i] == Some(device_ids[i]),
{
}

/// Each model of a set is loaded from its own file, on the device of the set.
pub proof fn models_are_loaded_from_their_files<
    A,
    B,
    E,
    F: Fn(&'static str, Option<i32>) -> Result<A, E>,
    G: Fn(&'static str, Option<i32>) -> Result<B, E>,
>(device_id: Option<i32>, acai: F, btsbot: G, models: Arc<SharedModels<A, B>>)
    requires
        call_ensures(
            SharedModels::<A, B>::load::<E, F, G>,
            (device_id, &acai, &btsbot),
            Ok::<Arc<SharedModels<A, B>>, E>(models),
        ),
    ensures
        call_ensures(
            acai,
            ("data/models/acai_h.d1_dnn_20201130.onnx", device_id),
            Ok::<A, E>(models.acai_h),
        ),
        call_ensures(
            acai,
            ("data/models/acai_n.d1_dnn_20201130.onnx", device_id),
            Ok::<A, E>(models.acai_n),
        ),
        call_ensures(
            acai,
            ("data/models/acai_v.d1_dnn_20201130.onnx", device_id),
            Ok::<A, E>(models.acai_v),
        ),
        call_ensures(
            acai,
            ("data/models/acai_o.d1_dnn_20201130.onnx", device_id),
            Ok::<A, E>(models.acai_o),
        ),
        call_ensures(
            acai,
            ("data/models/acai_b.d1_dnn_20201130.onnx", device_id),
            Ok::<A, E>(models.acai_b),
        ),
        call_ensures(
            btsbot,
            ("data/models/btsbot-v1.0.1.onnx", device_id),
            Ok::<B, E>(models.btsbot),
        ),
{
}

/// An event is dropped when the queue does not take it, and counted; the first drop and
/// every thousandth are told. A client that is off counts nothing.
pub proof fn which_events_are_dropped(
    client: &mut AnalyticsClient,
    outcome: Enqueued,
    report: Option<DropReport>,
)
    requires
        call_ensures(AnalyticsClient::capture, (client, outcome), report),
    ensures
        final(client).queue == old(client).queue,
        old(client).queue is None || outcome == Enqueued::Accepted ==> report is None
            && final(client).dropped == old(client).dropped,
        old(client).queue is Some && outcome != Enqueued::Accepted ==> {
            &&& old(client).dropped < u64::MAX ==> final(client).dropped == old(client).dropped + 1
            &&& old(client).dropped == u64::MAX ==> final(client).dropped == 0
            &&& report matches Some(told) && told.dropped == final(client).dropped && (told.logged
                <==> told.dropped == 1 || told.dropped % 1000 == 0) && told.reason@ == (
            if outcome == Enqueued::Full {
                "queue_full"@
            } else {
                "queue_closed"@
            }) && told.message@ == (if outcome == Enqueued::Full {
                "PostHog analytics queue is full; dropping events. Increase posthog.queue_capacity or check PostHog availability."@
            } else {
                "PostHog analytics queue is closed; the flush task is no longer running and events will be dropped until the service restarts."@
            })
        },
{
}

/// What a batch hands out and what it holds afterwards is together what it held and received.
/// It never holds 250 events.
pub proof fn batches_lose_no_event(
    batch: &mut Batch,
    input: FlushInput,
    sent: Option<Vec<AnalyticsEvent>>,
)
    requires
        old(batch).events@.len() < 250,
        call_ensures(Batch::step, (batch, input), sent),
    ensures
        final(batch).events@.len() < 250,
        ({
            let out = match sent {
                Some(sent) => sent@,
                None => Seq::empty(),
            };
            let received = match input {
                FlushInput::Received(event) => seq![event],
                _ => Seq::empty(),
            };
            &&& out + final(batch).events@ == old(batch).events@ + received
            &&& sent is Some ==> out.len() > 0 && final(batch).events@.len() == 0
            &&& out.len() <= 250
        }),
        !(input is Received) ==> final(batch).events@.len() == 0,
        sent is Some && input is Received ==> sent->0@.len() == 250,
{
    let out = match sent {
        Some(sent) => sent@,
        None => Seq::empty(),
    };
    let received = match input {
        FlushInput::Received(event) => seq![event],
        _ => Seq::empty(),
    };
    assert(out + final(batch).events@ =~= old(batch).events@ + received);
}

/// What a batch of objects hands out and holds afterwards is together what it held and
/// received; it hands out full batches only.
pub proof fn batches_lose_no_object<T>(
    batch: &mut ObjectBatch<T>,
    item: T,
    full: Option<Vec<T>>,
)
    requires
        old(batch).items@.len() < old(batch).batch_size,
        call_ensures(ObjectBatch::<T>::add, (batch, item), full),
    ensures
        final(batch).batch_size == old(batch).batch_size,
        final(batch).items@.len() < final(batch).batch_size,
        ({
            let out = match full {
                Some(full) => full@,
                None => Seq::empty(),
            };
            &&& out + final(batch).items@ == old(batch).items@ + seq![item]
            &&& full is Some ==> out.len() == old(batch).batch_size
        }),
{
    let out = match full {
        Some(full) => full@,
        None => Seq::empty(),
    };
    assert(out + final(batch).items@ =~= old(batch).items@ + seq![item]);
}

/// What is left in a batch of objects is handed out at the end.
pub proof fn what_is_left_is_handed_out<T>(batch: ObjectBatch<T>, rest: Option<Vec<T>>)
    requires
        call_ensures(ObjectBatch::<T>::finish, (batch,), rest),
    ensures
        rest is None <==> batch.items@.len() == 0,
        rest matches Some(rest) ==> rest@ == batch.items@,
{
}

/// Every match is gathered under its object, after those that were gathered before, and all
/// of them are handed out at once. Rows are counted one by one.
pub proof fn matches_are_gathered_by_object(
    pending: &mut Pending,
    object_id: &str,
    found: CatalogMatch,
    other: Seq<char>,
)
    requires
        call_ensures(Pending::gather, (pending, object_id, found), ()),
    ensures
        listed(final(pending).matches.lists(), object_id@) == listed(
            old(pending).matches.lists(),
            object_id@,
        ).push(found),
        other != object_id@ ==> listed(final(pending).matches.lists(), other) == listed(
            old(pending).matches.lists(),
            other,
        ),
        final(pending).cat_count == old(pending).cat_count,
{
    let items = listed(old(pending).matches.lists(), object_id@).push(found);
    what_was_set_is_read_back(old(pending).matches.lists(), object_id@, items);
    if other != object_id@ {
        setting_a_name_leaves_the_others(
            old(pending).matches.lists(),
            object_id@,
            items,
            other,
        );
    }
}

/// What was gathered is handed out once.
pub proof fn gathered_matches_are_handed_out_once(
    pending: &mut Pending,
    matches: Named<Vec<CatalogMatch>>,
    name: Seq<char>,
)
    requires
        call_ensures(Pending::drain, (pending,), matches),
    ensures
        matches.lists() == old(pending).matches.lists(),
        listed(final(pending).matches.lists(), name).len() == 0,
        final(pending).cat_count == old(pending).cat_count,
{
}

/// A run goes on to sorting when every worker over the rows finished, and fails otherwise,
/// for the first that did not.
pub proof fn a_run_needs_all_its_workers(
    run: &mut CatalogRun,
    outcomes: Vec<WorkerOutcome>,
    at: Option<usize>,
)
    requires
        old(run).phase == Phase::Streaming,
        call_ensures(CatalogRun::streamed, (run, &outcomes), at),
    ensures
        final(run).phase == Phase::Sorting || final(run).phase == Phase::Failed,
        final(run).phase == Phase::Failed <==> exists|i: int|
            0 <= i < outcomes@.len() && (#[trigger] outcomes@[i] == WorkerOutcome::Failed
                || outcomes@[i] == WorkerOutcome::Lost),
        final(run).phase == Phase::Failed <==> at is Some,
        at matches Some(at) ==> at < outcomes@.len() && outcomes@[at as int]
            != WorkerOutcome::Finished && forall|i: int|
            0 <= i < at ==> #[trigger] outcomes@[i] == WorkerOutcome::Finished,
        final(run).live_field == old(run).live_field,
        final(run).temp_field == old(run).temp_field,
        final(run).run_start_jd == old(run).run_start_jd,
{
    if let Some(at) = at {
        assert(outcomes@[at as int] == WorkerOutcome::Failed || outcomes@[at as int]
            == WorkerOutcome::Lost);
    }
}

/// An update is counted when its batch is handed on, with the others of it. A batch is
/// handed on as soon as it is full: it is written, or discarded on a dry run.
pub proof fn updates_are_counted_when_handed_on(backfill: &mut Backfill, flush: Flush)
    requires
        old(backfill).pending < old(backfill).batch_size,
        old(backfill).written + old(backfill).pending < u64::MAX,
        call_ensures(Backfill::add_update, (backfill,), flush),
    ensures
        final(backfill).batch_size == old(backfill).batch_size,
        final(backfill).dry_run == old(backfill).dry_run,
        final(backfill).pending < final(backfill).batch_size,
        final(backfill).written + final(backfill).pending == old(backfill).written + old(
            backfill,
        ).pending + 1,
        flush == Flush::Keep <==> final(backfill).written == old(backfill).written,
        flush != Flush::Keep ==> {
            &&& final(backfill).pending == 0
            &&& final(backfill).written == old(backfill).written + old(backfill).batch_size
            &&& flush == Flush::Discard <==> old(backfill).dry_run
        },
{
}

/// At the end the last batch is handed on, if there is anything in it, and every update is
/// counted.
pub proof fn the_last_batch_is_handed_on(backfill: &mut Backfill, flush: Flush)
    requires
        old(backfill).pending < old(backfill).batch_size,
        old(backfill).written + old(backfill).pending <= u64::MAX,
        call_ensures(Backfill::finish, (backfill,), flush),
    ensures
        final(backfill).pending == 0,
        final(backfill).written == old(backfill).written + old(backfill).pending,
        flush == Flush::Keep <==> old(backfill).pending == 0,
        flush == Flush::Discard <==> old(backfill).pending > 0 && old(backfill).dry_run,
        flush == Flush::Write <==> old(backfill).pending > 0 && !old(backfill).dry_run,
{
}

/// The catalogs are looked for in a sample of a thousand records: a diameter in the one or a
/// match in the other, of which one is enough.
pub proof fn how_catalogs_are_looked_for(config: HostGalaxyConfig, stages: Bson)
    requires
        call_ensures(probe_catalogs, (&config,), stages),
    ensures
        stages@ == Node::Array(
            seq![
                applied("$sample"@, Node::Document(seq![("size"@, Node::Int64(1000))])),
                applied(
                    "$match"@,
                    applied(
                        "$or"@,
                        Node::Array(
                            seq![
                                applied(
                                    "cross_matches."@ + config.ned_catalog@ + ".Diam"@,
                                    applied("$exists"@, Node::Boolean(true)),
                                ),
                                applied(
                                    "cross_matches."@ + config.ls_dr10_catalog@,
                                    applied("$exists"@, Node::Boolean(true)),
                                ),
                            ],
                        ),
                    ),
                ),
                applied("$limit"@, Node::Int32(1)),
            ],
        ),
{
    let there = applied("$exists"@, Node::Boolean(true));
    let sized = "cross_matches."@ + config.ned_catalog@ + ".Diam"@;
    let shaped = "cross_matches."@ + config.ls_dr10_catalog@;
    lemma_only("$exists"@, Node::Boolean(true));
    lemma_only(sized, there);
    lemma_only(shaped, there);
    let either = Node::Array(seq![applied(sized, there), applied(shaped, there)]);
    lemma_only("$or"@, either);
    lemma_only("$match"@, applied("$or"@, either));
    lemma_only("size"@, Node::Int64(1000));
    lemma_only("$sample"@, Node::Document(seq![("size"@, Node::Int64(1000))]));
    lemma_only("$limit"@, Node::Int32(1));
}

/// All records are looked at, or only those without an association; what is read of them is
/// the identifier, the position and the matches, and what is written is the association.
pub proof fn what_is_filled_in(
    skip_existing: bool,
    filter: Document,
    projection: Document,
    value: Bson,
    update: Document,
)
    requires
        call_ensures(find_filter, (skip_existing,), filter),
        call_ensures(find_projection, (), projection),
        call_ensures(host_update, (value,), update),
    ensures
        !skip_existing ==> filter@.len() == 0,
        skip_existing ==> filter@ == seq![
            ("host_galaxy"@, applied("$exists"@, Node::Boolean(false))),
        ],
        projection@ == seq![
            ("_id"@, Node::Int32(1)),
            ("coordinates"@, Node::Int32(1)),
            ("cross_matches"@, Node::Int32(1)),
        ],
        update@ == seq![("$set"@, Node::Document(seq![("host_galaxy"@, value@)]))],
{
    reveal_strlit("_id");
    reveal_strlit("coordinates");
    reveal_strlit("cross_matches");
    assert("_id"@.len() == 3 && "coordinates"@.len() == 11 && "cross_matches"@.len() == 13);
    let one = Node::Int32(1);
    lemma_only("$exists"@, Node::Boolean(false));
    lemma_only("host_galaxy"@, applied("$exists"@, Node::Boolean(false)));
    lemma_only("_id"@, one);
    let a = only("_id"@, one);
    assert(lookup(a, "coordinates"@) is None && lookup(a, "cross_matches"@) is None);
    let b = put(a, "coordinates"@, one);
    setting_a_name_leaves_the_others(a, "coordinates"@, one, "cross_matches"@);
    assert(lookup(b, "cross_matches"@) is None);
    assert(projection@ =~= seq![
        ("_id"@, one),
        ("coordinates"@, one),
        ("cross_matches"@, one),
    ]);
    lemma_only("host_galaxy"@, value@);
    lemma_only("$set"@, Node::Document(seq![("host_galaxy"@, value@)]));
}

/// What is reported at the end says how many records, and whether they were changed.
pub proof fn what_is_reported_at_the_end(dry_run: bool, total: u64, message: String)
    requires
        call_ensures(summary, (dry_run, total), message),
    ensures
        dry_run ==> message@ == "dry run: "@ + decimal(total as nat)
            + " records would have been updated"@,
        !dry_run ==> message@ == "updated host_galaxy on "@ + decimal(total as nat) + " records"@,
{
}

/// A consumer of LSST alerts reads one topic, every night the same, into the queue it was
/// given or its own.
pub proof fn where_lsst_alerts_are_read(
    queue: Option<&str>,
    simulated: bool,
    consumer: LsstAlertConsumer,
    timestamp: i64,
    names: Vec<String>,
    output: String,
    survey: Survey,
)
    requires
        call_ensures(LsstAlertConsumer::new, (queue, simulated), consumer),
        call_ensures(LsstAlertConsumer::topic_names, (&consumer, timestamp), names),
        call_ensures(LsstAlertConsumer::output_queue, (&consumer,), output),
        call_ensures(LsstAlertConsumer::survey, (&consumer,), survey),
    ensures
        names@.len() == 1,
        simulated ==> names@[0]@ == "alerts-simulated"@,
        !simulated ==> names@[0]@ == "lsst-alerts-v11"@,
        queue matches Some(name) ==> output@ == name@,
        queue is None ==> output@ == "LSST_alerts_packets_queue"@,
        survey == Survey::Lsst,
{
}

/// Whether a text holds nothing but decimal digits.
pub open spec fn only_digits(s: Seq<char>) -> bool {
    forall|i: int| 0 <= i < s.len() ==> '0' <= #[trigger] s[i] <= '9'
}

/// The number that decimal digits stand for, the first digit counting most.
pub open spec fn number(s: Seq<char>) -> int
    decreases s.len(),
{
    if s.len() == 0 {
        0
    } else {
        number(s.drop_last()) * 10 + (s.last() as u32 - 48)
    }
}

proof fn lemma_number(s: Seq<char>)
    requires
        only_digits(s),
    ensures
        number(s) == value_of(s),
        number(s) >= 0,
    decreases s.len(),
{
    if s.len() > 0 {
        let rest = s.drop_last();
        assert forall|i: int| 0 <= i < rest.len() implies '0' <= #[trigger] rest[i] <= '9' by {
            assert('0' <= s[i] <= '9');
        }
        lemma_number(rest);
        assert('0' <= s[s.len() - 1] <= '9');
    }
}

proof fn lemma_longer_is_greater(s: Seq<char>, i: int)
    requires
        0 <= i <= s.len(),
    ensures
        value_of(s.take(i)) <= value_of(s),
    decreases s.len(),
{
    if i < s.len() {
        let rest = s.drop_last();
        lemma_longer_is_greater(rest, i);
        assert(rest.take(i) =~= s.take(i));
    } else {
        assert(s.take(i) =~= s);
    }
}

proof fn lemma_fault_from(digits: Seq<char>, i: int)
    requires
        0 <= i <= digits.len(),
        i == 0 || value_of(digits.take(i)) <= usize::MAX,
        forall|k: int| 0 <= k < i ==> '0' <= #[trigger] digits[k] <= '9',
    ensures
        fault_from(digits, i) is None <==> only_digits(digits) && (digits.len() == 0 || value_of(
            digits,
        ) <= usize::MAX),
        only_digits(digits) && digits.len() > 0 && value_of(digits) > usize::MAX ==> fault_from(
            digits,
            i,
        ) == Some("number too large to fit in target type"@),
        !only_digits(digits) ==> fault_from(digits, i) == Some("invalid digit found in string"@)
            || fault_from(digits, i) == Some("number too large to fit in target type"@),
        !only_digits(digits) && value_of(digits) <= usize::MAX ==> fault_from(digits, i) == Some(
            "invalid digit found in string"@,
        ),
    decreases digits.len() - i,
{
    if i < digits.len() {
        lemma_longer_is_greater(digits, i + 1);
        if '0' <= digits[i] <= '9' && value_of(digits.take(i + 1)) <= usize::MAX {
            lemma_fault_from(digits, i + 1);
        }
    } else {
        assert(digits.take(i) =~= digits);
    }
}

/// A positive number is read from decimal digits that stand for it, with a plus sign before
/// them or none. What is no number, too large or zero is refused.
pub proof fn which_positive_numbers_are_read(
    s: &str,
    parsed: Result<usize, String>,
    digits: Seq<char>,
)
    requires
        call_ensures(parse_positive_usize, (s,), parsed),
        s@ == digits || s@ == seq!['+'] + digits,
        digits.len() > 0,
        only_digits(digits),
    ensures
        0 < number(digits) <= usize::MAX ==> (parsed matches Ok(n) && n == number(digits)),
        number(digits) == 0 ==> (parsed matches Err(message) && message@ == "must be > 0"@),
        number(digits) > usize::MAX ==> (parsed matches Err(message) && message@
            == "not a usize: "@ + "number too large to fit in target type"@),
{
    assert(unsigned_part(s@) =~= digits) by {
        assert('0' <= digits[0] <= '9');
        if s@ == seq!['+'] + digits {
            assert(s@.drop_first() =~= digits);
            assert(s@[0] == '+');
        }
    }
    lemma_number(digits);
    lemma_fault_from(digits, 0);
}

/// A text is refused as a positive number when it is empty or holds anything but digits
/// after its sign.
pub proof fn which_texts_are_no_positive_numbers(
    s: &str,
    parsed: Result<usize, String>,
    i: int,
)
    requires
        call_ensures(parse_positive_usize, (s,), parsed),
        s@.len() == 0 || (0 <= i < s@.len() && !('0' <= s@[i] <= '9') && (s@[i] != '+' || i > 0
            || s@.len() == 1)),
    ensures
        parsed is Err,
        s@.len() == 0 ==> parsed->Err_0@ == "not a usize: "@
            + "cannot parse integer from empty string"@,
        s@.len() == 1 ==> parsed->Err_0@ == "not a usize: "@ + "invalid digit found in string"@,
{
    if s@.len() > 0 {
        let digits = unsigned_part(s@);
        let start: int = if s@.len() > 1 && s@[0] == '+' {
            1
        } else {
            0
        };
        assert(digits =~= s@.skip(start));
        assert(digits[i - start] == s@[i]);
        lemma_fault_from(digits, 0);
        assert(!only_digits(digits));
        if s@.len() == 1 {
            reveal_with_fuel(fault_from, 2);
            assert(digits[0] == s@[0]);
        }
    }
}

/// A number of 32 bits is read from decimal digits with a sign or none, where it fits.
pub proof fn which_small_numbers_are_read(s: &str, parsed: Option<i32>, digits: Seq<char>)
    requires
        call_ensures(read_i32, (s,), parsed),
        s@ == digits || s@ == seq!['+'] + digits || s@ == seq!['-'] + digits,
        digits.len() > 0,
        only_digits(digits),
    ensures
        ({
            let n = if s@ == seq!['-'] + digits {
                -number(digits)
            } else {
                number(digits)
            };
            &&& -0x8000_0000 <= n <= 0x7FFF_FFFF ==> (parsed matches Some(x) && x == n)
            &&& !(-0x8000_0000 <= n <= 0x7FFF_FFFF) ==> parsed is None
        }),
{
    lemma_number(digits);
    assert('0' <= digits[0] <= '9');
    if s@ == seq!['-'] + digits {
        assert(s@.drop_first() =~= digits);
        assert(s@[0] == '-');
    } else if s@ == seq!['+'] + digits {
        assert(s@.drop_first() =~= digits);
        assert(s@[0] == '+');
    }
    assert(crate::utils::parser::all_digits(digits));
}

/// A text that holds anything but digits after its sign stands for no number of 32 bits.
pub proof fn which_texts_are_no_small_numbers(s: &str, parsed: Option<i32>, i: int)
    requires
        call_ensures(read_i32, (s,), parsed),
        s@.len() == 0 || (0 <= i < s@.len() && !('0' <= s@[i] <= '9') && ((s@[i] != '+' && s@[i]
            != '-') || i > 0 || s@.len() == 1)),
    ensures
        parsed is None,
{
    if s@.len() > 0 {
        let signed = s@.len() > 1 && (s@[0] == '+' || s@[0] == '-');
        let start: int = if signed {
            1
        } else {
            0
        };
        let digits = s@.skip(start);
        assert(digits[i - start] == s@[i]);
        assert(!crate::utils::parser::is_digit(digits[i - start]));
        if signed {
            assert(s@.drop_first() =~= digits);
        } else {
            assert(s@ =~= digits);
        }
        assert(!crate::utils::parser::all_digits(digits));
    }
}

/// A pool of models has one set for each device, loaded there, or one on the CPU, and starts
/// with the first. A failure is that of the first device that failed.
pub proof fn pools_of_models_have_one_set_per_device<
    A,
    B,
    E,
    F: Fn(&'static str, Option<i32>) -> Result<A, E>,
    G: Fn(&'static str, Option<i32>) -> Result<B, E>,
>(device_ids: &[i32], acai: F, btsbot: G, pool: SharedModelPool<A, B>)
    requires
        call_ensures(
            SharedModelPool::<A, B>::load::<E, F, G>,
            (device_ids, &acai, &btsbot),
            Ok::<SharedModelPool<A, B>, E>(pool),
        ),
    ensures
        pool.next == 0,
        device_ids@.len() == 0 ==> pool.model_sets@.len() == 1 && (
        *pool.model_sets@[0]).loaded_by::<E, F, G>(None, acai, btsbot),
        device_ids@.len() > 0 ==> pool.model_sets@.len() == device_ids@.len() && forall|i: int|
            0 <= i < device_ids@.len() ==> (*(#[trigger] pool.model_sets@[i])).loaded_by::<
                E,
                F,
                G,
            >(Some(device_ids@[i]), acai, btsbot),
{
    let wanted = targets(device_ids@);
    if device_ids@.len() == 0 {
        assert(wanted[0] == None::<i32>);
        assert((*pool.model_sets@[0]).loaded_by::<E, F, G>(wanted[0], acai, btsbot));
    } else {
        assert forall|i: int| 0 <= i < device_ids@.len() implies (
        *(#[trigger] pool.model_sets@[i])).loaded_by::<E, F, G>(
            Some(device_ids@[i]),
            acai,
            btsbot,
        ) by {
            assert(wanted[i] == Some(device_ids@[i]));
        }
    }
}

/// An event is named and attributed as it was built, says nothing at first, and then each
/// property that is attached, the last of one name; an anonymous one makes no profile.
pub proof fn events_say_what_is_attached(
    event: AnalyticsEvent,
    key: &str,
    value: crate::json::Property,
    with: AnalyticsEvent,
    with_none: AnalyticsEvent,
    anonymous: AnalyticsEvent,
    other: Seq<char>,
)
    requires
        call_ensures(AnalyticsEvent::with, (event, key, value), with),
        call_ensures(
            AnalyticsEvent::with_opt,
            (event, key, None::<crate::json::Property>),
            with_none,
        ),
        call_ensures(AnalyticsEvent::anonymous, (event,), anonymous),
    ensures
        with.facts().contains_key(key@) && with.facts()[key@] == value@,
        other != key@ ==> (with.facts().contains_key(other) <==> event.facts().contains_key(other)),
        other != key@ && event.facts().contains_key(other) ==> with.facts()[other]
            == event.facts()[other],
        with.event == event.event && with.distinct_id == event.distinct_id && with.timestamp
            == event.timestamp,
        with_none.facts() == event.facts(),
        anonymous.facts()["$process_person_profile"@] == crate::json::Fact::Flag(false),
        anonymous.facts().contains_key("$process_person_profile"@),
        anonymous.distinct_id == event.distinct_id,
{
}

/// A new event carries its name, its actor and its time.
pub proof fn new_events_carry_their_time(
    name: &str,
    actor: &str,
    timestamp: String,
    event: AnalyticsEvent,
)
    requires
        call_ensures(AnalyticsEvent::stamped, (name, actor, timestamp), event),
    ensures
        event.event@ == name@,
        event.distinct_id@ == actor@,
        event.timestamp@ == timestamp@,
        forall|key: Seq<char>| !#[trigger] event.facts().contains_key(key),
{
}

/// The smaller side is looped over, and the objects where both are of one size.
pub proof fn the_smaller_side_is_looped_over(
    objects: u64,
    rows: u64,
    direction: crate::reprocess::Direction,
)
    requires
        call_ensures(crate::reprocess::pick_direction, (objects, rows), direction),
    ensures
        rows < objects ==> direction == crate::reprocess::Direction::Catalog,
        objects <= rows ==> direction == crate::reprocess::Direction::Objects,
{
}

/// Batches start empty.
pub proof fn batches_start_empty<T>(
    batch_size: usize,
    dry_run: bool,
    objects: ObjectBatch<T>,
    backfill: Backfill,
    pending: Pending,
    events: Batch,
    client: AnalyticsClient,
)
    requires
        call_ensures(ObjectBatch::<T>::new, (batch_size,), objects),
        call_ensures(Backfill::new, (batch_size, dry_run), backfill),
        call_ensures(Pending::new, (), pending),
        call_ensures(Batch::new, (), events),
        call_ensures(AnalyticsClient::disabled, (), client),
    ensures
        objects.items@.len() == 0 && objects.batch_size == batch_size,
        backfill.pending == 0 && backfill.written == 0,
        backfill.batch_size == batch_size && backfill.dry_run == dry_run,
        pending.cat_count == 0 && pending.matches.lists().len() == 0,
        events.events@.len() == 0,
        client.queue is None && client.dropped == 0,
{
}

/// Rows are counted one by one, and counting touches nothing that was gathered.
pub proof fn rows_are_counted_one_by_one(pending: &mut Pending)
    requires
        old(pending).cat_count < u64::MAX,
        call_ensures(Pending::count_row, (pending,), ()),
    ensures
        final(pending).cat_count == old(pending).cat_count + 1,
        final(pending).matches == old(pending).matches,
{
}

/// A phase that ends well leads to the next, one that does not ends the run, and the fields
/// of the run stay what they are.
pub proof fn runs_advance_by_their_outcomes(run: &mut CatalogRun, ok: bool)
    requires
        call_ensures(CatalogRun::advance, (run, ok), ()),
    ensures
        final(run).live_field == old(run).live_field,
        final(run).temp_field == old(run).temp_field,
        final(run).run_start_jd == old(run).run_start_jd,
        old(run).phase == Phase::Done ==> final(run).phase == Phase::Done,
        old(run).phase != Phase::Done && !ok ==> final(run).phase == Phase::Failed,
        ok ==> final(run).phase == match old(run).phase {
            Phase::Cleaning => Phase::Streaming,
            Phase::Streaming => Phase::Sorting,
            Phase::Sorting => Phase::Swapping,
            Phase::Swapping => Phase::Done,
            Phase::Done => Phase::Done,
            Phase::Failed => Phase::Failed,
        },
{
}


/// The models of one kind, in the order in which they are loaded.
pub open spec fn model_at(k: int) -> &'static str {
    if k == 0 {
        ACAI_H
    } else if k == 1 {
        ACAI_N
    } else if k == 2 {
        ACAI_V
    } else if k == 3 {
        ACAI_O
    } else {
        ACAI_B
    }
}

/// Whether a loader gave the first `n` of those models.
pub open spec fn gave_first<A, E, F: Fn(&'static str, Option<i32>) -> Result<A, E>>(
    acai: F,
    device_id: Option<i32>,
    n: int,
) -> bool {
    forall|j: int|
        0 <= j < n ==> exists|model: A|
            call_ensures(acai, (#[trigger] model_at(j), device_id), Ok::<A, E>(model))
}

/// Where loading fails, the error is that of the first model that was refused: each before it
/// was given.
pub proof fn the_first_failure_ends_loading<
    A,
    B,
    E,
    F: Fn(&'static str, Option<i32>) -> Result<A, E>,
    G: Fn(&'static str, Option<i32>) -> Result<B, E>,
>(device_id: Option<i32>, acai: F, btsbot: G, error: E)
    requires
        call_ensures(
            SharedModels::<A, B>::load::<E, F, G>,
            (device_id, &acai, &btsbot),
            Err::<Arc<SharedModels<A, B>>, E>(error),
        ),
    ensures
        (exists|k: int|
            0 <= k < 5 && call_ensures(acai, (#[trigger] model_at(k), device_id), Err::<A, E>(error))
                && gave_first::<A, E, F>(acai, device_id, k)) || (call_ensures(
            btsbot,
            (BTSBOT, device_id),
            Err::<B, E>(error),
        ) && gave_first::<A, E, F>(acai, device_id, 5)),
{
    assert(SharedModels::<A, B>::refused_by(device_id, acai, btsbot, error));
    assert(model_at(0) == ACAI_H && model_at(1) == ACAI_N && model_at(2) == ACAI_V && model_at(3)
        == ACAI_O && model_at(4) == ACAI_B);
}

}
