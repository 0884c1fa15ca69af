//! How alerts are sorted into topics, and how topics are kept.
use vstd::prelude::*;

use crate::binary::Double;
use crate::enrichment::babamul::{
    alteration_fault, count_delivered, creation_fault, delivered, lost_outcome, lsst_topics,
    producer_settings, survey_from_topic, ztf_topics, Babamul, BabamulZtfAlert,
    EnrichmentWorkerError, LocatedAlert, RecordOutcome, TopicOutcome, TopicPlan,
};
use crate::laws::sharing::{
    alterations_succeed_when_all_are_done, creations_fail_by_their_first_failure,
    delivered_records_are_counted,
};
use crate::named::{listed, setting_a_name_leaves_the_others, what_was_set_is_read_back, Named};
use crate::text::{has_prefix, signed_decimal};
use crate::utils::parser::read_i32;

verus! {

/// Whether positions rise from each to the next.
pub open spec fn rising(items: Seq<usize>) -> bool {
    forall|i: int, j: int| 0 <= i < j < items.len() ==> #[trigger] items[i] < #[trigger] items[j]
}

proof fn lemma_ztf_topics_rise<C>(alerts: Seq<BabamulZtfAlert<C>>, n: nat, topic: Seq<char>)
    requires
        n <= alerts.len() <= usize::MAX,
    ensures
        rising(listed(ztf_topics(alerts, n), topic)),
        forall|i: int|
            0 <= i < listed(ztf_topics(alerts, n), topic).len() ==> (#[trigger] listed(
                ztf_topics(alerts, n),
                topic,
            )[i]) < n,
    decreases n,
{
    if n > 0 {
        let before = ztf_topics(alerts, (n - 1) as nat);
        let after = ztf_topics(alerts, n);
        lemma_ztf_topics_rise(alerts, (n - 1) as nat, topic);
        if crate::enrichment::babamul::ztf_shared(alerts[n - 1].traits) {
            let name = crate::enrichment::babamul::ztf_topic(alerts[n - 1]);
            let items = listed(before, name).push((n - 1) as usize);
            what_was_set_is_read_back(before, name, items);
            if topic != name {
                setting_a_name_leaves_the_others(before, name, items, topic);
            }
        }
    }
}

proof fn lemma_lsst_topics_rise<C>(
    alerts: Seq<LocatedAlert<C>>,
    threshold: Double,
    n: nat,
    topic: Seq<char>,
)
    requires
        n <= alerts.len() <= usize::MAX,
    ensures
        rising(listed(lsst_topics(alerts, threshold, n), topic)),
        forall|i: int|
            0 <= i < listed(lsst_topics(alerts, threshold, n), topic).len() ==> (#[trigger] listed(
                lsst_topics(alerts, threshold, n),
                topic,
            )[i]) < n,
    decreases n,
{
    if n > 0 {
        let before = lsst_topics(alerts, threshold, (n - 1) as nat);
        lemma_lsst_topics_rise(alerts, threshold, (n - 1) as nat, topic);
        if crate::enrichment::babamul::lsst_shared(alerts[n - 1].alert.traits) {
            let name = crate::enrichment::babamul::lsst_topic(alerts[n - 1], threshold);
            let items = listed(before, name).push((n - 1) as usize);
            what_was_set_is_read_back(before, name, items);
            if topic != name {
                setting_a_name_leaves_the_others(before, name, items, topic);
            }
        }
    }
}

/// A topic lists its alerts in their order, none of them twice.
pub proof fn topics_list_alerts_in_their_order<C, D>(
    babamul: Babamul,
    ztf: Vec<BabamulZtfAlert<C>>,
    lsst: Vec<LocatedAlert<D>>,
    threshold: Double,
    ztf_lists: Named<Vec<usize>>,
    lsst_lists: Named<Vec<usize>>,
    topic: Seq<char>,
)
    requires
        call_ensures(Babamul::process_ztf_alerts::<C>, (&babamul, &ztf), ztf_lists),
        call_ensures(
            Babamul::process_lsst_alerts::<D>,
            (&babamul, &lsst, threshold),
            lsst_lists,
        ),
        ztf@.len() <= usize::MAX,
        lsst@.len() <= usize::MAX,
    ensures
        rising(listed(ztf_lists.lists(), topic)),
        rising(listed(lsst_lists.lists(), topic)),
{
    lemma_ztf_topics_rise(ztf@, ztf@.len(), topic);
    lemma_lsst_topics_rise(lsst@, threshold, lsst@.len(), topic);
}

/// A topic is that of a survey by how its name begins.
pub proof fn topics_name_their_survey(topic: &str, survey: &'static str)
    requires
        call_ensures(survey_from_topic, (topic,), survey),
    ensures
        "babamul.ztf."@.is_prefix_of(topic@) ==> survey@ == "ZTF"@,
        "babamul.lsst."@.is_prefix_of(topic@) ==> survey@ == "LSST"@,
        !"babamul.ztf."@.is_prefix_of(topic@) && !"babamul.lsst."@.is_prefix_of(topic@) ==> survey@
            == "unknown"@,
{
    reveal_strlit("babamul.ztf.");
    reveal_strlit("babamul.lsst.");
    assert("babamul.ztf."@[8] == 'z' && "babamul.lsst."@[8] == 'l');
    assert("babamul.ztf."@.len() == 12 && "babamul.lsst."@.len() == 13);
    lemma_prefix(topic@, "babamul.ztf."@);
    lemma_prefix(topic@, "babamul.lsst."@);
    if "babamul.lsst."@.is_prefix_of(topic@) {
        assert(topic@[8] == 'l');
    }
    if "babamul.ztf."@.is_prefix_of(topic@) {
        assert(topic@[8] == 'z');
    }
}

proof fn lemma_prefix(s: Seq<char>, start: Seq<char>)
    ensures
        has_prefix(s, start) == start.is_prefix_of(s),
{
    if start.len() <= s.len() {
        assert(start.is_prefix_of(s) == (s.subrange(0, start.len() as int) =~= start));
    }
}

/// Topics keep what they carry for the configured number of days, in milliseconds, and none
/// is checked at first.
pub proof fn topics_are_kept_for_days(days: u32, babamul: Babamul)
    requires
        call_ensures(Babamul::new, (days,), babamul),
    ensures
        babamul.topic_retention_ms == days * 24 * 60 * 60 * 1000,
        babamul.checked_topics@.len() == 0,
{
}

/// A topic is planned when it has not been checked: with the partitions that are set, where
/// that is a number, and else 15, on one broker each, and deleted after the retention.
pub proof fn which_topics_are_planned(
    babamul: Babamul,
    topic: &str,
    setting: Option<&str>,
    read: Option<i32>,
    plan: Option<TopicPlan>,
)
    requires
        call_ensures(Babamul::check_topic, (&babamul, topic, setting), plan),
        setting matches Some(text) ==> call_ensures(read_i32, (text,), read),
        setting is None ==> read is None,
    ensures
        plan is None <==> exists|i: int|
            0 <= i < babamul.checked_topics@.len() && (#[trigger] babamul.checked_topics@[i])@
                == topic@,
        plan matches Some(plan) ==> {
            &&& read matches Some(n) ==> plan.partitions == n
            &&& read is None ==> plan.partitions == 15
            &&& plan.replication == 1
            &&& plan.retention_ms@ == signed_decimal(babamul.topic_retention_ms as int)
            &&& plan.cleanup_policy@ == "delete"@
        },
{
}

/// A topic can be used when it was made or existed before; what else went wrong is told with
/// its code.
pub proof fn which_topics_can_be_used(
    babamul: Babamul,
    topic: &str,
    outcomes: Vec<TopicOutcome>,
    proceed: Result<(), EnrichmentWorkerError>,
)
    requires
        call_ensures(
            Babamul::topic_created,
            (&babamul, topic, &Ok::<Vec<TopicOutcome>, String>(outcomes)),
            proceed,
        ),
    ensures
        proceed is Ok <==> forall|i: int|
            0 <= i < outcomes@.len() ==> (#[trigger] outcomes@[i]) is Done
                || outcomes@[i] is AlreadyExists,
        proceed matches Err(error) ==> exists|i: int|
            0 <= i < outcomes@.len() && (#[trigger] outcomes@[i] matches TopicOutcome::Failed(code)
                && error matches EnrichmentWorkerError::Kafka(message) && message@
                == "Failed to ensure topic "@ + topic@ + " with retention (code: "@ + code@
                + ")"@) && forall|j: int| 0 <= j < i ==> !((#[trigger] outcomes@[j]) is Failed),
{
    creations_fail_by_their_first_failure(outcomes@);
    if let Err(error) = proceed {
        let code = creation_fault(outcomes@)->0;
        let i = choose|i: int|
            0 <= i < outcomes@.len() && (#[trigger] outcomes@[i]) is Failed
                && outcomes@[i]->Failed_0@ == code && forall|j: int|
                0 <= j < i ==> !((#[trigger] outcomes@[j]) is Failed);
        assert(outcomes@[i] is Failed);
    }
}

/// A topic is checked for good when its settings were changed, and not otherwise; no other
/// topic is touched.
pub proof fn which_topics_are_checked(
    babamul: &mut Babamul,
    topic: &str,
    outcomes: Vec<TopicOutcome>,
    done: Result<(), EnrichmentWorkerError>,
    name: Seq<char>,
)
    requires
        call_ensures(
            Babamul::topic_altered,
            (babamul, topic, &Ok::<Vec<TopicOutcome>, String>(outcomes)),
            done,
        ),
    ensures
        done is Ok <==> forall|i: int|
            0 <= i < outcomes@.len() ==> (#[trigger] outcomes@[i]) is Done,
        final(babamul).topic_retention_ms == old(babamul).topic_retention_ms,
        done is Ok ==> (final(babamul).knows(name) <==> name == topic@ || old(babamul).knows(name)),
        done is Err ==> *final(babamul) == *old(babamul),
        done matches Err(error) ==> (error matches EnrichmentWorkerError::Kafka(message) && exists|
            code: Seq<char>,
        | #[trigger]
            ("Failed to set retention for "@ + topic@ + " (code: "@ + code + ")"@) == message@),
{
    alterations_succeed_when_all_are_done(outcomes@);
    if let Err(error) = done {
        let code = alteration_fault(outcomes@)->0;
        let text = "Failed to set retention for "@ + topic@ + " (code: "@ + code + ")"@;
    }
}

/// A request that failed as a whole is told with its fault, and changes nothing.
pub proof fn failed_requests_change_no_topic(
    babamul: &mut Babamul,
    topic: &str,
    fault: String,
    proceed: Result<(), EnrichmentWorkerError>,
    done: Result<(), EnrichmentWorkerError>,
)
    requires
        call_ensures(
            Babamul::topic_created,
            (&*old(babamul), topic, &Err::<Vec<TopicOutcome>, String>(fault)),
            proceed,
        ),
        call_ensures(
            Babamul::topic_altered,
            (babamul, topic, &Err::<Vec<TopicOutcome>, String>(fault)),
            done,
        ),
    ensures
        proceed matches Err(EnrichmentWorkerError::Kafka(message)) && message@
            == "Admin create_topics error: "@ + fault@,
        done matches Err(EnrichmentWorkerError::Kafka(message)) && message@
            == "Admin alter_configs error: "@ + fault@,
        *final(babamul) == *old(babamul),
{
}

/// A record that could not be handed over, and a flush that failed, are told with the fault.
pub proof fn failures_of_the_producer_are_told(
    babamul: Babamul,
    outcome: Result<(), String>,
    handed: Result<(), EnrichmentWorkerError>,
    flushed: Result<(), EnrichmentWorkerError>,
)
    requires
        call_ensures(Babamul::enqueued, (&babamul, outcome), handed),
        call_ensures(Babamul::flush, (&babamul, outcome), flushed),
    ensures
        outcome is Ok ==> handed is Ok && flushed is Ok,
        outcome matches Err(fault) ==> {
            &&& handed matches Err(EnrichmentWorkerError::Kafka(message)) && message@
                == "Failed to enqueue Kafka record: "@ + fault@
            &&& flushed matches Err(EnrichmentWorkerError::Kafka(message)) && message@
                == "Kafka flush failed: "@ + fault@
        },
{
}

proof fn lemma_first_lost(outcomes: Seq<RecordOutcome>)
    ensures
        match lost_outcome(outcomes) {
            None => forall|i: int|
                0 <= i < outcomes.len() ==> !((#[trigger] outcomes[i]) is Canceled),
            Some(reason) => exists|i: int|
                0 <= i < outcomes.len() && (#[trigger] outcomes[i]) is Canceled
                    && outcomes[i]->Canceled_0@ == reason && forall|j: int|
                    0 <= j < i ==> !((#[trigger] outcomes[j]) is Canceled),
        },
    decreases outcomes.len(),
{
    if outcomes.len() > 0 {
        let rest = outcomes.drop_first();
        lemma_first_lost(rest);
        assert forall|i: int| 0 < i < outcomes.len() implies #[trigger] outcomes[i] == rest[
            i - 1
        ] by {}
        if outcomes[0] is Canceled {
            assert(lost_outcome(outcomes) == Some(outcomes[0]->Canceled_0@));
        } else if let Some(reason) = lost_outcome(outcomes) {
            let i = choose|i: int|
                0 <= i < rest.len() && (#[trigger] rest[i]) is Canceled && rest[i]->Canceled_0@
                    == reason && forall|j: int|
                    0 <= j < i ==> !((#[trigger] rest[j]) is Canceled);
            assert(outcomes[i + 1] is Canceled && outcomes[i + 1]->Canceled_0@ == reason);
            assert forall|j: int| 0 <= j < i + 1 implies !((
            #[trigger] outcomes[j]) is Canceled) by {
                if j > 0 {
                    assert(!(rest[j - 1] is Canceled));
                }
            }
        }
    }
}

/// The records that were delivered are counted, unless the outcome of one was lost: then the
/// first of those is told.
pub proof fn records_are_counted_unless_one_is_lost(
    outcomes: Vec<RecordOutcome>,
    sent: Result<usize, EnrichmentWorkerError>,
)
    requires
        call_ensures(count_delivered, (&outcomes,), sent),
    ensures
        sent is Ok <==> forall|i: int|
            0 <= i < outcomes@.len() ==> !((#[trigger] outcomes@[i]) is Canceled),
        sent matches Ok(n) ==> n == outcomes@.filter(|o: RecordOutcome| o is Delivered).len(),
        sent matches Err(error) ==> exists|i: int|
            0 <= i < outcomes@.len() && (#[trigger] outcomes@[i] matches RecordOutcome::Canceled(
                reason,
            ) && error matches EnrichmentWorkerError::Kafka(message) && message@
                == "Failed to send Kafka record: "@ + reason@) && forall|j: int|
                0 <= j < i ==> !((#[trigger] outcomes@[j]) is Canceled),
{
    delivered_records_are_counted(outcomes@);
    lemma_first_lost(outcomes@);
    if let Err(error) = sent {
        let reason = lost_outcome(outcomes@)->0;
        let i = choose|i: int|
            0 <= i < outcomes@.len() && (#[trigger] outcomes@[i]) is Canceled
                && outcomes@[i]->Canceled_0@ == reason && forall|j: int|
                0 <= j < i ==> !((#[trigger] outcomes@[j]) is Canceled);
        assert(outcomes@[i] is Canceled);
    }
}

/// The value of a setting, where there is one.
pub open spec fn setting_of(
    settings: Seq<(&'static str, &'static str)>,
    name: Seq<char>,
    value: Seq<char>,
) -> bool {
    exists|i: int|
        0 <= i < settings.len() && (#[trigger] settings[i]).0@ == name && settings[i].1@ == value
}

/// What the producer is set to: to give up on a message after two minutes, to batch up to a
/// mebibyte for 50 milliseconds, to wait for one broker, to have five requests under way, to
/// try three times more, and to compress.
pub proof fn how_the_producer_is_set(settings: Vec<(&'static str, &'static str)>)
    requires
        call_ensures(producer_settings, (), settings),
    ensures
        settings@.len() == 7,
        setting_of(settings@, "message.timeout.ms"@, "120000"@),
        setting_of(settings@, "batch.size"@, "1048576"@),
        setting_of(settings@, "linger.ms"@, "50"@),
        setting_of(settings@, "acks"@, "1"@),
        setting_of(settings@, "max.in.flight.requests.per.connection"@, "5"@),
        setting_of(settings@, "retries"@, "3"@),
        setting_of(settings@, "compression.type"@, "zstd"@),
{
    assert(settings@[0].0@ == "message.timeout.ms"@);
    assert(settings@[1].0@ == "batch.size"@);
    assert(settings@[2].0@ == "linger.ms"@);
    assert(settings@[3].0@ == "acks"@);
    assert(settings@[4].0@ == "max.in.flight.requests.per.connection"@);
    assert(settings@[5].0@ == "retries"@);
    assert(settings@[6].0@ == "compression.type"@);
}


/// An alteration is refused with the code of the first outcome that is not done; that a topic
/// exists already is one.
pub proof fn alterations_fail_by_the_first_that_is_not_done(
    babamul: &mut Babamul,
    topic: &str,
    outcomes: Vec<TopicOutcome>,
    error: EnrichmentWorkerError,
    k: int,
)
    requires
        call_ensures(
            Babamul::topic_altered,
            (babamul, topic, &Ok::<Vec<TopicOutcome>, String>(outcomes)),
            Err::<(), EnrichmentWorkerError>(error),
        ),
        0 <= k < outcomes@.len(),
        !(outcomes@[k] is Done),
        forall|j: int| 0 <= j < k ==> (#[trigger] outcomes@[j]) is Done,
    ensures
        error matches EnrichmentWorkerError::Kafka(message) && message@
            == "Failed to set retention for "@ + topic@ + " (code: "@ + (match outcomes@[k] {
            TopicOutcome::Failed(code) => code@,
            _ => "TopicAlreadyExists"@,
        }) + ")"@,
{
    lemma_alteration_fault(outcomes@, k);
}

proof fn lemma_alteration_fault(outcomes: Seq<TopicOutcome>, k: int)
    requires
        0 <= k < outcomes.len(),
        !(outcomes[k] is Done),
        forall|j: int| 0 <= j < k ==> (#[trigger] outcomes[j]) is Done,
    ensures
        alteration_fault(outcomes) == Some(
            match outcomes[k] {
                TopicOutcome::Failed(code) => code@,
                _ => "TopicAlreadyExists"@,
            },
        ),
    decreases outcomes.len(),
{
    if k > 0 {
        let rest = outcomes.drop_first();
        assert(outcomes[0] is Done);
        assert forall|j: int| 0 <= j < k - 1 implies (#[trigger] rest[j]) is Done by {
            assert(outcomes[j + 1] is Done);
        }
        lemma_alteration_fault(rest, k - 1);
    }
}

}
