//! Which alerts are shared, under which topics, and with which measurements.
use vstd::prelude::*;

use crate::binary::{Double, Single};
use crate::enrichment::babamul::{
    alteration_fault, creation_fault, delivered, detection_of, detections,
    every_shared_lsst_alert_is_routed, every_shared_ztf_alert_is_routed, forced, forced_of,
    lost_outcome, lsst_shared, lsst_topics, nondetection_of, nondetections,
    only_public_ztf_alerts_are_routed, only_shared_lsst_alerts_are_routed, shared_points,
    ztf_shared, ztf_topics, AlertPhotometry, Babamul, BabamulLsstAlert, BabamulSurveyMatch,
    BabamulSurveyMatches, BabamulZtfAlert, ForcedPhotometry, LocatedAlert, LsstAlertForEnrichment,
    LsstTraits, NonDetectionPhotometry, RecordOutcome, StoredMatch, StoredPhotometry, TopicOutcome,
    ZtfAlertForEnrichment, ZtfTraits, ZTF_HOSTED_SG_SCORE_THRESH, ZTF_MIN_DRB,
};
use crate::named::{listed, Named};

verus! {

/// Whether a text ends in another.
pub open spec fn ends_in(s: Seq<char>, end: Seq<char>) -> bool {
    s.len() >= end.len() && s.subrange(s.len() - end.len(), s.len() as int) == end
}

/// Whether a star-galaxy score lies between 0 and the threshold.
pub open spec fn low_score(score: Option<Single>) -> bool {
    score is Some && (Single { bits: 0 }).at_most(score->0) && score->0.at_most(
        Single { bits: ZTF_HOSTED_SG_SCORE_THRESH },
    )
}

proof fn lemma_starts()
    ensures
        "no-"@ + "lsst"@ + "-match."@ == "no-lsst-match."@,
        "lsst"@ + "-match."@ == "lsst-match."@,
        "no-"@ + "ztf"@ + "-match."@ == "no-ztf-match."@,
        "ztf"@ + "-match."@ == "ztf-match."@,
{
    reveal_strlit("no-");
    reveal_strlit("lsst");
    reveal_strlit("ztf");
    reveal_strlit("-match.");
    reveal_strlit("no-lsst-match.");
    reveal_strlit("lsst-match.");
    reveal_strlit("no-ztf-match.");
    reveal_strlit("ztf-match.");
    assert("no-"@ + "lsst"@ + "-match."@ =~= "no-lsst-match."@);
    assert("lsst"@ + "-match."@ =~= "lsst-match."@);
    assert("no-"@ + "ztf"@ + "-match."@ =~= "no-ztf-match."@);
    assert("ztf"@ + "-match."@ =~= "ztf-match."@);
}

proof fn lemma_ends(start: Seq<char>)
    ensures
        ends_in(start + "stellar"@, "stellar"@),
        !ends_in(start + "stellar"@, "hosted"@),
        !ends_in(start + "stellar"@, "hostless"@),
        !ends_in(start + "stellar"@, "unknown"@),
        !ends_in(start + "hosted"@, "stellar"@),
        ends_in(start + "hosted"@, "hosted"@),
        !ends_in(start + "hosted"@, "hostless"@),
        !ends_in(start + "hosted"@, "unknown"@),
        !ends_in(start + "hostless"@, "stellar"@),
        !ends_in(start + "hostless"@, "hosted"@),
        ends_in(start + "hostless"@, "hostless"@),
        !ends_in(start + "hostless"@, "unknown"@),
        !ends_in(start + "unknown"@, "stellar"@),
        !ends_in(start + "unknown"@, "hosted"@),
        !ends_in(start + "unknown"@, "hostless"@),
        ends_in(start + "unknown"@, "unknown"@),
{
    reveal_strlit("stellar");
    reveal_strlit("hosted");
    reveal_strlit("hostless");
    reveal_strlit("unknown");
    let stellar = start + "stellar"@;
    let hosted = start + "hosted"@;
    let hostless = start + "hostless"@;
    let unknown = start + "unknown"@;
    assert(stellar.subrange(stellar.len() - 7, stellar.len() as int) =~= "stellar"@);
    assert(hosted.subrange(hosted.len() - 6, hosted.len() as int) =~= "hosted"@);
    assert(hostless.subrange(hostless.len() - 8, hostless.len() as int) =~= "hostless"@);
    assert(unknown.subrange(unknown.len() - 7, unknown.len() as int) =~= "unknown"@);
    lemma_last(stellar, "hosted"@);
    lemma_last(stellar, "hostless"@);
    lemma_last(stellar, "unknown"@);
    lemma_last(hosted, "stellar"@);
    lemma_last(hosted, "hostless"@);
    lemma_last(hosted, "unknown"@);
    lemma_last(hostless, "stellar"@);
    lemma_last(hostless, "hosted"@);
    lemma_last(hostless, "unknown"@);
    lemma_last(unknown, "stellar"@);
    lemma_last(unknown, "hosted"@);
    lemma_last(unknown, "hostless"@);
    assert(stellar.last() == 'r' && hosted.last() == 'd' && hostless.last() == 's');
    assert(unknown.last() == 'n');
}

proof fn lemma_last(s: Seq<char>, end: Seq<char>)
    requires
        end.len() > 0,
    ensures
        ends_in(s, end) ==> s.last() == end.last(),
{
    if ends_in(s, end) {
        assert(s.subrange(s.len() - end.len(), s.len() as int).last() == s.last());
    }
}

/// The category of a ZTF alert tells whether it has a match in LSST, and then that it is
/// stellar, whenever it is a star or near a bright one, or else that it is hosted, whenever
/// one of its three scores is low, or else that it is hostless.
pub proof fn ztf_categories<C>(alert: BabamulZtfAlert<C>)
    ensures
        ({
            let t = alert.traits;
            let start = if alert.survey_matches.lsst is Some {
                "lsst-match."@
            } else {
                "no-lsst-match."@
            };
            let star = t.star || t.near_brightstar;
            let host = low_score(t.sgscore1) || low_score(t.sgscore2) || low_score(t.sgscore3);
            &&& star ==> alert.category() == start + "stellar"@
            &&& !star && host ==> alert.category() == start + "hosted"@
            &&& !star && !host ==> alert.category() == start + "hostless"@
            &&& ends_in(alert.category(), "stellar"@) <==> star
            &&& ends_in(alert.category(), "hosted"@) <==> !star && host
            &&& ends_in(alert.category(), "hostless"@) <==> !star && !host
        }),
{
    lemma_starts();
    lemma_ends("lsst-match."@);
    lemma_ends("no-lsst-match."@);
}

/// The category of an LSST alert tells whether it has a match in ZTF, and then that it is
/// stellar, whenever it is flagged as a star or near a bright one, or else by the scores at
/// its position: hosted when one is at most the threshold, unknown when there is none and
/// the catalog does not reach there, and hostless otherwise.
pub proof fn lsst_categories<C>(
    alert: BabamulLsstAlert<C>,
    scores: Seq<Option<Double>>,
    in_footprint: bool,
    threshold: Double,
)
    ensures
        ({
            let t = alert.traits;
            let category = alert.category(scores, in_footprint, threshold);
            let start = if alert.survey_matches.ztf is Some {
                "ztf-match."@
            } else {
                "no-ztf-match."@
            };
            let star = t.star == Some(true) || t.near_brightstar == Some(true);
            let host = exists|i: int|
                0 <= i < scores.len() && (#[trigger] scores[i]) is Some && scores[i]->0.at_most(
                    threshold,
                );
            let covered = scores.len() > 0 || in_footprint;
            &&& star ==> category == start + "stellar"@
            &&& !star && host ==> category == start + "hosted"@
            &&& !star && !host && covered ==> category == start + "hostless"@
            &&& !star && !covered ==> category == start + "unknown"@
            &&& ends_in(category, "stellar"@) <==> star
            &&& ends_in(category, "hosted"@) <==> !star && host
            &&& ends_in(category, "hostless"@) <==> !star && !host && covered
            &&& ends_in(category, "unknown"@) <==> !star && !covered
        }),
{
    lemma_starts();
    lemma_ends("ztf-match."@);
    lemma_ends("no-ztf-match."@);
    let host = exists|i: int|
        0 <= i < scores.len() && (#[trigger] scores[i]) is Some && scores[i]->0.at_most(threshold);
    if host {
        let i = choose|i: int|
            0 <= i < scores.len() && (#[trigger] scores[i]) is Some && scores[i]->0.at_most(
                threshold,
            );
        assert(scores[i] matches Some(score) && score.at_most(threshold));
    }
}

/// A ZTF alert is shared exactly when it is of the public programme, no rock, and of a score
/// that is not below 0.2; one without a score is not.
pub proof fn which_ztf_alerts_are_shared(traits: ZtfTraits)
    ensures
        ztf_shared(traits) <==> {
            &&& traits.programid == 1
            &&& !traits.rock
            &&& traits.drb is Some
            &&& !traits.drb->0.less(Single { bits: ZTF_MIN_DRB })
        },
{
    assert((Single { bits: 0 }).less(Single { bits: ZTF_MIN_DRB }));
}

/// An LSST alert is shared exactly when its reliability is not negative, none of its pixel
/// flags is set, and it is no rock.
pub proof fn which_lsst_alerts_are_shared(traits: LsstTraits)
    ensures
        lsst_shared(traits) <==> {
            &&& traits.reliability is None || !traits.reliability->0.less(Single { bits: 0 })
            &&& traits.pixel_flags != Some(true)
            &&& !traits.rock
        },
{
}

/// Each alert of ZTF is listed under the topic of its category exactly when it is shared, and
/// under no other. So none near a bright star is listed as hosted or hostless.
pub proof fn ztf_alerts_are_listed_under_their_category<C>(
    alerts: Seq<BabamulZtfAlert<C>>,
    topic: Seq<char>,
    k: int,
)
    requires
        0 <= k < alerts.len() <= usize::MAX,
    ensures
        listed(ztf_topics(alerts, alerts.len()), topic).contains(k as usize) <==> ({
            let t = alerts[k].traits;
            &&& topic == "babamul.ztf."@ + alerts[k].category()
            &&& t.programid == 1 && !t.rock && t.drb is Some && !t.drb->0.less(
                Single { bits: ZTF_MIN_DRB },
            )
        }),
        listed(ztf_topics(alerts, alerts.len()), topic).contains(k as usize) ==> (ends_in(
            topic,
            "stellar"@,
        ) <==> alerts[k].traits.star || alerts[k].traits.near_brightstar),
{
    which_ztf_alerts_are_shared(alerts[k].traits);
    let items = listed(ztf_topics(alerts, alerts.len()), topic);
    if items.contains(k as usize) {
        let i = choose|i: int| 0 <= i < items.len() && items[i] == k as usize;
        only_public_ztf_alerts_are_routed(alerts, alerts.len(), topic, i);
        let category = alerts[k].category();
        ztf_categories(alerts[k]);
        reveal_strlit("lsst-match.");
        reveal_strlit("no-lsst-match.");
        reveal_strlit("stellar");
        lemma_longer_end("babamul.ztf."@, category, "stellar"@);
    }
    if ztf_shared(alerts[k].traits) {
        every_shared_ztf_alert_is_routed(alerts, alerts.len(), k);
    }
}

proof fn lemma_longer_end(start: Seq<char>, s: Seq<char>, end: Seq<char>)
    requires
        s.len() >= end.len(),
    ensures
        ends_in(start + s, end) <==> ends_in(s, end),
{
    let whole = start + s;
    assert(whole.subrange(whole.len() - end.len(), whole.len() as int) =~= s.subrange(
        s.len() - end.len(),
        s.len() as int,
    ));
}

/// Each alert of LSST is listed under the topic of its category exactly when it is shared,
/// and under no other.
pub proof fn lsst_alerts_are_listed_under_their_category<C>(
    alerts: Seq<LocatedAlert<C>>,
    threshold: Double,
    topic: Seq<char>,
    k: int,
)
    requires
        0 <= k < alerts.len() <= usize::MAX,
    ensures
        listed(lsst_topics(alerts, threshold, alerts.len()), topic).contains(k as usize) <==> ({
            let t = alerts[k].alert.traits;
            &&& topic == "babamul.lsst."@ + alerts[k].alert.category(
                alerts[k].scores@,
                alerts[k].in_footprint,
                threshold,
            )
            &&& t.reliability is None || !t.reliability->0.less(Single { bits: 0 })
            &&& t.pixel_flags != Some(true)
            &&& !t.rock
        }),
{
    which_lsst_alerts_are_shared(alerts[k].alert.traits);
    let items = listed(lsst_topics(alerts, threshold, alerts.len()), topic);
    if items.contains(k as usize) {
        let i = choose|i: int| 0 <= i < items.len() && items[i] == k as usize;
        only_shared_lsst_alerts_are_routed(alerts, threshold, alerts.len(), topic, i);
    }
    if lsst_shared(alerts[k].alert.traits) {
        every_shared_lsst_alert_is_routed(alerts, threshold, alerts.len(), k);
    }
}

/// The measurements of a list that are seen by everybody, where only those are shared, and
/// otherwise all.
pub open spec fn visible(p: StoredPhotometry, public_only: bool) -> bool {
    public_only ==> p.programid == Some(1i32)
}

/// Whether some detections are those of a list of measurements: each of the visible ones that
/// have a flux and a position, in order, with all that it says.
pub open spec fn are_detections(
    shared: Seq<AlertPhotometry>,
    points: Seq<StoredPhotometry>,
    public_only: bool,
) -> bool {
    let kept = points.filter(
        |p: StoredPhotometry|
            p.flux is Some && p.ra is Some && p.dec is Some && visible(p, public_only),
    );
    &&& shared.len() == kept.len()
    &&& forall|k: int|
        0 <= k < kept.len() ==> {
            let p = #[trigger] kept[k];
            &&& shared[k].jd == p.jd
            &&& Some(shared[k].flux) == p.flux
            &&& shared[k].flux_err == p.flux_err
            &&& shared[k].band == p.band
            &&& Some(shared[k].ra) == p.ra
            &&& Some(shared[k].dec) == p.dec
        }
}

/// Whether some visits without a detection are those of a list of measurements.
pub open spec fn are_nondetections(
    shared: Seq<NonDetectionPhotometry>,
    points: Seq<StoredPhotometry>,
    public_only: bool,
) -> bool {
    let kept = points.filter(|p: StoredPhotometry| visible(p, public_only));
    &&& shared.len() == kept.len()
    &&& forall|k: int|
        0 <= k < kept.len() ==> {
            let p = #[trigger] kept[k];
            shared[k].jd == p.jd && shared[k].flux_err == p.flux_err && shared[k].band == p.band
        }
}

/// Whether some forced measurements are those of a list of measurements.
pub open spec fn are_forced(
    shared: Seq<ForcedPhotometry>,
    points: Seq<StoredPhotometry>,
    public_only: bool,
) -> bool {
    let kept = points.filter(|p: StoredPhotometry| visible(p, public_only));
    &&& shared.len() == kept.len()
    &&& forall|k: int|
        0 <= k < kept.len() ==> {
            let p = #[trigger] kept[k];
            &&& shared[k].jd == p.jd
            &&& shared[k].flux == p.flux
            &&& shared[k].flux_err == p.flux_err
            &&& shared[k].band == p.band
        }
}

proof fn lemma_shared_points<T>(
    points: Seq<StoredPhotometry>,
    share: spec_fn(StoredPhotometry) -> Option<T>,
    keep: spec_fn(StoredPhotometry) -> bool,
)
    requires
        forall|p: StoredPhotometry| #[trigger] keep(p) <==> share(p) is Some,
    ensures
        shared_points(points, share).len() == points.filter(keep).len(),
        forall|k: int|
            0 <= k < points.filter(keep).len() ==> Some(shared_points(points, share)[k]) == share(
                #[trigger] points.filter(keep)[k],
            ),
    decreases points.len(),
{
    reveal(Seq::filter);
    if points.len() > 0 {
        lemma_shared_points(points.drop_last(), share, keep);
        let before = points.drop_last().filter(keep);
        let shared = shared_points(points.drop_last(), share);
        assert(keep(points.last()) <==> share(points.last()) is Some);
        assert forall|k: int| 0 <= k < points.filter(keep).len() implies Some(
            shared_points(points, share)[k],
        ) == share(#[trigger] points.filter(keep)[k]) by {
            if k < before.len() {
                assert(points.filter(keep)[k] == before[k]);
                assert(shared_points(points, share)[k] == shared[k]);
            }
        }
    }
}

/// The measurements that are shared are, in order, those that may be seen, with what they say
/// unchanged.
pub proof fn measurements_are_shared_as_they_are(
    points: Seq<StoredPhotometry>,
    public_only: bool,
)
    ensures
        are_detections(detections(points, public_only), points, public_only),
        are_nondetections(nondetections(points, public_only), points, public_only),
        are_forced(forced(points, public_only), points, public_only),
{
    lemma_shared_points(
        points,
        |p: StoredPhotometry| detection_of(p, public_only),
        |p: StoredPhotometry|
            p.flux is Some && p.ra is Some && p.dec is Some && visible(p, public_only),
    );
    lemma_shared_points(
        points,
        |p: StoredPhotometry| nondetection_of(p, public_only),
        |p: StoredPhotometry| visible(p, public_only),
    );
    lemma_shared_points(
        points,
        |p: StoredPhotometry| forced_of(p, public_only),
        |p: StoredPhotometry| visible(p, public_only),
    );
}

/// A ZTF alert is shared with its identity and its public measurements, and with all
/// measurements of its match in LSST.
pub proof fn what_is_shared_of_a_ztf_alert<C>(
    shared: BabamulZtfAlert<C>,
    alert: ZtfAlertForEnrichment<C>,
)
    requires
        call_ensures(BabamulZtfAlert::<C>::from_alert_and_properties, (alert,), shared),
    ensures
        shared.candid == alert.candid,
        shared.object_id == alert.object_id,
        shared.candidate == alert.candidate,
        shared.traits == alert.traits,
        are_detections(shared.prv_candidates@, alert.prv_candidates@, true),
        are_nondetections(shared.prv_nondetections@, alert.prv_nondetections@, true),
        are_forced(shared.fp_hists@, alert.fp_hists@, true),
        shared.survey_matches.ztf is None,
        match (alert.lsst_match, shared.survey_matches.lsst) {
            (Some(m), Some(told)) => {
                &&& told.object_id@ == m.object_id@
                &&& told.ra == m.ra
                &&& told.dec == m.dec
                &&& are_detections(told.prv_candidates@, m.prv_candidates@, false)
                &&& told.prv_nondetections@.len() == 0
                &&& are_forced(told.fp_hists@, m.fp_hists@, false)
            },
            (None, None) => true,
            _ => false,
        },
{
    measurements_are_shared_as_they_are(alert.prv_candidates@, true);
    measurements_are_shared_as_they_are(alert.prv_nondetections@, true);
    measurements_are_shared_as_they_are(alert.fp_hists@, true);
    if let Some(m) = alert.lsst_match {
        measurements_are_shared_as_they_are(m.prv_candidates@, false);
        measurements_are_shared_as_they_are(m.fp_hists@, false);
    }
}

/// An LSST alert is shared with its identity and its measurements, and with the public
/// measurements of its match in ZTF, where that has a public detection.
pub proof fn what_is_shared_of_an_lsst_alert<C>(
    shared: BabamulLsstAlert<C>,
    alert: LsstAlertForEnrichment<C>,
)
    requires
        call_ensures(BabamulLsstAlert::<C>::from_alert_and_properties, (alert,), shared),
    ensures
        shared.candid == alert.candid,
        shared.object_id == alert.object_id,
        shared.candidate == alert.candidate,
        shared.traits == alert.traits,
        are_detections(shared.prv_candidates@, alert.prv_candidates@, false),
        are_forced(shared.fp_hists@, alert.fp_hists@, false),
        shared.survey_matches.lsst is None,
        shared.survey_matches.ztf is Some <==> alert.ztf_match is Some && exists|k: int|
            0 <= k < alert.ztf_match->0.prv_candidates@.len() && {
                let p = #[trigger] alert.ztf_match->0.prv_candidates@[k];
                p.programid == Some(1i32) && p.flux is Some && p.ra is Some && p.dec is Some
            },
        shared.survey_matches.ztf matches Some(told) ==> ({
            let m = alert.ztf_match->0;
            &&& told.object_id@ == m.object_id@
            &&& told.ra == m.ra
            &&& told.dec == m.dec
            &&& are_detections(told.prv_candidates@, m.prv_candidates@, true)
            &&& are_nondetections(told.prv_nondetections@, m.prv_nondetections@, true)
            &&& are_forced(told.fp_hists@, m.fp_hists@, true)
        }),
{
    measurements_are_shared_as_they_are(alert.prv_candidates@, false);
    measurements_are_shared_as_they_are(alert.fp_hists@, false);
    if let Some(m) = alert.ztf_match {
        measurements_are_shared_as_they_are(m.prv_candidates@, true);
        measurements_are_shared_as_they_are(m.prv_nondetections@, true);
        measurements_are_shared_as_they_are(m.fp_hists@, true);
        let keep = |p: StoredPhotometry|
            p.flux is Some && p.ra is Some && p.dec is Some && visible(p, true);
        lemma_filter_is_filled(m.prv_candidates@, keep);
        if exists|k: int| 0 <= k < m.prv_candidates@.len() && keep(#[trigger] m.prv_candidates@[k]) {
            let k = choose|k: int|
                0 <= k < m.prv_candidates@.len() && keep(#[trigger] m.prv_candidates@[k]);
            assert(m.prv_candidates@[k].programid == Some(1i32));
        }
        if exists|k: int|
            0 <= k < m.prv_candidates@.len() && {
                let p = #[trigger] m.prv_candidates@[k];
                p.programid == Some(1i32) && p.flux is Some && p.ra is Some && p.dec is Some
            } {
            let k = choose|k: int|
                0 <= k < m.prv_candidates@.len() && {
                    let p = #[trigger] m.prv_candidates@[k];
                    p.programid == Some(1i32) && p.flux is Some && p.ra is Some && p.dec is Some
                };
            assert(keep(m.prv_candidates@[k]));
        }
    }
}

proof fn lemma_filter_is_filled<T>(items: Seq<T>, keep: spec_fn(T) -> bool)
    ensures
        items.filter(keep).len() > 0 <==> exists|k: int|
            0 <= k < items.len() && keep(#[trigger] items[k]),
    decreases items.len(),
{
    reveal(Seq::filter);
    if items.len() > 0 {
        let before = items.drop_last();
        lemma_filter_is_filled(before, keep);
        if keep(items.last()) {
            assert(keep(items[items.len() - 1]));
        }
        if before.filter(keep).len() > 0 {
            let k = choose|k: int| 0 <= k < before.len() && keep(#[trigger] before[k]);
            assert(keep(items[k]));
        }
        if exists|k: int| 0 <= k < items.len() && keep(#[trigger] items[k]) {
            let k = choose|k: int| 0 <= k < items.len() && keep(#[trigger] items[k]);
            if k < before.len() {
                assert(keep(before[k]));
            }
        }
    }
}

/// A topic is there when no creation failed; the first failure is reported, and that it
/// existed is none.
pub proof fn creations_fail_by_their_first_failure(outcomes: Seq<TopicOutcome>)
    ensures
        match creation_fault(outcomes) {
            None => forall|i: int|
                0 <= i < outcomes.len() ==> !((#[trigger] outcomes[i]) is Failed),
            Some(code) => exists|i: int|
                0 <= i < outcomes.len() && (#[trigger] outcomes[i]) is Failed
                    && outcomes[i]->Failed_0@ == code && forall|j: int|
                    0 <= j < i ==> !((#[trigger] outcomes[j]) is Failed),
        },
    decreases outcomes.len(),
{
    if outcomes.len() > 0 {
        let rest = outcomes.drop_first();
        creations_fail_by_their_first_failure(rest);
        assert forall|i: int| 0 < i < outcomes.len() implies #[trigger] outcomes[i] == rest[
            i - 1
        ] by {}
        if !(outcomes[0] is Failed) {
            if let Some(code) = creation_fault(outcomes) {
                let i = choose|i: int|
                    0 <= i < rest.len() && (#[trigger] rest[i]) is Failed && rest[i]->Failed_0@
                        == code && forall|j: int| 0 <= j < i ==> !((#[trigger] rest[j]) is Failed);
                assert(outcomes[i + 1] is Failed && outcomes[i + 1]->Failed_0@ == code);
                assert forall|j: int| 0 <= j < i + 1 implies !((
                #[trigger] outcomes[j]) is Failed) by {
                    if j > 0 {
                        assert(outcomes[j] == rest[j - 1]);
                    }
                }
            }
        } else {
            assert(outcomes[0]->Failed_0@ == creation_fault(outcomes)->0);
        }
    }
}

/// The configuration of a topic is set exactly when every request was done.
pub proof fn alterations_succeed_when_all_are_done(outcomes: Seq<TopicOutcome>)
    ensures
        alteration_fault(outcomes) is None <==> forall|i: int|
            0 <= i < outcomes.len() ==> (#[trigger] outcomes[i]) is Done,
    decreases outcomes.len(),
{
    if outcomes.len() > 0 {
        let rest = outcomes.drop_first();
        alterations_succeed_when_all_are_done(rest);
        assert forall|i: int| 0 < i < outcomes.len() implies #[trigger] outcomes[i] == rest[
            i - 1
        ] by {}
        if forall|i: int| 0 <= i < outcomes.len() ==> (#[trigger] outcomes[i]) is Done {
            assert forall|i: int| 0 <= i < rest.len() implies (#[trigger] rest[i]) is Done by {
                assert(outcomes[i + 1] is Done);
            }
        }
        if alteration_fault(outcomes) is None {
            assert forall|i: int| 0 <= i < outcomes.len() implies (
            #[trigger] outcomes[i]) is Done by {
                if i > 0 {
                    assert(rest[i - 1] is Done);
                }
            }
        }
    }
}

/// The records that count as sent are those that were delivered, as long as no outcome was
/// lost.
pub proof fn delivered_records_are_counted(outcomes: Seq<RecordOutcome>)
    ensures
        delivered(outcomes) == outcomes.filter(|o: RecordOutcome| o is Delivered).len(),
        lost_outcome(outcomes) is None <==> forall|i: int|
            0 <= i < outcomes.len() ==> !((#[trigger] outcomes[i]) is Canceled),
    decreases outcomes.len(),
{
    lemma_delivered(outcomes);
    lemma_lost(outcomes);
}

proof fn lemma_delivered(outcomes: Seq<RecordOutcome>)
    ensures
        delivered(outcomes) == outcomes.filter(|o: RecordOutcome| o is Delivered).len(),
    decreases outcomes.len(),
{
    reveal(Seq::filter);
    if outcomes.len() > 0 {
        lemma_delivered(outcomes.drop_last());
    }
}

proof fn lemma_lost(outcomes: Seq<RecordOutcome>)
    ensures
        lost_outcome(outcomes) is None <==> forall|i: int|
            0 <= i < outcomes.len() ==> !((#[trigger] outcomes[i]) is Canceled),
    decreases outcomes.len(),
{
    if outcomes.len() > 0 {
        let rest = outcomes.drop_first();
        lemma_lost(rest);
        assert forall|i: int| 0 < i < outcomes.len() implies #[trigger] outcomes[i] == rest[
            i - 1
        ] by {}
        if forall|i: int| 0 <= i < outcomes.len() ==> !((#[trigger] outcomes[i]) is Canceled) {
            assert forall|i: int| 0 <= i < rest.len() implies !((#[trigger] rest[i]) is Canceled) by {
                assert(!(outcomes[i + 1] is Canceled));
            }
        }
        if lost_outcome(outcomes) is None {
            assert forall|i: int| 0 <= i < outcomes.len() implies !((
            #[trigger] outcomes[i]) is Canceled) by {
                if i > 0 {
                    assert(!(rest[i - 1] is Canceled));
                }
            }
        }
    }
}

/// A ZTF alert is told its category by its match and its traits alone.
pub proof fn how_ztf_alerts_are_sorted<C>(alert: BabamulZtfAlert<C>, category: String)
    requires
        call_ensures(BabamulZtfAlert::<C>::compute_babamul_category, (&alert,), category),
    ensures
        ({
            let t = alert.traits;
            let star = t.star || t.near_brightstar;
            let host = low_score(t.sgscore1) || low_score(t.sgscore2) || low_score(t.sgscore3);
            &&& category@ == (if alert.survey_matches.lsst is Some {
                "lsst-match."@
            } else {
                "no-lsst-match."@
            }) + (if star {
                "stellar"@
            } else if host {
                "hosted"@
            } else {
                "hostless"@
            })
        }),
{
    ztf_categories(alert);
}

/// An LSST alert is told its category by its match, its traits and the scores at its position.
pub proof fn how_lsst_alerts_are_sorted<C>(
    alert: BabamulLsstAlert<C>,
    scores: Vec<Option<Double>>,
    in_footprint: bool,
    threshold: Double,
    category: String,
)
    requires
        call_ensures(
            BabamulLsstAlert::<C>::compute_babamul_category,
            (&alert, &scores, in_footprint, threshold),
            category,
        ),
    ensures
        ({
            let t = alert.traits;
            let star = t.star == Some(true) || t.near_brightstar == Some(true);
            let host = exists|i: int|
                0 <= i < scores@.len() && (#[trigger] scores@[i]) is Some && scores@[i]->0.at_most(
                    threshold,
                );
            category@ == (if alert.survey_matches.ztf is Some {
                "ztf-match."@
            } else {
                "no-ztf-match."@
            }) + (if star {
                "stellar"@
            } else if host {
                "hosted"@
            } else if scores@.len() > 0 || in_footprint {
                "hostless"@
            } else {
                "unknown"@
            })
        }),
{
    lsst_categories(alert, scores@, in_footprint, threshold);
}

/// The topics that are filled list each alert under its category, exactly when it is shared.
pub proof fn alerts_are_sorted_into_topics<C, D>(
    babamul: Babamul,
    ztf: Vec<BabamulZtfAlert<C>>,
    lsst: Vec<LocatedAlert<D>>,
    threshold: Double,
    ztf_lists: Named<Vec<usize>>,
    lsst_lists: Named<Vec<usize>>,
    topic: Seq<char>,
    category: String,
    k: int,
)
    requires
        call_ensures(Babamul::process_ztf_alerts::<C>, (&babamul, &ztf), ztf_lists),
        call_ensures(
            Babamul::process_lsst_alerts::<D>,
            (&babamul, &lsst, threshold),
            lsst_lists,
        ),
        ztf@.len() <= usize::MAX,
        lsst@.len() <= usize::MAX,
    ensures
        0 <= k < ztf@.len() && call_ensures(
            BabamulZtfAlert::<C>::compute_babamul_category,
            (&ztf@[k],),
            category,
        ) ==> (listed(ztf_lists.lists(), topic).contains(k as usize) <==> ({
            let t = ztf@[k].traits;
            &&& topic == "babamul.ztf."@ + category@
            &&& t.programid == 1
            &&& !t.rock
            &&& t.drb is Some && !t.drb->0.less(Single { bits: ZTF_MIN_DRB })
        })),
        0 <= k < lsst@.len() && call_ensures(
            BabamulLsstAlert::<D>::compute_babamul_category,
            (&lsst@[k].alert, &lsst@[k].scores, lsst@[k].in_footprint, threshold),
            category,
        ) ==> (listed(lsst_lists.lists(), topic).contains(k as usize) <==> ({
            let t = lsst@[k].alert.traits;
            &&& topic == "babamul.lsst."@ + category@
            &&& t.reliability is None || !t.reliability->0.less(Single { bits: 0 })
            &&& t.pixel_flags != Some(true)
            &&& !t.rock
        })),
{
    if 0 <= k < ztf@.len() {
        ztf_alerts_are_listed_under_their_category(ztf@, topic, k);
    }
    if 0 <= k < lsst@.len() {
        lsst_alerts_are_listed_under_their_category(lsst@, threshold, topic, k);
    }
}

/// Whether a match is told with its identity and its measurements.
pub open spec fn tells_match(
    told: BabamulSurveyMatch,
    m: StoredMatch,
    public_only: bool,
) -> bool {
    &&& told.object_id@ == m.object_id@
    &&& told.ra == m.ra
    &&& told.dec == m.dec
    &&& are_detections(told.prv_candidates@, m.prv_candidates@, public_only)
    &&& are_forced(told.fp_hists@, m.fp_hists@, public_only)
    &&& public_only ==> are_nondetections(told.prv_nondetections@, m.prv_nondetections@, true)
    &&& !public_only ==> told.prv_nondetections@.len() == 0
}

/// Of a match in ZTF the public measurements are told, and of one in LSST all but the visits
/// without a detection. A match in ZTF without a public detection is not told at all.
pub proof fn how_matches_are_told(
    m: StoredMatch,
    in_ztf: BabamulSurveyMatch,
    in_lsst: BabamulSurveyMatch,
    ztf: Option<StoredMatch>,
    lsst: Option<StoredMatch>,
    of_lsst: BabamulSurveyMatches,
    of_ztf: BabamulSurveyMatches,
)
    requires
        call_ensures(BabamulSurveyMatch::from_ztf, (&m,), in_ztf),
        call_ensures(BabamulSurveyMatch::from_lsst, (&m,), in_lsst),
        call_ensures(
            BabamulSurveyMatches::of_lsst_alert,
            (match ztf {
                Some(found) => Some(&found),
                None => None,
            },),
            of_lsst,
        ),
        call_ensures(
            BabamulSurveyMatches::of_ztf_alert,
            (match lsst {
                Some(found) => Some(&found),
                None => None,
            },),
            of_ztf,
        ),
    ensures
        tells_match(in_ztf, m, true),
        tells_match(in_lsst, m, false),
        of_lsst.lsst is None && of_ztf.ztf is None,
        of_ztf.lsst is Some <==> lsst is Some,
        of_ztf.lsst matches Some(told) ==> tells_match(told, lsst->0, false),
        of_lsst.ztf is Some <==> ztf is Some && exists|k: int|
            0 <= k < ztf->0.prv_candidates@.len() && {
                let p = #[trigger] ztf->0.prv_candidates@[k];
                p.programid == Some(1i32) && p.flux is Some && p.ra is Some && p.dec is Some
            },
        of_lsst.ztf matches Some(told) ==> tells_match(told, ztf->0, true),
{
    measurements_are_shared_as_they_are(m.prv_candidates@, true);
    measurements_are_shared_as_they_are(m.prv_nondetections@, true);
    measurements_are_shared_as_they_are(m.fp_hists@, true);
    measurements_are_shared_as_they_are(m.prv_candidates@, false);
    measurements_are_shared_as_they_are(m.fp_hists@, false);
    if let Some(found) = lsst {
        measurements_are_shared_as_they_are(found.prv_candidates@, false);
        measurements_are_shared_as_they_are(found.fp_hists@, false);
    }
    if let Some(found) = ztf {
        measurements_are_shared_as_they_are(found.prv_candidates@, true);
        measurements_are_shared_as_they_are(found.prv_nondetections@, true);
        measurements_are_shared_as_they_are(found.fp_hists@, true);
        lemma_public_detections(found.prv_candidates@);
    }
}

proof fn lemma_public_detections(points: Seq<StoredPhotometry>)
    ensures
        detections(points, true).len() > 0 <==> exists|k: int|
            0 <= k < points.len() && {
                let p = #[trigger] points[k];
                p.programid == Some(1i32) && p.flux is Some && p.ra is Some && p.dec is Some
            },
{
    measurements_are_shared_as_they_are(points, true);
    let keep = |p: StoredPhotometry|
        p.flux is Some && p.ra is Some && p.dec is Some && visible(p, true);
    lemma_filter_is_filled(points, keep);
    if exists|k: int| 0 <= k < points.len() && keep(#[trigger] points[k]) {
        let k = choose|k: int| 0 <= k < points.len() && keep(#[trigger] points[k]);
        assert(points[k].programid == Some(1i32));
    }
    if exists|k: int|
        0 <= k < points.len() && {
            let p = #[trigger] points[k];
            p.programid == Some(1i32) && p.flux is Some && p.ra is Some && p.dec is Some
        } {
        let k = choose|k: int|
            0 <= k < points.len() && {
                let p = #[trigger] points[k];
                p.programid == Some(1i32) && p.flux is Some && p.ra is Some && p.dec is Some
            };
        assert(keep(points[k]));
    }
}

/// An alert is shared with its identity, its traits and the measurements that may be seen,
/// and keeps its match in the other survey.
pub proof fn how_alerts_are_shared<C, D>(
    ztf: ZtfAlertForEnrichment<C>,
    lsst: LsstAlertForEnrichment<D>,
    ztf_shared: BabamulZtfAlert<C>,
    lsst_shared: BabamulLsstAlert<D>,
)
    requires
        call_ensures(BabamulZtfAlert::<C>::from_alert_and_properties, (ztf,), ztf_shared),
        call_ensures(BabamulLsstAlert::<D>::from_alert_and_properties, (lsst,), lsst_shared),
    ensures
        ztf_shared.candid == ztf.candid && lsst_shared.candid == lsst.candid,
        ztf_shared.object_id == ztf.object_id && lsst_shared.object_id == lsst.object_id,
        ztf_shared.candidate == ztf.candidate && lsst_shared.candidate == lsst.candidate,
        ztf_shared.traits == ztf.traits && lsst_shared.traits == lsst.traits,
        are_detections(ztf_shared.prv_candidates@, ztf.prv_candidates@, true),
        are_nondetections(ztf_shared.prv_nondetections@, ztf.prv_nondetections@, true),
        are_forced(ztf_shared.fp_hists@, ztf.fp_hists@, true),
        are_detections(lsst_shared.prv_candidates@, lsst.prv_candidates@, false),
        are_forced(lsst_shared.fp_hists@, lsst.fp_hists@, false),
        ztf_shared.survey_matches.ztf is None && lsst_shared.survey_matches.lsst is None,
        ztf_shared.survey_matches.lsst is Some <==> ztf.lsst_match is Some,
        ztf_shared.survey_matches.lsst matches Some(told) ==> tells_match(
            told,
            ztf.lsst_match->0,
            false,
        ),
        lsst_shared.survey_matches.ztf matches Some(told) ==> tells_match(
            told,
            lsst.ztf_match->0,
            true,
        ),
        lsst_shared.survey_matches.ztf is None ==> lsst.ztf_match is None || forall|k: int|
            0 <= k < lsst.ztf_match->0.prv_candidates@.len() ==> {
                let p = #[trigger] lsst.ztf_match->0.prv_candidates@[k];
                p.programid != Some(1i32) || p.flux is None || p.ra is None || p.dec is None
            },
{
    what_is_shared_of_a_ztf_alert(ztf_shared, ztf);
    what_is_shared_of_an_lsst_alert(lsst_shared, lsst);
}

}
