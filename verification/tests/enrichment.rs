use boom::binary::{Double, Single};
use boom::enrichment::babamul::{
    count_delivered, producer_settings, survey_from_topic, Babamul, BabamulLsstAlert, BabamulSurveyMatches, BabamulZtfAlert, EnrichmentWorkerError,
    LocatedAlert, LsstAlertForEnrichment, LsstTraits, RecordOutcome, StoredMatch,
    StoredPhotometry, TopicOutcome, ZtfAlertForEnrichment, ZtfTraits,
};
use boom::enrichment::models::{SharedModelPool, SharedModels};
use boom::kafka::lsst::LsstAlertConsumer;
use boom::utils::enums::Survey;
use boom::utils::lightcurves::Band;

fn d(x: f64) -> Double {
    Double { bits: x.to_bits() }
}

fn s(x: f32) -> Single {
    Single { bits: x.to_bits() }
}

fn point(jd: f64, flux: Option<f64>, programid: Option<i32>) -> StoredPhotometry {
    StoredPhotometry {
        jd: d(jd),
        flux: flux.map(d),
        flux_err: d(1.0),
        band: Band::G,
        ra: Some(d(10.0)),
        dec: Some(d(20.0)),
        programid,
    }
}

fn ztf_match(programid: i32) -> StoredMatch {
    StoredMatch {
        object_id: "ZTF1".to_string(),
        ra: d(10.0),
        dec: d(20.0),
        prv_candidates: vec![
            point(1.0, Some(5.0), Some(programid)),
            point(2.0, Some(6.0), Some(2)),
            point(3.0, None, Some(programid)),
        ],
        prv_nondetections: vec![point(4.0, None, Some(1)), point(5.0, None, Some(3))],
        fp_hists: vec![point(6.0, None, Some(1)), point(7.0, Some(8.0), Some(2))],
    }
}

#[test]
fn only_public_measurements_are_shared() {
    let shared = BabamulSurveyMatches::of_lsst_alert(Some(&ztf_match(1))).ztf.unwrap();
    let times: Vec<Double> = shared.prv_candidates.iter().map(|p| p.jd).collect();
    assert_eq!(times, vec![d(1.0)]);
    assert_eq!(shared.prv_candidates[0].flux, d(5.0));
    assert_eq!(shared.prv_nondetections.len(), 1);
    assert_eq!(shared.prv_nondetections[0].jd, d(4.0));
    assert_eq!(shared.fp_hists.len(), 1);
    assert_eq!(shared.fp_hists[0].flux, None);
}

#[test]
fn a_match_without_public_detections_is_left_out() {
    assert!(BabamulSurveyMatches::of_lsst_alert(Some(&ztf_match(2))).ztf.is_none());
    assert!(BabamulSurveyMatches::of_lsst_alert(None).ztf.is_none());
    let none = BabamulSurveyMatches::default();
    assert!(none.ztf.is_none() && none.lsst.is_none());
}

#[test]
fn a_match_in_lsst_is_always_shared() {
    let m = StoredMatch {
        prv_candidates: vec![point(1.0, None, None)],
        ..ztf_match(1)
    };
    let shared = BabamulSurveyMatches::of_ztf_alert(Some(&m)).lsst.unwrap();
    assert!(shared.prv_candidates.is_empty());
    assert!(shared.prv_nondetections.is_empty());
}

fn lsst_alert(traits: LsstTraits, matched: bool) -> BabamulLsstAlert<()> {
    BabamulLsstAlert::from_alert_and_properties(LsstAlertForEnrichment {
        candid: 1,
        object_id: "L1".to_string(),
        candidate: (),
        traits,
        prv_candidates: vec![point(1.0, Some(2.0), None), point(2.0, None, None)],
        fp_hists: vec![point(3.0, None, None)],
        ztf_match: if matched { Some(ztf_match(1)) } else { None },
    })
}

fn plain_lsst() -> LsstTraits {
    LsstTraits {
        reliability: Some(s(0.5)),
        pixel_flags: Some(false),
        rock: false,
        star: Some(false),
        near_brightstar: None,
    }
}

#[test]
fn lsst_alerts_fall_into_categories() {
    let alert = lsst_alert(plain_lsst(), true);
    assert_eq!(alert.prv_candidates.len(), 1);
    assert_eq!(alert.fp_hists.len(), 1);
    let category = |scores: Vec<Option<f64>>, in_footprint: bool| {
        let scores = scores.into_iter().map(|x| x.map(d)).collect();
        alert.compute_babamul_category(&scores, in_footprint, d(0.5))
    };
    assert_eq!(category(vec![], true), "ztf-match.hostless");
    assert_eq!(category(vec![], false), "ztf-match.unknown");
    assert_eq!(category(vec![None, Some(0.9)], true), "ztf-match.hostless");
    assert_eq!(category(vec![Some(0.9), Some(0.5)], false), "ztf-match.hosted");
    let star = lsst_alert(LsstTraits { star: Some(true), ..plain_lsst() }, false);
    assert_eq!(
        star.compute_babamul_category(&vec![Some(d(0.1))], true, d(0.5)),
        "no-ztf-match.stellar"
    );
    let bright = lsst_alert(LsstTraits { near_brightstar: Some(true), ..plain_lsst() }, false);
    assert_eq!(
        bright.compute_babamul_category(&vec![], true, d(0.5)),
        "no-ztf-match.stellar"
    );
}

fn plain_ztf() -> ZtfTraits {
    ZtfTraits {
        programid: 1,
        drb: Some(s(0.9)),
        sgscore1: None,
        sgscore2: Some(s(-99.0)),
        sgscore3: Some(s(0.7)),
        rock: false,
        star: false,
        near_brightstar: false,
    }
}

fn ztf_alert(traits: ZtfTraits, matched: bool) -> BabamulZtfAlert<()> {
    BabamulZtfAlert::from_alert_and_properties(ZtfAlertForEnrichment {
        candid: 1,
        object_id: "Z1".to_string(),
        candidate: (),
        traits,
        prv_candidates: vec![],
        prv_nondetections: vec![],
        fp_hists: vec![],
        lsst_match: if matched { Some(ztf_match(1)) } else { None },
    })
}

#[test]
fn ztf_alerts_fall_into_categories() {
    let category = |traits, matched| ztf_alert(traits, matched).compute_babamul_category();
    assert_eq!(category(plain_ztf(), false), "no-lsst-match.hostless");
    assert_eq!(category(plain_ztf(), true), "lsst-match.hostless");
    let hosted = ZtfTraits { sgscore3: Some(s(0.5)), ..plain_ztf() };
    assert_eq!(category(hosted, true), "lsst-match.hosted");
    let galaxy = ZtfTraits { sgscore1: Some(s(0.0)), ..plain_ztf() };
    assert_eq!(category(galaxy, false), "no-lsst-match.hosted");
    let star = ZtfTraits { star: true, ..galaxy };
    assert_eq!(category(star, false), "no-lsst-match.stellar");
}

#[test]
fn alerts_are_grouped_by_topic() {
    let alerts = vec![
        ztf_alert(plain_ztf(), false),
        ztf_alert(ZtfTraits { programid: 2, ..plain_ztf() }, false),
        ztf_alert(ZtfTraits { star: true, ..plain_ztf() }, false),
        ztf_alert(ZtfTraits { rock: true, ..plain_ztf() }, false),
        ztf_alert(ZtfTraits { drb: Some(s(0.1)), ..plain_ztf() }, false),
        ztf_alert(ZtfTraits { drb: None, ..plain_ztf() }, false),
        ztf_alert(plain_ztf(), false),
    ];
    let topics = Babamul::new(1).process_ztf_alerts(&alerts);
    assert_eq!(topics.entries.len(), 2);
    assert_eq!(topics.get("babamul.ztf.no-lsst-match.hostless"), Some(&vec![0, 6]));
    assert_eq!(topics.get("babamul.ztf.no-lsst-match.stellar"), Some(&vec![2]));
    for (topic, _) in &topics.entries {
        assert_eq!(survey_from_topic(topic), "ZTF");
    }
}

#[test]
fn unreliable_lsst_alerts_are_not_routed() {
    let located = |traits| LocatedAlert {
        alert: lsst_alert(traits, false),
        scores: vec![],
        in_footprint: true,
    };
    let alerts = vec![
        located(LsstTraits { reliability: Some(s(-0.1)), ..plain_lsst() }),
        located(LsstTraits { pixel_flags: Some(true), ..plain_lsst() }),
        located(LsstTraits { rock: true, ..plain_lsst() }),
        located(LsstTraits { reliability: None, ..plain_lsst() }),
    ];
    let topics = Babamul::new(1).process_lsst_alerts(&alerts, d(0.5));
    assert_eq!(topics.entries.len(), 1);
    assert_eq!(topics.get("babamul.lsst.no-ztf-match.hostless"), Some(&vec![3]));
    assert_eq!(survey_from_topic("babamul.lsst.no-ztf-match.hostless"), "LSST");
    assert_eq!(survey_from_topic("babamul.none"), "unknown");
}

fn kafka(error: EnrichmentWorkerError) -> String {
    match error {
        EnrichmentWorkerError::Kafka(text) => text,
        EnrichmentWorkerError::Serialization(_) => panic!("not a Kafka error"),
    }
}

#[test]
fn a_topic_is_checked_once() {
    let mut babamul = Babamul::new(7);
    assert_eq!(babamul.topic_retention_ms, 604_800_000);
    let plan = babamul.check_topic("t", None).unwrap();
    assert_eq!(plan.partitions, 15);
    assert_eq!(plan.replication, 1);
    assert_eq!(plan.retention_ms, "604800000");
    assert_eq!(plan.cleanup_policy, "delete");
    assert!(babamul.topic_created("t", &Ok(vec![TopicOutcome::AlreadyExists])).is_ok());
    assert!(babamul.topic_altered("t", &Ok(vec![TopicOutcome::Done])).is_ok());
    assert!(babamul.check_topic("t", None).is_none());
    assert!(babamul.check_topic("u", None).is_some());
}

#[test]
fn partitions_come_from_the_setting() {
    let babamul = Babamul::new(0);
    let partitions = |setting| babamul.check_topic("t", setting).unwrap().partitions;
    assert_eq!(partitions(Some("3")), 3);
    assert_eq!(partitions(Some("+4")), 4);
    assert_eq!(partitions(Some("-2")), -2);
    assert_eq!(partitions(Some("three")), 15);
    assert_eq!(partitions(Some("")), 15);
    assert_eq!(partitions(Some("2147483648")), 15);
    assert_eq!(partitions(Some("-2147483648")), i32::MIN);
}

#[test]
fn a_topic_that_fails_is_tried_again() {
    let mut babamul = Babamul::new(1);
    let failed = || Ok(vec![TopicOutcome::Done, TopicOutcome::Failed("PolicyViolation".to_string())]);
    assert_eq!(
        kafka(babamul.topic_created("t", &failed()).unwrap_err()),
        "Failed to ensure topic t with retention (code: PolicyViolation)"
    );
    assert_eq!(
        kafka(babamul.topic_altered("t", &failed()).unwrap_err()),
        "Failed to set retention for t (code: PolicyViolation)"
    );
    assert_eq!(
        kafka(babamul.topic_altered("t", &Ok(vec![TopicOutcome::AlreadyExists])).unwrap_err()),
        "Failed to set retention for t (code: TopicAlreadyExists)"
    );
    let lost = || Err("no broker".to_string());
    assert_eq!(
        kafka(babamul.topic_created("t", &lost()).unwrap_err()),
        "Admin create_topics error: no broker"
    );
    assert_eq!(
        kafka(babamul.topic_altered("t", &lost()).unwrap_err()),
        "Admin alter_configs error: no broker"
    );
    assert!(babamul.check_topic("t", None).is_some());
}

#[test]
fn the_producer_fails_with_a_reason() {
    let babamul = Babamul::new(1);
    assert!(babamul.enqueued(Ok(())).is_ok() && babamul.flush(Ok(())).is_ok());
    let full = babamul.enqueued(Err("queue full".to_string()));
    assert_eq!(kafka(full.unwrap_err()), "Failed to enqueue Kafka record: queue full");
    let late = babamul.flush(Err("timed out".to_string()));
    assert_eq!(kafka(late.unwrap_err()), "Kafka flush failed: timed out");
}

#[test]
fn only_delivered_records_count() {
    let outcomes = vec![
        RecordOutcome::Delivered,
        RecordOutcome::Undelivered,
        RecordOutcome::Delivered,
    ];
    assert_eq!(count_delivered(&outcomes).unwrap(), 2);
    let lost = vec![
        RecordOutcome::Delivered,
        RecordOutcome::Canceled("gone".to_string()),
        RecordOutcome::Canceled("later".to_string()),
    ];
    assert_eq!(
        kafka(count_delivered(&lost).unwrap_err()),
        "Failed to send Kafka record: gone"
    );
}

#[test]
fn the_producer_compresses_large_batches() {
    let settings = producer_settings();
    assert!(settings.contains(&("batch.size", "1048576")));
    assert!(settings.contains(&("compression.type", "zstd")));
}

fn acai(path: &'static str, device: Option<i32>) -> Result<(String, Option<i32>), String> {
    Ok((path.to_string(), device))
}

#[test]
fn every_model_is_loaded_from_its_file() {
    let models = SharedModels::load(Some(3), &acai, &acai).unwrap();
    assert_eq!(models.acai_h.0, "data/models/acai_h.d1_dnn_20201130.onnx");
    assert_eq!(models.acai_n.0, "data/models/acai_n.d1_dnn_20201130.onnx");
    assert_eq!(models.acai_v.0, "data/models/acai_v.d1_dnn_20201130.onnx");
    assert_eq!(models.acai_o.0, "data/models/acai_o.d1_dnn_20201130.onnx");
    assert_eq!(models.acai_b.0, "data/models/acai_b.d1_dnn_20201130.onnx");
    assert_eq!(models.btsbot.0, "data/models/btsbot-v1.0.1.onnx");
    assert_eq!(models.btsbot.1, Some(3));
}

#[test]
fn workers_get_model_sets_in_turn() {
    let mut pool = SharedModelPool::load(&[4, 5, 6], &acai, &acai).unwrap();
    assert_eq!(pool.len(), 3);
    assert!(!pool.is_empty());
    let devices: Vec<Option<i32>> = (0..7).map(|_| pool.next_model_set().acai_h.1).collect();
    assert_eq!(
        devices,
        vec![Some(4), Some(5), Some(6), Some(4), Some(5), Some(6), Some(4)]
    );
    // Seven workers on three devices: none serves more than three.
    assert!([4, 5, 6].iter().all(|id| devices.iter().filter(|x| **x == Some(*id)).count() <= 3));
}

#[test]
fn without_devices_one_set_is_loaded_on_the_cpu() {
    let mut pool = SharedModelPool::load(&[], &acai, &acai).unwrap();
    assert_eq!(pool.len(), 1);
    assert_eq!(pool.next_model_set().acai_b.1, None);
}

#[test]
fn the_first_model_that_fails_ends_the_load() {
    let broken = |path: &'static str, _device: Option<i32>| -> Result<u8, String> {
        if path.contains("acai_v") {
            Err(path.to_string())
        } else {
            Ok(0)
        }
    };
    let error = SharedModelPool::load(&[0], &broken, &broken).unwrap_err();
    assert_eq!(error, "data/models/acai_v.d1_dnn_20201130.onnx");
    // The first in order, of the models and of the devices.
    let missing = |path: &'static str, device: Option<i32>| -> Result<u8, String> {
        if device == Some(0) || path.contains("acai_h") {
            Ok(0)
        } else {
            Err(format!("{path} on {device:?}"))
        }
    };
    let error = SharedModelPool::load(&[0, 1, 2], &missing, &missing).unwrap_err();
    assert_eq!(error, "data/models/acai_n.d1_dnn_20201130.onnx on Some(1)");
}

#[test]
fn the_lsst_consumer_has_a_queue_and_a_topic() {
    let consumer = LsstAlertConsumer::new(None, false);
    assert_eq!(consumer.output_queue(), "LSST_alerts_packets_queue");
    assert_eq!(consumer.topic_names(0), vec!["lsst-alerts-v11"]);
    assert_eq!(consumer.survey(), Survey::Lsst);
    let simulated = LsstAlertConsumer::new(Some("q"), true);
    assert_eq!(simulated.output_queue(), "q");
    assert_eq!(simulated.topic_names(5), vec!["alerts-simulated"]);
}
