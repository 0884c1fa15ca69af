//! Routing enriched alerts to public topics.
use vstd::prelude::*;

use crate::binary::{Double, Single};
use crate::named::{
    listed, put, setting_a_name_leaves_the_others, what_was_set_is_read_back, Named,
};
use crate::text::{has_prefix, join3, same, signed_decimal, starts_with, write_i64};
use crate::utils::lightcurves::Band;
use crate::utils::parser::{integer_of, read_i32};

verus! {

/// The 32-bit pattern of 0.5.
pub const ZTF_HOSTED_SG_SCORE_THRESH: u32 = 0x3F00_0000;

/// The 32-bit pattern of 0.
pub const LSST_MIN_RELIABILITY: u32 = 0;

/// The 32-bit pattern of 0.2.
pub const ZTF_MIN_DRB: u32 = 0x3E4C_CCCD;

/// A detection. Fluxes are in nJy.
#[derive(Clone, Copy, Debug, PartialEq, Eq, Structural)]
pub struct AlertPhotometry {
    pub jd: Double,
    pub flux: Double,
    pub flux_err: Double,
    pub band: Band,
    pub ra: Double,
    pub dec: Double,
}

/// A visit without a detection.
#[derive(Clone, Copy, Debug, PartialEq, Eq, Structural)]
pub struct NonDetectionPhotometry {
    pub jd: Double,
    pub flux_err: Double,
    pub band: Band,
}

/// A measurement at a known position.
#[derive(Clone, Copy, Debug, PartialEq, Eq, Structural)]
pub struct ForcedPhotometry {
    pub jd: Double,
    pub flux: Option<Double>,
    pub flux_err: Double,
    pub band: Band,
}

/// A measurement as it is stored. In a survey with programmes, the programme says who
/// may see it.
#[derive(Clone, Copy, Debug, PartialEq, Eq, Structural)]
pub struct StoredPhotometry {
    pub jd: Double,
    pub flux: Option<Double>,
    pub flux_err: Double,
    pub band: Band,
    pub ra: Option<Double>,
    pub dec: Option<Double>,
    pub programid: Option<i32>,
}

/// The programme of public data.
pub const PUBLIC_PROGRAM: i32 = 1;

/// Whether a measurement is public.
pub open spec fn is_public(p: StoredPhotometry) -> bool {
    p.programid == Some(PUBLIC_PROGRAM)
}

/// Whether a measurement may be shared. Every one may in a survey without programmes.
pub open spec fn may_share(p: StoredPhotometry, public_only: bool) -> bool {
    public_only ==> is_public(p)
}

fn shareable(p: &StoredPhotometry, public_only: bool) -> (holds: bool)
    ensures
        holds == may_share(*p, public_only),
{
    !public_only || match p.programid {
        Some(id) => id == PUBLIC_PROGRAM,
        None => false,
    }
}

/// The detection that a measurement is shared as: one with a flux and a position that
/// may be shared.
pub open spec fn detection_of(p: StoredPhotometry, public_only: bool) -> Option<AlertPhotometry> {
    match (p.flux, p.ra, p.dec) {
        (Some(flux), Some(ra), Some(dec)) => if may_share(p, public_only) {
            Some(
                AlertPhotometry {
                    jd: p.jd,
                    flux,
                    flux_err: p.flux_err,
                    band: p.band,
                    ra,
                    dec,
                },
            )
        } else {
            None
        },
        _ => None,
    }
}

/// The visit without a detection that a measurement is shared as.
pub open spec fn nondetection_of(p: StoredPhotometry, public_only: bool) -> Option<
    NonDetectionPhotometry,
> {
    if may_share(p, public_only) {
        Some(NonDetectionPhotometry { jd: p.jd, flux_err: p.flux_err, band: p.band })
    } else {
        None
    }
}

/// The forced measurement that a measurement is shared as.
pub open spec fn forced_of(p: StoredPhotometry, public_only: bool) -> Option<ForcedPhotometry> {
    if may_share(p, public_only) {
        Some(ForcedPhotometry { jd: p.jd, flux: p.flux, flux_err: p.flux_err, band: p.band })
    } else {
        None
    }
}

/// What `share` makes of measurements, in their order, without those of which it makes
/// nothing.
pub open spec fn shared_points<T>(
    points: Seq<StoredPhotometry>,
    share: spec_fn(StoredPhotometry) -> Option<T>,
) -> Seq<T>
    decreases points.len(),
{
    if points.len() == 0 {
        Seq::empty()
    } else {
        let before = shared_points(points.drop_last(), share);
        match share(points.last()) {
            Some(point) => before.push(point),
            None => before,
        }
    }
}

/// The detections among some measurements.
pub open spec fn detections(points: Seq<StoredPhotometry>, public_only: bool) -> Seq<
    AlertPhotometry,
> {
    shared_points(points, |p: StoredPhotometry| detection_of(p, public_only))
}

/// The visits without a detection among some measurements.
pub open spec fn nondetections(points: Seq<StoredPhotometry>, public_only: bool) -> Seq<
    NonDetectionPhotometry,
> {
    shared_points(points, |p: StoredPhotometry| nondetection_of(p, public_only))
}

/// The forced measurements among some.
pub open spec fn forced(points: Seq<StoredPhotometry>, public_only: bool) -> Seq<
    ForcedPhotometry,
> {
    shared_points(points, |p: StoredPhotometry| forced_of(p, public_only))
}

fn select_detections(points: &Vec<StoredPhotometry>, public_only: bool) -> (selected: Vec<
    AlertPhotometry,
>)
    ensures
        selected@ == detections(points@, public_only),
{
    let mut selected: Vec<AlertPhotometry> = Vec::new();
    let mut i: usize = 0;
    assert(points@.take(0) =~= Seq::empty());
    while i < points.len()
        invariant
            i <= points@.len(),
            selected@ == detections(points@.take(i as int), public_only),
        decreases points.len() - i,
    {
        assert(points@.take(i + 1).drop_last() =~= points@.take(i as int));
        let p: StoredPhotometry = points[i];
        match (p.flux, p.ra, p.dec) {
            (Some(flux), Some(ra), Some(dec)) => {
                if shareable(&p, public_only) {
                    selected.push(
                        AlertPhotometry {
                            jd: p.jd,
                            flux,
                            flux_err: p.flux_err,
                            band: p.band,
                            ra,
                            dec,
                        },
                    );
                }
            },
            _ => {},
        }
        i = i + 1;
    }
    assert(points@.take(i as int) =~= points@);
    selected
}

fn select_nondetections(points: &Vec<StoredPhotometry>, public_only: bool) -> (selected: Vec<
    NonDetectionPhotometry,
>)
    ensures
        selected@ == nondetections(points@, public_only),
{
    let mut selected: Vec<NonDetectionPhotometry> = Vec::new();
    let mut i: usize = 0;
    assert(points@.take(0) =~= Seq::empty());
    while i < points.len()
        invariant
            i <= points@.len(),
            selected@ == nondetections(points@.take(i as int), public_only),
        decreases points.len() - i,
    {
        assert(points@.take(i + 1).drop_last() =~= points@.take(i as int));
        let p: StoredPhotometry = points[i];
        if shareable(&p, public_only) {
            selected.push(
                NonDetectionPhotometry { jd: p.jd, flux_err: p.flux_err, band: p.band },
            );
        }
        i = i + 1;
    }
    assert(points@.take(i as int) =~= points@);
    selected
}

fn select_forced(points: &Vec<StoredPhotometry>, public_only: bool) -> (selected: Vec<
    ForcedPhotometry,
>)
    ensures
        selected@ == forced(points@, public_only),
{
    let mut selected: Vec<ForcedPhotometry> = Vec::new();
    let mut i: usize = 0;
    assert(points@.take(0) =~= Seq::empty());
    while i < points.len()
        invariant
            i <= points@.len(),
            selected@ == forced(points@.take(i as int), public_only),
        decreases points.len() - i,
    {
        assert(points@.take(i + 1).drop_last() =~= points@.take(i as int));
        let p: StoredPhotometry = points[i];
        if shareable(&p, public_only) {
            selected.push(
                ForcedPhotometry { jd: p.jd, flux: p.flux, flux_err: p.flux_err, band: p.band },
            );
        }
        i = i + 1;
    }
    assert(points@.take(i as int) =~= points@);
    selected
}

/// Whatever is shared stems from a measurement that it was made of.
proof fn lemma_shared_points_stem<T>(
    points: Seq<StoredPhotometry>,
    share: spec_fn(StoredPhotometry) -> Option<T>,
    k: int,
)
    requires
        0 <= k < shared_points(points, share).len(),
    ensures
        exists|i: int|
            0 <= i < points.len() && share(#[trigger] points[i]) == Some(
                shared_points(points, share)[k],
            ),
    decreases points.len(),
{
    let before = shared_points(points.drop_last(), share);
    if k < before.len() {
        lemma_shared_points_stem(points.drop_last(), share, k);
        let i = choose|i: int|
            0 <= i < points.drop_last().len() && share(#[trigger] points.drop_last()[i]) == Some(
                before[k],
            );
        assert(points[i] == points.drop_last()[i]);
    } else {
        assert(share(points[points.len() - 1]) == Some(shared_points(points, share)[k]));
    }
}

/// Every detection of ZTF that is shared is a public measurement.
pub proof fn shared_detections_are_public(points: Seq<StoredPhotometry>, k: int)
    requires
        0 <= k < detections(points, true).len(),
    ensures
        exists|i: int|
            0 <= i < points.len() && is_public(#[trigger] points[i]) && detection_of(
                points[i],
                true,
            ) == Some(detections(points, true)[k]),
{
    let share = |p: StoredPhotometry| detection_of(p, true);
    lemma_shared_points_stem(points, share, k);
    let i = choose|i: int|
        0 <= i < points.len() && share(#[trigger] points[i]) == Some(
            shared_points(points, share)[k],
        );
    assert(is_public(points[i]));
}

/// Every visit of ZTF without a detection that is shared is a public measurement.
pub proof fn shared_nondetections_are_public(points: Seq<StoredPhotometry>, k: int)
    requires
        0 <= k < nondetections(points, true).len(),
    ensures
        exists|i: int|
            0 <= i < points.len() && is_public(#[trigger] points[i]) && nondetection_of(
                points[i],
                true,
            ) == Some(nondetections(points, true)[k]),
{
    let share = |p: StoredPhotometry| nondetection_of(p, true);
    lemma_shared_points_stem(points, share, k);
    let i = choose|i: int|
        0 <= i < points.len() && share(#[trigger] points[i]) == Some(
            shared_points(points, share)[k],
        );
    assert(is_public(points[i]));
}

/// Every forced measurement of ZTF that is shared is a public one.
pub proof fn shared_forced_points_are_public(points: Seq<StoredPhotometry>, k: int)
    requires
        0 <= k < forced(points, true).len(),
    ensures
        exists|i: int|
            0 <= i < points.len() && is_public(#[trigger] points[i]) && forced_of(points[i], true)
                == Some(forced(points, true)[k]),
{
    let share = |p: StoredPhotometry| forced_of(p, true);
    lemma_shared_points_stem(points, share, k);
    let i = choose|i: int|
        0 <= i < points.len() && share(#[trigger] points[i]) == Some(
            shared_points(points, share)[k],
        );
    assert(is_public(points[i]));
}

/// An object of another survey at the position of an alert, as it is stored.
#[derive(Debug)]
pub struct StoredMatch {
    pub object_id: String,
    pub ra: Double,
    pub dec: Double,
    pub prv_candidates: Vec<StoredPhotometry>,
    pub prv_nondetections: Vec<StoredPhotometry>,
    pub fp_hists: Vec<StoredPhotometry>,
}

/// An object of another survey as it is shared.
#[derive(Debug)]
pub struct BabamulSurveyMatch {
    pub object_id: String,
    pub ra: Double,
    pub dec: Double,
    pub prv_candidates: Vec<AlertPhotometry>,
    pub prv_nondetections: Vec<NonDetectionPhotometry>,
    pub fp_hists: Vec<ForcedPhotometry>,
}

impl BabamulSurveyMatch {
    /// What is shared of a match.
    pub open spec fn shares(&self, m: StoredMatch, public_only: bool) -> bool {
        &&& self.object_id@ == m.object_id@
        &&& self.ra == m.ra
        &&& self.dec == m.dec
        &&& self.prv_candidates@ == detections(m.prv_candidates@, public_only)
        &&& self.fp_hists@ == forced(m.fp_hists@, public_only)
    }

    /// The shared form of a match in ZTF: its public measurements.
    pub fn from_ztf(m: &StoredMatch) -> (shared: BabamulSurveyMatch)
        ensures
            shared.shares(*m, true),
            shared.prv_nondetections@ == nondetections(m.prv_nondetections@, true),
    {
        BabamulSurveyMatch {
            object_id: m.object_id.clone(),
            ra: m.ra,
            dec: m.dec,
            prv_candidates: select_detections(&m.prv_candidates, true),
            prv_nondetections: select_nondetections(&m.prv_nondetections, true),
            fp_hists: select_forced(&m.fp_hists, true),
        }
    }

    /// The shared form of a match in LSST, which has no visits without a detection.
    pub fn from_lsst(m: &StoredMatch) -> (shared: BabamulSurveyMatch)
        ensures
            shared.shares(*m, false),
            shared.prv_nondetections@.len() == 0,
    {
        BabamulSurveyMatch {
            object_id: m.object_id.clone(),
            ra: m.ra,
            dec: m.dec,
            prv_candidates: select_detections(&m.prv_candidates, false),
            prv_nondetections: Vec::new(),
            fp_hists: select_forced(&m.fp_hists, false),
        }
    }
}

/// The matches of an alert in the other surveys.
#[derive(Debug)]
pub struct BabamulSurveyMatches {
    pub ztf: Option<BabamulSurveyMatch>,
    pub lsst: Option<BabamulSurveyMatch>,
}

impl Default for BabamulSurveyMatches {
    fn default() -> (matches: BabamulSurveyMatches)
        ensures
            matches.ztf is None,
            matches.lsst is None,
    {
        BabamulSurveyMatches { ztf: None, lsst: None }
    }
}

impl BabamulSurveyMatches {
    /// The matches of an LSST alert. A match in ZTF without a public detection is left
    /// out.
    pub fn of_lsst_alert(ztf: Option<&StoredMatch>) -> (matches: BabamulSurveyMatches)
        ensures
            matches.lsst is None,
            matches.ztf is Some <==> (ztf matches Some(m) && detections(
                m.prv_candidates@,
                true,
            ).len() > 0),
            matches.ztf matches Some(shared) ==> shared.shares(*ztf->0, true)
                && shared.prv_nondetections@ == nondetections(ztf->0.prv_nondetections@, true),
    {
        match ztf {
            Some(m) => {
                let shared = BabamulSurveyMatch::from_ztf(m);
                if shared.prv_candidates.len() > 0 {
                    BabamulSurveyMatches { ztf: Some(shared), lsst: None }
                } else {
                    BabamulSurveyMatches { ztf: None, lsst: None }
                }
            },
            None => BabamulSurveyMatches { ztf: None, lsst: None },
        }
    }

    /// The matches of a ZTF alert.
    pub fn of_ztf_alert(lsst: Option<&StoredMatch>) -> (matches: BabamulSurveyMatches)
        ensures
            matches.ztf is None,
            matches.lsst is Some <==> lsst is Some,
            matches.lsst matches Some(shared) ==> shared.shares(*lsst->0, false)
                && shared.prv_nondetections@.len() == 0,
    {
        match lsst {
            Some(m) => BabamulSurveyMatches {
                ztf: None,
                lsst: Some(BabamulSurveyMatch::from_lsst(m)),
            },
            None => BabamulSurveyMatches { ztf: None, lsst: None },
        }
    }
}

/// What the routing of an LSST alert depends on.
#[derive(Clone, Copy, Debug)]
pub struct LsstTraits {
    pub reliability: Option<Single>,
    pub pixel_flags: Option<bool>,
    pub rock: bool,
    pub star: Option<bool>,
    pub near_brightstar: Option<bool>,
}

/// An alert of LSST before it is shared.
#[derive(Debug)]
pub struct LsstAlertForEnrichment<C> {
    pub candid: i64,
    pub object_id: String,
    pub candidate: C,
    pub traits: LsstTraits,
    pub prv_candidates: Vec<StoredPhotometry>,
    pub fp_hists: Vec<StoredPhotometry>,
    pub ztf_match: Option<StoredMatch>,
}

/// An alert of LSST as it is shared, with the candidate that is sent along.
#[derive(Debug)]
pub struct BabamulLsstAlert<C> {
    pub candid: i64,
    pub object_id: String,
    pub candidate: C,
    pub traits: LsstTraits,
    pub prv_candidates: Vec<AlertPhotometry>,
    pub fp_hists: Vec<ForcedPhotometry>,
    pub survey_matches: BabamulSurveyMatches,
}

/// What the category of an alert starts with.
pub open spec fn match_part(survey: Seq<char>, matched: bool) -> Seq<char> {
    if matched {
        survey + "-match."@
    } else {
        "no-"@ + survey + "-match."@
    }
}

pub open spec fn flag(b: Option<bool>) -> bool {
    b matches Some(b) && b
}

fn is_set(b: Option<bool>) -> (set: bool)
    ensures
        set == flag(b),
{
    match b {
        Some(b) => b,
        None => false,
    }
}

/// The category of an LSST alert that is no star, by the scores of the catalog sources
/// round it: without any, it is known to have no host only inside the footprint of the
/// catalog; otherwise a source with a low score is a host.
pub open spec fn lsst_label(
    scores: Seq<Option<Double>>,
    in_footprint: bool,
    threshold: Double,
) -> Seq<char> {
    if scores.len() == 0 {
        if in_footprint {
            "hostless"@
        } else {
            "unknown"@
        }
    } else if has_low_score(scores, threshold) {
        "hosted"@
    } else {
        "hostless"@
    }
}

pub open spec fn has_low_score(scores: Seq<Option<Double>>, threshold: Double) -> bool {
    exists|i: int|
        0 <= i < scores.len() && (#[trigger] scores[i] matches Some(score) && score.at_most(
            threshold,
        ))
}

impl<C> BabamulLsstAlert<C> {
    /// The shared form of an alert.
    pub fn from_alert_and_properties(alert: LsstAlertForEnrichment<C>) -> (shared: BabamulLsstAlert<
        C,
    >)
        ensures
            shared.candid == alert.candid,
            shared.object_id == alert.object_id,
            shared.candidate == alert.candidate,
            shared.traits == alert.traits,
            shared.prv_candidates@ == detections(alert.prv_candidates@, false),
            shared.fp_hists@ == forced(alert.fp_hists@, false),
            shared.survey_matches.lsst is None,
            shared.survey_matches.ztf is Some <==> (alert.ztf_match matches Some(m) && detections(
                m.prv_candidates@,
                true,
            ).len() > 0),
            shared.survey_matches.ztf matches Some(m) ==> m.shares(alert.ztf_match->0, true)
                && m.prv_nondetections@ == nondetections(
                alert.ztf_match->0.prv_nondetections@,
                true,
            ),
    {
        let prv_candidates = select_detections(&alert.prv_candidates, false);
        let fp_hists = select_forced(&alert.fp_hists, false);
        let survey_matches = BabamulSurveyMatches::of_lsst_alert(alert.ztf_match.as_ref());
        BabamulLsstAlert {
            candid: alert.candid,
            object_id: alert.object_id,
            candidate: alert.candidate,
            traits: alert.traits,
            prv_candidates,
            fp_hists,
            survey_matches,
        }
    }

    /// The category of the alert.
    pub open spec fn category(
        &self,
        scores: Seq<Option<Double>>,
        in_footprint: bool,
        threshold: Double,
    ) -> Seq<char> {
        match_part("ztf"@, self.survey_matches.ztf is Some) + if flag(self.traits.star) || flag(
            self.traits.near_brightstar,
        ) {
            "stellar"@
        } else {
            lsst_label(scores, in_footprint, threshold)
        }
    }

    /// Sorts the alert into its category. `scores` holds the score of each source of the
    /// star-galaxy catalog at its position.
    pub fn compute_babamul_category(
        &self,
        scores: &Vec<Option<Double>>,
        in_footprint: bool,
        threshold: Double,
    ) -> (category: String)
        ensures
            category@ == self.category(scores@, in_footprint, threshold),
    {
        let start = if self.survey_matches.ztf.is_some() {
            "ztf".to_string().concat("-match.")
        } else {
            join3("no-", "ztf", "-match.")
        };
        if is_set(self.traits.star) || is_set(self.traits.near_brightstar) {
            return start.concat("stellar");
        }
        if scores.len() == 0 {
            return if in_footprint {
                start.concat("hostless")
            } else {
                start.concat("unknown")
            };
        }
        let mut i: usize = 0;
        while i < scores.len()
            invariant
                i <= scores@.len(),
                scores@.len() > 0,
                start@ == match_part("ztf"@, self.survey_matches.ztf is Some),
                !flag(self.traits.star),
                !flag(self.traits.near_brightstar),
                forall|k: int|
                    0 <= k < i ==> !(#[trigger] scores@[k] matches Some(score) && score.at_most(
                        threshold,
                    )),
            decreases scores.len() - i,
        {
            match scores[i] {
                Some(score) => {
                    if score.le(threshold) {
                        assert(scores@[i as int] matches Some(score) && score.at_most(threshold));
                        return start.concat("hosted");
                    }
                },
                None => {},
            }
            i = i + 1;
        }
        start.concat("hostless")
    }
}

/// What the routing of a ZTF alert depends on.
#[derive(Clone, Copy, Debug)]
pub struct ZtfTraits {
    pub programid: i32,
    pub drb: Option<Single>,
    pub sgscore1: Option<Single>,
    pub sgscore2: Option<Single>,
    pub sgscore3: Option<Single>,
    pub rock: bool,
    pub star: bool,
    pub near_brightstar: bool,
}

/// An alert of ZTF before it is shared.
#[derive(Debug)]
pub struct ZtfAlertForEnrichment<C> {
    pub candid: i64,
    pub object_id: String,
    pub candidate: C,
    pub traits: ZtfTraits,
    pub prv_candidates: Vec<StoredPhotometry>,
    pub prv_nondetections: Vec<StoredPhotometry>,
    pub fp_hists: Vec<StoredPhotometry>,
    pub lsst_match: Option<StoredMatch>,
}

/// An alert of ZTF as it is shared, with the candidate that is sent along.
#[derive(Debug)]
pub struct BabamulZtfAlert<C> {
    pub candid: i64,
    pub object_id: String,
    pub candidate: C,
    pub traits: ZtfTraits,
    pub prv_candidates: Vec<AlertPhotometry>,
    pub prv_nondetections: Vec<NonDetectionPhotometry>,
    pub fp_hists: Vec<ForcedPhotometry>,
    pub survey_matches: BabamulSurveyMatches,
}

/// Whether a star-galaxy score points to a galaxy. A negative one stands for none.
pub open spec fn galaxy_score(score: Option<Single>) -> bool {
    score matches Some(s) && (Single { bits: 0 }).at_most(s) && s.at_most(
        Single { bits: ZTF_HOSTED_SG_SCORE_THRESH },
    )
}

fn is_galaxy_score(score: Option<Single>) -> (holds: bool)
    ensures
        holds == galaxy_score(score),
{
    match score {
        Some(s) => (Single { bits: 0 }).le(s) && s.le(Single { bits: ZTF_HOSTED_SG_SCORE_THRESH }),
        None => false,
    }
}

impl<C> BabamulZtfAlert<C> {
    /// The shared form of an alert: public measurements only.
    pub fn from_alert_and_properties(alert: ZtfAlertForEnrichment<C>) -> (shared: BabamulZtfAlert<
        C,
    >)
        ensures
            shared.candid == alert.candid,
            shared.object_id == alert.object_id,
            shared.candidate == alert.candidate,
            shared.traits == alert.traits,
            shared.prv_candidates@ == detections(alert.prv_candidates@, true),
            shared.prv_nondetections@ == nondetections(alert.prv_nondetections@, true),
            shared.fp_hists@ == forced(alert.fp_hists@, true),
            shared.survey_matches.ztf is None,
            shared.survey_matches.lsst is Some <==> alert.lsst_match is Some,
            shared.survey_matches.lsst matches Some(m) ==> m.shares(alert.lsst_match->0, false)
                && m.prv_nondetections@.len() == 0,
    {
        let prv_candidates = select_detections(&alert.prv_candidates, true);
        let prv_nondetections = select_nondetections(&alert.prv_nondetections, true);
        let fp_hists = select_forced(&alert.fp_hists, true);
        let survey_matches = BabamulSurveyMatches::of_ztf_alert(alert.lsst_match.as_ref());
        BabamulZtfAlert {
            candid: alert.candid,
            object_id: alert.object_id,
            candidate: alert.candidate,
            traits: alert.traits,
            prv_candidates,
            prv_nondetections,
            fp_hists,
            survey_matches,
        }
    }

    /// The category of the alert.
    pub open spec fn category(&self) -> Seq<char> {
        match_part("lsst"@, self.survey_matches.lsst is Some) + if self.traits.star
            || self.traits.near_brightstar {
            "stellar"@
        } else if galaxy_score(self.traits.sgscore1) || galaxy_score(self.traits.sgscore2)
            || galaxy_score(self.traits.sgscore3) {
            "hosted"@
        } else {
            "hostless"@
        }
    }

    pub fn compute_babamul_category(&self) -> (category: String)
        ensures
            category@ == self.category(),
    {
        let start = if self.survey_matches.lsst.is_some() {
            "lsst".to_string().concat("-match.")
        } else {
            join3("no-", "lsst", "-match.")
        };
        if self.traits.star || self.traits.near_brightstar {
            return start.concat("stellar");
        }
        if is_galaxy_score(self.traits.sgscore1) || is_galaxy_score(self.traits.sgscore2)
            || is_galaxy_score(self.traits.sgscore3) {
            return start.concat("hosted");
        }
        start.concat("hostless")
    }
}

/// Whether an LSST alert is shared.
pub open spec fn lsst_shared(traits: LsstTraits) -> bool {
    let reliability = match traits.reliability {
        Some(r) => r,
        None => Single { bits: 0 },
    };
    !(reliability.less(Single { bits: LSST_MIN_RELIABILITY }) || flag(traits.pixel_flags)
        || traits.rock)
}

/// Whether a ZTF alert is shared: a public one, no rock, with a sufficient score.
pub open spec fn ztf_shared(traits: ZtfTraits) -> bool {
    let drb = match traits.drb {
        Some(drb) => drb,
        None => Single { bits: 0 },
    };
    !(traits.programid != PUBLIC_PROGRAM || traits.rock || drb.less(Single { bits: ZTF_MIN_DRB }))
}

/// An LSST alert with what the star-galaxy catalog says of its position.
#[derive(Debug)]
pub struct LocatedAlert<C> {
    pub alert: BabamulLsstAlert<C>,
    pub scores: Vec<Option<Double>>,
    pub in_footprint: bool,
}

/// The topic of an LSST alert.
pub open spec fn lsst_topic<C>(located: LocatedAlert<C>, threshold: Double) -> Seq<char> {
    "babamul.lsst."@ + located.alert.category(located.scores@, located.in_footprint, threshold)
}

/// The topic of a ZTF alert.
pub open spec fn ztf_topic<C>(alert: BabamulZtfAlert<C>) -> Seq<char> {
    "babamul.ztf."@ + alert.category()
}

/// The first `n` LSST alerts by topic, in their order.
pub open spec fn lsst_topics<C>(
    alerts: Seq<LocatedAlert<C>>,
    threshold: Double,
    n: nat,
) -> Seq<(Seq<char>, Seq<usize>)>
    decreases n,
{
    if n == 0 {
        Seq::empty()
    } else {
        let before = lsst_topics(alerts, threshold, (n - 1) as nat);
        let located = alerts[n - 1];
        if lsst_shared(located.alert.traits) {
            let topic = lsst_topic(located, threshold);
            put(before, topic, listed(before, topic).push((n - 1) as usize))
        } else {
            before
        }
    }
}

/// The first `n` ZTF alerts by topic, in their order.
pub open spec fn ztf_topics<C>(alerts: Seq<BabamulZtfAlert<C>>, n: nat) -> Seq<
    (Seq<char>, Seq<usize>),
>
    decreases n,
{
    if n == 0 {
        Seq::empty()
    } else {
        let before = ztf_topics(alerts, (n - 1) as nat);
        if ztf_shared(alerts[n - 1].traits) {
            let topic = ztf_topic(alerts[n - 1]);
            put(before, topic, listed(before, topic).push((n - 1) as usize))
        } else {
            before
        }
    }
}

/// The survey whose alerts a topic carries.
pub open spec fn survey_of_topic(topic: Seq<char>) -> Seq<char> {
    if has_prefix(topic, "babamul.ztf."@) {
        "ZTF"@
    } else if has_prefix(topic, "babamul.lsst."@) {
        "LSST"@
    } else {
        "unknown"@
    }
}

pub fn survey_from_topic(topic_name: &str) -> (survey: &'static str)
    ensures
        survey@ == survey_of_topic(topic_name@),
{
    if starts_with(topic_name, "babamul.ztf.") {
        "ZTF"
    } else if starts_with(topic_name, "babamul.lsst.") {
        "LSST"
    } else {
        "unknown"
    }
}

/// The topics of either survey are told apart by their names.
pub proof fn a_topic_names_its_survey(category: Seq<char>)
    ensures
        survey_of_topic("babamul.ztf."@ + category) == "ZTF"@,
        survey_of_topic("babamul.lsst."@ + category) == "LSST"@,
{
    let ztf = "babamul.ztf."@ + category;
    let lsst = "babamul.lsst."@ + category;
    reveal_strlit("babamul.ztf.");
    reveal_strlit("babamul.lsst.");
    assert(ztf.subrange(0, "babamul.ztf."@.len() as int) =~= "babamul.ztf."@);
    assert(lsst.subrange(0, "babamul.lsst."@.len() as int) =~= "babamul.lsst."@);
    assert("babamul.ztf."@[8] == 'z');
    assert(lsst[8] == 'l');
    if has_prefix(lsst, "babamul.ztf."@) {
        assert(lsst.subrange(0, "babamul.ztf."@.len() as int)[8] == lsst[8]);
    }
}

/// A ZTF alert that is routed is a public one that is to be shared, and goes to the
/// topic of its category.
pub proof fn only_public_ztf_alerts_are_routed<C>(
    alerts: Seq<BabamulZtfAlert<C>>,
    n: nat,
    topic: Seq<char>,
    i: int,
)
    requires
        n <= alerts.len() <= usize::MAX,
        0 <= i < listed(ztf_topics(alerts, n), topic).len(),
    ensures
        ({
            let at = listed(ztf_topics(alerts, n), topic)[i];
            &&& at < n
            &&& ztf_shared(alerts[at as int].traits)
            &&& alerts[at as int].traits.programid == PUBLIC_PROGRAM
            &&& topic == ztf_topic(alerts[at as int])
        }),
    decreases n,
{
    if n == 0 {
        assert(listed(ztf_topics(alerts, n), topic).len() == 0);
    } else {
        let before = ztf_topics(alerts, (n - 1) as nat);
        if ztf_shared(alerts[n - 1].traits) {
            let name = ztf_topic(alerts[n - 1]);
            let items = listed(before, name).push((n - 1) as usize);
            what_was_set_is_read_back(before, name, items);
            if topic == name {
                if i < listed(before, name).len() {
                    only_public_ztf_alerts_are_routed(alerts, (n - 1) as nat, topic, i);
                }
            } else {
                setting_a_name_leaves_the_others(before, name, items, topic);
                only_public_ztf_alerts_are_routed(alerts, (n - 1) as nat, topic, i);
            }
        } else {
            only_public_ztf_alerts_are_routed(alerts, (n - 1) as nat, topic, i);
        }
    }
}

/// No ZTF alert that is to be shared is lost: it is listed under the topic of its
/// category.
pub proof fn every_shared_ztf_alert_is_routed<C>(
    alerts: Seq<BabamulZtfAlert<C>>,
    n: nat,
    k: int,
)
    requires
        0 <= k < n <= alerts.len() <= usize::MAX,
        ztf_shared(alerts[k].traits),
    ensures
        listed(ztf_topics(alerts, n), ztf_topic(alerts[k])).contains(k as usize),
    decreases n,
{
    let before = ztf_topics(alerts, (n - 1) as nat);
    let topic = ztf_topic(alerts[k]);
    if ztf_shared(alerts[n - 1].traits) {
        let name = ztf_topic(alerts[n - 1]);
        let items = listed(before, name).push((n - 1) as usize);
        what_was_set_is_read_back(before, name, items);
        if k == n - 1 {
            assert(items[items.len() - 1] == k as usize);
        } else {
            every_shared_ztf_alert_is_routed(alerts, (n - 1) as nat, k);
            if topic == name {
                let i = choose|i: int|
                    0 <= i < listed(before, name).len() && listed(before, name)[i] == k as usize;
                assert(items[i] == k as usize);
            } else {
                setting_a_name_leaves_the_others(before, name, items, topic);
            }
        }
    } else {
        every_shared_ztf_alert_is_routed(alerts, (n - 1) as nat, k);
    }
}

/// An LSST alert that is routed is one that is to be shared, and goes to the topic of
/// its category.
pub proof fn only_shared_lsst_alerts_are_routed<C>(
    alerts: Seq<LocatedAlert<C>>,
    threshold: Double,
    n: nat,
    topic: Seq<char>,
    i: int,
)
    requires
        n <= alerts.len() <= usize::MAX,
        0 <= i < listed(lsst_topics(alerts, threshold, n), topic).len(),
    ensures
        ({
            let at = listed(lsst_topics(alerts, threshold, n), topic)[i];
            &&& at < n
            &&& lsst_shared(alerts[at as int].alert.traits)
            &&& topic == lsst_topic(alerts[at as int], threshold)
        }),
    decreases n,
{
    if n == 0 {
        assert(listed(lsst_topics(alerts, threshold, n), topic).len() == 0);
    } else {
        let before = lsst_topics(alerts, threshold, (n - 1) as nat);
        if lsst_shared(alerts[n - 1].alert.traits) {
            let name = lsst_topic(alerts[n - 1], threshold);
            let items = listed(before, name).push((n - 1) as usize);
            what_was_set_is_read_back(before, name, items);
            if topic == name {
                if i < listed(before, name).len() {
                    only_shared_lsst_alerts_are_routed(
                        alerts,
                        threshold,
                        (n - 1) as nat,
                        topic,
                        i,
                    );
                }
            } else {
                setting_a_name_leaves_the_others(before, name, items, topic);
                only_shared_lsst_alerts_are_routed(alerts, threshold, (n - 1) as nat, topic, i);
            }
        } else {
            only_shared_lsst_alerts_are_routed(alerts, threshold, (n - 1) as nat, topic, i);
        }
    }
}

/// No LSST alert that is to be shared is lost: it is listed under the topic of its
/// category.
pub proof fn every_shared_lsst_alert_is_routed<C>(
    alerts: Seq<LocatedAlert<C>>,
    threshold: Double,
    n: nat,
    k: int,
)
    requires
        0 <= k < n <= alerts.len() <= usize::MAX,
        lsst_shared(alerts[k].alert.traits),
    ensures
        listed(lsst_topics(alerts, threshold, n), lsst_topic(alerts[k], threshold)).contains(
            k as usize,
        ),
    decreases n,
{
    let before = lsst_topics(alerts, threshold, (n - 1) as nat);
    let topic = lsst_topic(alerts[k], threshold);
    if lsst_shared(alerts[n - 1].alert.traits) {
        let name = lsst_topic(alerts[n - 1], threshold);
        let items = listed(before, name).push((n - 1) as usize);
        what_was_set_is_read_back(before, name, items);
        if k == n - 1 {
            assert(items[items.len() - 1] == k as usize);
        } else {
            every_shared_lsst_alert_is_routed(alerts, threshold, (n - 1) as nat, k);
            if topic == name {
                let i = choose|i: int|
                    0 <= i < listed(before, name).len() && listed(before, name)[i] == k as usize;
                assert(items[i] == k as usize);
            } else {
                setting_a_name_leaves_the_others(before, name, items, topic);
            }
        }
    } else {
        every_shared_lsst_alert_is_routed(alerts, threshold, (n - 1) as nat, k);
    }
}

/// What goes wrong when alerts are shared.
#[derive(Debug)]
pub enum EnrichmentWorkerError {
    Kafka(String),
    Serialization(String),
}

/// How one topic of an administrative request fared.
#[derive(Debug)]
pub enum TopicOutcome {
    Done,
    AlreadyExists,
    /// Any other failure, by its code.
    Failed(String),
}

/// The state of the topics: how long they keep what they carry, and which have been
/// checked in this process.
#[derive(Debug)]
pub struct Babamul {
    pub topic_retention_ms: i64,
    pub checked_topics: Vec<String>,
}

/// A topic that is to be created: `retention_ms` goes to `retention.ms`, and
/// `cleanup_policy` to `cleanup.policy`.
#[derive(Debug)]
pub struct TopicPlan {
    pub partitions: i32,
    /// On how many brokers each partition is kept.
    pub replication: i32,
    pub retention_ms: String,
    pub cleanup_policy: &'static str,
}

/// The first code with which a topic could not be created.
pub open spec fn creation_fault(outcomes: Seq<TopicOutcome>) -> Option<Seq<char>>
    decreases outcomes.len(),
{
    if outcomes.len() == 0 {
        None
    } else {
        match outcomes[0] {
            TopicOutcome::Failed(code) => Some(code@),
            _ => creation_fault(outcomes.drop_first()),
        }
    }
}

/// The first code with which the configuration of a topic could not be changed.
pub open spec fn alteration_fault(outcomes: Seq<TopicOutcome>) -> Option<Seq<char>>
    decreases outcomes.len(),
{
    if outcomes.len() == 0 {
        None
    } else {
        match outcomes[0] {
            TopicOutcome::Failed(code) => Some(code@),
            TopicOutcome::AlreadyExists => Some("TopicAlreadyExists"@),
            TopicOutcome::Done => alteration_fault(outcomes.drop_first()),
        }
    }
}

/// Number of partitions of a new topic, from its setting.
pub open spec fn partitions_of(setting: Option<&str>) -> int {
    match setting {
        Some(s) => match integer_of(s@) {
            Some(n) => if i32::MIN <= n <= i32::MAX {
                n
            } else {
                15
            },
            None => 15,
        },
        None => 15,
    }
}

impl Babamul {
    /// Whether a topic has been checked.
    pub open spec fn knows(&self, topic: Seq<char>) -> bool {
        exists|i: int|
            0 <= i < self.checked_topics@.len() && (#[trigger] self.checked_topics@[i])@ == topic
    }

    /// Starts with no topic checked. The retention is configured in days.
    pub fn new(retention_days: u32) -> (babamul: Babamul)
        ensures
            babamul.topic_retention_ms == retention_days * 86_400_000,
            babamul.checked_topics@.len() == 0,
    {
        Babamul {
            topic_retention_ms: retention_days as i64 * 24 * 60 * 60 * 1000,
            checked_topics: Vec::new(),
        }
    }

    fn is_checked(&self, topic_name: &str) -> (known: bool)
        ensures
            known == self.knows(topic_name@),
    {
        let mut i: usize = 0;
        while i < self.checked_topics.len()
            invariant
                i <= self.checked_topics@.len(),
                forall|k: int|
                    0 <= k < i ==> (#[trigger] self.checked_topics@[k])@ != topic_name@,
            decreases self.checked_topics.len() - i,
        {
            if same(self.checked_topics[i].as_str(), topic_name) {
                return true;
            }
            i = i + 1;
        }
        false
    }

    /// What is to be done before alerts are sent to a topic: nothing when it has been
    /// checked, and otherwise its creation. `setting` is the configured number of
    /// partitions, if there is one.
    pub fn check_topic(&self, topic_name: &str, setting: Option<&str>) -> (plan: Option<TopicPlan>)
        ensures
            plan is None <==> self.knows(topic_name@),
            plan matches Some(plan) ==> {
                &&& plan.partitions == partitions_of(setting)
                &&& plan.replication == 1
                &&& plan.retention_ms@ == signed_decimal(self.topic_retention_ms as int)
                &&& plan.cleanup_policy@ == "delete"@
            },
    {
        if self.is_checked(topic_name) {
            return None;
        }
        let partitions: i32 = match setting {
            Some(s) => match read_i32(s) {
                Some(n) => n,
                None => 15,
            },
            None => 15,
        };
        Some(
            TopicPlan {
                partitions,
                replication: 1,
                retention_ms: write_i64(self.topic_retention_ms),
                cleanup_policy: "delete",
            },
        )
    }

    /// Whether the configuration of a topic is to be set, by the reply to the attempt to
    /// create it: it is, also when the topic existed before.
    pub fn topic_created(
        &self,
        topic_name: &str,
        reply: &Result<Vec<TopicOutcome>, String>,
    ) -> (proceed: Result<(), EnrichmentWorkerError>)
        ensures
            match proceed {
                Ok(_) => reply matches Ok(outcomes) && creation_fault(outcomes@) is None,
                Err(error) => error matches EnrichmentWorkerError::Kafka(message) && match *reply {
                    Ok(outcomes) => creation_fault(outcomes@) matches Some(code) && message@
                        == "Failed to ensure topic "@ + topic_name@ + " with retention (code: "@
                        + code + ")"@,
                    Err(fault) => message@ == "Admin create_topics error: "@ + fault@,
                },
            },
    {
        let outcomes = match reply {
            Ok(outcomes) => outcomes,
            Err(fault) => {
                return Err(
                    EnrichmentWorkerError::Kafka(
                        "Admin create_topics error: ".to_string().concat(fault.as_str()),
                    ),
                );
            },
        };
        let mut i: usize = 0;
        assert(outcomes@.skip(0) =~= outcomes@);
        while i < outcomes.len()
            invariant
                i <= outcomes@.len(),
                *reply == Ok::<Vec<TopicOutcome>, String>(*outcomes),
                creation_fault(outcomes@) == creation_fault(outcomes@.skip(i as int)),
            decreases outcomes.len() - i,
        {
            assert(outcomes@.skip(i as int).drop_first() =~= outcomes@.skip(i + 1));
            match &outcomes[i] {
                TopicOutcome::Failed(code) => {
                    return Err(
                        EnrichmentWorkerError::Kafka(
                            join3(
                                "Failed to ensure topic ",
                                topic_name,
                                " with retention (code: ",
                            ).concat(code.as_str()).concat(")"),
                        ),
                    );
                },
                _ => {},
            }
            i = i + 1;
        }
        Ok(())
    }

    /// Takes in the reply to the attempt to set the configuration of a topic. Where it was
    /// set, the topic is checked for good.
    pub fn topic_altered(
        &mut self,
        topic_name: &str,
        reply: &Result<Vec<TopicOutcome>, String>,
    ) -> (done: Result<(), EnrichmentWorkerError>)
        ensures
            final(self).topic_retention_ms == old(self).topic_retention_ms,
            match done {
                Ok(_) => {
                    &&& reply matches Ok(outcomes) && alteration_fault(outcomes@) is None
                    &&& forall|topic: Seq<char>| #[trigger]
                        final(self).knows(topic) <==> old(self).knows(topic) || topic == topic_name@
                },
                Err(error) => {
                    &&& *final(self) == *old(self)
                    &&& error matches EnrichmentWorkerError::Kafka(message) && match *reply {
                        Ok(outcomes) => alteration_fault(outcomes@) matches Some(code) && message@
                            == "Failed to set retention for "@ + topic_name@ + " (code: "@ + code
                            + ")"@,
                        Err(fault) => message@ == "Admin alter_configs error: "@ + fault@,
                    }
                },
            },
    {
        let outcomes = match reply {
            Ok(outcomes) => outcomes,
            Err(fault) => {
                return Err(
                    EnrichmentWorkerError::Kafka(
                        "Admin alter_configs error: ".to_string().concat(fault.as_str()),
                    ),
                );
            },
        };
        let mut i: usize = 0;
        assert(outcomes@.skip(0) =~= outcomes@);
        while i < outcomes.len()
            invariant
                i <= outcomes@.len(),
                *self == *old(self),
                *reply == Ok::<Vec<TopicOutcome>, String>(*outcomes),
                alteration_fault(outcomes@) == alteration_fault(outcomes@.skip(i as int)),
            decreases outcomes.len() - i,
        {
            assert(outcomes@.skip(i as int).drop_first() =~= outcomes@.skip(i + 1));
            let code = match &outcomes[i] {
                TopicOutcome::Failed(code) => Some(code.as_str()),
                TopicOutcome::AlreadyExists => Some("TopicAlreadyExists"),
                TopicOutcome::Done => None,
            };
            match code {
                Some(code) => {
                    return Err(
                        EnrichmentWorkerError::Kafka(
                            join3("Failed to set retention for ", topic_name, " (code: ").concat(
                                code,
                            ).concat(")"),
                        ),
                    );
                },
                None => {},
            }
            i = i + 1;
        }
        let ghost before = self.checked_topics@;
        self.checked_topics.push(topic_name.to_string());
        assert forall|topic: Seq<char>| #[trigger] self.knows(topic) <==> old(self).knows(topic)
            || topic == topic_name@ by {
            if old(self).knows(topic) {
                let k = choose|k: int|
                    0 <= k < before.len() && (#[trigger] before[k])@ == topic;
                assert(self.checked_topics@[k]@ == topic);
            }
            if topic == topic_name@ {
                assert(self.checked_topics@[before.len() as int]@ == topic);
            }
        }
        Ok(())
    }

    /// Sorts LSST alerts by topic. Each topic lists positions among `alerts`.
    pub fn process_lsst_alerts<C>(
        &self,
        alerts: &Vec<LocatedAlert<C>>,
        threshold: Double,
    ) -> (topics: Named<Vec<usize>>)
        ensures
            topics.lists() == lsst_topics(alerts@, threshold, alerts@.len()),
    {
        let mut topics: Named<Vec<usize>> = Named::new();
        let mut i: usize = 0;
        assert(topics.lists() =~= Seq::empty());
        while i < alerts.len()
            invariant
                i <= alerts@.len(),
                topics.lists() == lsst_topics(alerts@, threshold, i as nat),
            decreases alerts.len() - i,
        {
            let located = &alerts[i];
            let traits: LsstTraits = located.alert.traits;
            let reliability = match traits.reliability {
                Some(r) => r,
                None => Single { bits: 0 },
            };
            if !(reliability.lt(Single { bits: LSST_MIN_RELIABILITY }) || is_set(traits.pixel_flags)
                || traits.rock) {
                let category = located.alert.compute_babamul_category(
                    &located.scores,
                    located.in_footprint,
                    threshold,
                );
                let topic = "babamul.lsst.".to_string().concat(category.as_str());
                topics.append(topic.as_str(), i);
            }
            i = i + 1;
        }
        topics
    }

    /// Sorts ZTF alerts by topic. Each topic lists positions among `alerts`.
    pub fn process_ztf_alerts<C>(&self, alerts: &Vec<BabamulZtfAlert<C>>) -> (topics: Named<
        Vec<usize>,
    >)
        ensures
            topics.lists() == ztf_topics(alerts@, alerts@.len()),
    {
        let mut topics: Named<Vec<usize>> = Named::new();
        let mut i: usize = 0;
        assert(topics.lists() =~= Seq::empty());
        while i < alerts.len()
            invariant
                i <= alerts@.len(),
                topics.lists() == ztf_topics(alerts@, i as nat),
            decreases alerts.len() - i,
        {
            let traits: ZtfTraits = alerts[i].traits;
            let drb = match traits.drb {
                Some(drb) => drb,
                None => Single { bits: 0 },
            };
            if !(traits.programid != PUBLIC_PROGRAM || traits.rock || drb.lt(
                Single { bits: ZTF_MIN_DRB },
            )) {
                let category = alerts[i].compute_babamul_category();
                let topic = "babamul.ztf.".to_string().concat(category.as_str());
                topics.append(topic.as_str(), i);
            }
            i = i + 1;
        }
        topics
    }

    /// The outcome of a record that was handed to the producer.
    pub fn enqueued(&self, outcome: Result<(), String>) -> (done: Result<(), EnrichmentWorkerError>)
        ensures
            done is Ok <==> outcome is Ok,
            done matches Err(error) ==> error matches EnrichmentWorkerError::Kafka(message)
                && message@ == "Failed to enqueue Kafka record: "@ + outcome->Err_0@,
    {
        match outcome {
            Ok(_) => Ok(()),
            Err(fault) => Err(
                EnrichmentWorkerError::Kafka(
                    "Failed to enqueue Kafka record: ".to_string().concat(fault.as_str()),
                ),
            ),
        }
    }

    /// The outcome of a flush of the producer.
    pub fn flush(&self, outcome: Result<(), String>) -> (done: Result<(), EnrichmentWorkerError>)
        ensures
            done is Ok <==> outcome is Ok,
            done matches Err(error) ==> error matches EnrichmentWorkerError::Kafka(message)
                && message@ == "Kafka flush failed: "@ + outcome->Err_0@,
    {
        match outcome {
            Ok(_) => Ok(()),
            Err(fault) => Err(
                EnrichmentWorkerError::Kafka(
                    "Kafka flush failed: ".to_string().concat(fault.as_str()),
                ),
            ),
        }
    }
}

/// How the delivery of one record ended.
#[derive(Debug)]
pub enum RecordOutcome {
    Delivered,
    /// The broker did not take it.
    Undelivered,
    /// Its outcome was lost.
    Canceled(String),
}

/// The first reason for which an outcome was lost.
pub open spec fn lost_outcome(outcomes: Seq<RecordOutcome>) -> Option<Seq<char>>
    decreases outcomes.len(),
{
    if outcomes.len() == 0 {
        None
    } else {
        match outcomes[0] {
            RecordOutcome::Canceled(reason) => Some(reason@),
            _ => lost_outcome(outcomes.drop_first()),
        }
    }
}

/// How many records were delivered.
pub open spec fn delivered(outcomes: Seq<RecordOutcome>) -> nat
    decreases outcomes.len(),
{
    if outcomes.len() == 0 {
        0
    } else {
        delivered(outcomes.drop_last()) + if outcomes.last() is Delivered {
            1nat
        } else {
            0nat
        }
    }
}

/// Counts the records that were delivered. One that was not is passed over, but a lost
/// outcome is an error.
pub fn count_delivered(outcomes: &Vec<RecordOutcome>) -> (sent: Result<
    usize,
    EnrichmentWorkerError,
>)
    ensures
        match sent {
            Ok(n) => lost_outcome(outcomes@) is None && n == delivered(outcomes@),
            Err(error) => lost_outcome(outcomes@) matches Some(reason)
                && (error matches EnrichmentWorkerError::Kafka(message) && message@
                == "Failed to send Kafka record: "@ + reason),
        },
{
    let mut sent: usize = 0;
    let mut i: usize = 0;
    assert(outcomes@.skip(0) =~= outcomes@);
    assert(outcomes@.take(0) =~= Seq::empty());
    while i < outcomes.len()
        invariant
            i <= outcomes@.len(),
            sent <= i,
            sent == delivered(outcomes@.take(i as int)),
            lost_outcome(outcomes@) == lost_outcome(outcomes@.skip(i as int)),
        decreases outcomes.len() - i,
    {
        assert(outcomes@.skip(i as int).drop_first() =~= outcomes@.skip(i + 1));
        assert(outcomes@.take(i + 1).drop_last() =~= outcomes@.take(i as int));
        match &outcomes[i] {
            RecordOutcome::Canceled(reason) => {
                return Err(
                    EnrichmentWorkerError::Kafka(
                        "Failed to send Kafka record: ".to_string().concat(reason.as_str()),
                    ),
                );
            },
            RecordOutcome::Delivered => {
                sent = sent + 1;
            },
            RecordOutcome::Undelivered => {},
        }
        i = i + 1;
    }
    assert(outcomes@.take(i as int) =~= outcomes@);
    Ok(sent)
}

/// What the producer of the topics is configured with.
pub fn producer_settings() -> (settings: Vec<(&'static str, &'static str)>)
    ensures
        settings@.len() == 7,
        settings@[0].0@ == "message.timeout.ms"@ && settings@[0].1@ == "120000"@,
        settings@[1].0@ == "batch.size"@ && settings@[1].1@ == "1048576"@,
        settings@[2].0@ == "linger.ms"@ && settings@[2].1@ == "50"@,
        settings@[3].0@ == "acks"@ && settings@[3].1@ == "1"@,
        settings@[4].0@ == "max.in.flight.requests.per.connection"@ && settings@[4].1@ == "5"@,
        settings@[5].0@ == "retries"@ && settings@[5].1@ == "3"@,
        settings@[6].0@ == "compression.type"@ && settings@[6].1@ == "zstd"@,
{
    vec![
        ("message.timeout.ms", "120000"),
        ("batch.size", "1048576"),
        ("linger.ms", "50"),
        ("acks", "1"),
        ("max.in.flight.requests.per.connection", "5"),
        ("retries", "3"),
        ("compression.type", "zstd"),
    ]
}

}
