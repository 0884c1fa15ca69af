use boom::binary::Double;
use boom::conf::{CatalogRadii, CatalogXmatchConfig};
use boom::document::{Bson, Document};
use boom::utils::enums::Survey;
use boom::utils::spatial::{
    cm_radius_arcsec, cone_match_stage, distance_kpc_from_arcsec, get_f64_from_doc,
    get_opt_f64_from_doc, host_order,
    host_rank, match_rows, row_match_radius_arcsec, row_redshift, row_size, watchlist_match_field,
    xmatch, Coordinates, Crossmatch, RowNumbers, ValueAccess, XmatchError, HPX_DEPTH,
};

fn d(x: f64) -> Double {
    Double { bits: x.to_bits() }
}

fn f(x: Double) -> f64 {
    f64::from_bits(x.bits)
}

fn number(x: f64) -> Bson {
    Bson::Double(d(x))
}

fn arcsec_to_radians(x: f64) -> f64 {
    (x / 3600.0).to_radians()
}

/// What a test configures of a catalog, in arcseconds where it is an angle.
struct Setup {
    radius: f64,
    max_results: Option<usize>,
    size_key: Option<&'static str>,
    size_scale: f64,
    size_max: Option<f64>,
    size_min: f64,
    use_distance: bool,
    distance_key: Option<&'static str>,
    distance_max: Option<f64>,
    distance_max_near: Option<f64>,
}

impl Setup {
    fn config(&self) -> CatalogXmatchConfig {
        CatalogXmatchConfig {
            catalog: "NED".to_string(),
            collection_name: "NED".to_string(),
            radius: d(arcsec_to_radians(self.radius)),
            projection: Document::new().with("ra", Bson::Int32(1)),
            use_distance: self.use_distance,
            distance_key: self.distance_key.map(|k| k.to_string()),
            distance_max: self.distance_max.map(d),
            distance_max_near: self.distance_max_near.map(d),
            max_results: self.max_results,
            angular_size_key: self.size_key.map(|k| k.to_string()),
            angular_size_radius_max: self.size_max.map(|r| d(arcsec_to_radians(r))),
            type_key: None,
            stellar_types: vec![],
            radii: CatalogRadii {
                base: d(self.radius),
                size_min: d(self.size_min),
                size_max: d(self.size_max.unwrap_or(self.radius)),
                size_threshold: d(2.0 * self.radius / self.size_scale),
            },
        }
    }

    fn match_radius_arcsec(&self, size: Option<f64>) -> f64 {
        let scaled = size.map(|s| self.size_scale * s / 2.0).unwrap_or(0.0);
        f(self.config().match_radius_arcsec(size.map(d), d(scaled)))
    }

    /// The numbers of a row at some distance.
    fn numbers(&self, doc: &Document, distance: f64) -> RowNumbers {
        let config = self.config();
        let size = row_size(&config, doc).map(f).unwrap_or(0.0);
        let z = row_redshift(&config, doc).map(f).unwrap_or(0.0);
        RowNumbers {
            distance_arcsec: d(distance),
            scaled_size: d(self.size_scale * size / 2.0),
            scaled_radius: d(self.distance_max.unwrap_or(0.0) * (0.05 / z)),
            scaled_distance: d(distance * (z / 0.05)),
        }
    }

    fn row_match_radius_arcsec(&self, doc: &Document) -> f64 {
        f(row_match_radius_arcsec(&self.config(), doc, self.numbers(doc, 0.0)))
    }
}

/// NED-shaped config: 300" query cone, per-row radius from `diam`, floored at 5" and
/// capped at 6 deg.
fn angular_size_config() -> Setup {
    Setup {
        radius: 300.0,
        max_results: Some(50),
        size_key: Some("diam"),
        size_scale: 2.0,
        size_max: Some(21600.0),
        size_min: 5.0,
        use_distance: false,
        distance_key: None,
        distance_max: None,
        distance_max_near: None,
    }
}

fn plain_config() -> Setup {
    Setup {
        max_results: None,
        size_key: None,
        size_max: None,
        size_min: 0.0,
        ..angular_size_config()
    }
}

/// The real NED entry: both rules at once.
fn ned_config() -> Setup {
    Setup {
        use_distance: true,
        distance_key: Some("z"),
        distance_max: Some(30.0),
        distance_max_near: Some(300.0),
        ..angular_size_config()
    }
}

#[test]
fn test_plain_config_uses_the_cone_radius() {
    let config = plain_config();
    assert!((config.match_radius_arcsec(None) - 300.0).abs() < 1e-6);
    assert!((config.match_radius_arcsec(Some(11400.0)) - 300.0).abs() < 1e-6);
}

#[test]
fn test_large_galaxy_gets_a_larger_radius() {
    let config = angular_size_config();
    // M31: diam 11400" -> semi-major 5700" -> 2x = 11400", past 1440".
    let r = config.match_radius_arcsec(Some(11400.0));
    assert!((r - 11400.0).abs() < 1e-6, "got {r}");
    assert!(1440.0 <= r);
}

#[test]
fn test_small_galaxy_is_matched_within_its_own_extent() {
    let config = angular_size_config();
    // diam 10" -> semi-major 5" -> 2x = 10", well inside the query cone.
    assert!((config.match_radius_arcsec(Some(10.0)) - 10.0).abs() < 1e-6);
}

#[test]
fn test_a_row_with_no_size_falls_back_to_the_floor() {
    let config = angular_size_config();
    assert!((config.match_radius_arcsec(None) - 5.0).abs() < 1e-6);
    assert!((config.match_radius_arcsec(Some(0.0)) - 5.0).abs() < 1e-6);
    assert!((config.match_radius_arcsec(Some(f64::NAN)) - 5.0).abs() < 1e-6);
}

#[test]
fn test_radius_is_capped() {
    let config = angular_size_config();
    let r = config.match_radius_arcsec(Some(360_000.0));
    assert!((r - 21600.0).abs() < 1e-6, "got {r}");
}

#[test]
fn test_threshold_is_where_scaling_overtakes_the_cone() {
    let config = angular_size_config();
    // scale * size / 2 > 300 <=> size > 300.
    let threshold = f(config.config().radii.size_threshold);
    assert!((threshold - 300.0).abs() < 1e-6, "got {threshold}");
    assert!(config.match_radius_arcsec(Some(threshold - 1.0)) < 300.0);
    assert!(config.match_radius_arcsec(Some(threshold + 100.0)) > 300.0);
}

#[test]
fn test_a_row_keeps_its_distance_radius_when_it_has_no_extent() {
    let config = ned_config();
    // Nearby, so the fixed near radius applies rather than 1.5 / z.
    let near = Document::new().with("z", number(0.001));
    assert!((config.row_match_radius_arcsec(&near) - 300.0).abs() < 1e-6);
    // Further out the radius shrinks with distance: 30 * 0.05 / 0.05.
    let far = Document::new().with("z", number(0.05));
    assert!((config.row_match_radius_arcsec(&far) - 30.0).abs() < 1e-6);
}

#[test]
fn test_the_wider_of_the_two_rules_wins() {
    let config = ned_config();
    // M31-sized but far enough that the distance rule alone would cut it
    // at 30": its own extent reaches much further.
    let large = Document::new().with("z", number(0.05)).with("diam", number(11400.0));
    assert!((config.row_match_radius_arcsec(&large) - 11400.0).abs() < 1e-6);
    // And a small nearby galaxy keeps the 300" the distance rule gives it,
    // which its 10" extent would have thrown away.
    let small = Document::new().with("z", number(0.001)).with("diam", number(10.0));
    assert!((config.row_match_radius_arcsec(&small) - 300.0).abs() < 1e-6);
}

#[test]
fn test_a_row_with_neither_rule_falls_back_to_the_floor() {
    let config = ned_config();
    assert!((config.row_match_radius_arcsec(&Document::new()) - 5.0).abs() < 1e-6);
}

/// The database is only asked for the base cone, so a distance rule that reaches past
/// it would match rows that were never fetched.
#[test]
fn test_the_distance_rule_cannot_see_past_the_query_cone() {
    let config = Setup {
        radius: 30.0,
        size_key: None,
        size_max: None,
        ..ned_config()
    };
    let row = Document::new().with("z", number(0.001));
    assert!((config.row_match_radius_arcsec(&row) - 30.0).abs() < 1e-6);
}

/// Legacy writes -99 for "no photo-z". Folding it to 0 keeps the row, which may still
/// carry a spectroscopic redshift.
#[test]
fn test_the_absent_redshift_sentinel_is_folded_to_zero() {
    let config = ned_config().config();
    let z = |doc: &Document| row_redshift(&config, doc).map(f);
    assert_eq!(z(&Document::new().with("z", number(-99.0))), Some(0.0));
    assert_eq!(z(&Document::new().with("z", number(0.02))), Some(0.02));
    assert_eq!(z(&Document::new()), None);
}

/// `distance_kpc` is written from the row's redshift, so a catalog that also matches on
/// size must not lose it.
#[test]
fn test_a_size_matched_row_still_reports_a_redshift() {
    let config = ned_config();
    let big_galaxy = Document::new().with("z", number(0.02)).with("diam", number(11400.0));
    assert!(config.row_match_radius_arcsec(&big_galaxy) > 300.0);
    assert_eq!(row_redshift(&config.config(), &big_galaxy).map(f), Some(0.02));
}

fn document<'a>(value: &'a Bson) -> &'a Document {
    match value {
        Bson::Document(doc) => doc,
        _ => panic!("not a document"),
    }
}

fn array<'a>(value: &'a Bson) -> &'a Vec<Bson> {
    match value {
        Bson::Array(items) => items,
        _ => panic!("not an array"),
    }
}

#[test]
fn test_match_stage_adds_the_gated_second_cone() {
    let stage = cone_match_stage(&angular_size_config().config(), d(10.0), d(20.0));
    let branches = array(document(stage.get("$match").unwrap()).get("$or").unwrap());
    assert_eq!(branches.len(), 2);

    // Gated on size, or every alert drags the catalog through a 6 deg cone.
    let wide = array(document(&branches[1]).get("$and").unwrap());
    let gate = document(&wide[0]);
    assert!(gate.get("diam").is_some());
}

#[test]
fn test_match_stage_is_a_single_cone_without_angular_size() {
    let stage = cone_match_stage(&plain_config().config(), d(10.0), d(20.0));
    let m = document(stage.get("$match").unwrap());
    assert!(m.get("$or").is_none());
    assert!(m.get("coordinates.radec_geojson").is_some());
}

#[test]
fn test_opt_f64_is_quiet_about_absent_values() {
    let doc = Document::new()
        .with("diam", number(444.0))
        .with("null_diam", Bson::Null)
        .with("int_diam", Bson::Int32(12));
    let get = |key| get_opt_f64_from_doc(&doc, key).map(f);
    assert_eq!(get("diam"), Some(444.0));
    assert_eq!(get("int_diam"), Some(12.0));
    assert_eq!(get("null_diam"), None);
    assert_eq!(get("missing"), None);
    let nan = Document::new().with("d", number(f64::NAN));
    assert_eq!(get_opt_f64_from_doc(&nan, "d"), None);
}

#[test]
fn nearby_is_below_the_boundary() {
    let radius = |z: f64| f(cm_radius_arcsec(d(z), d(10.0 * (0.05 / z)), d(300.0)));
    assert_eq!(radius(0.005), 10.0 * (0.05 / 0.005));
    assert_eq!(radius(0.004), 300.0);
    assert_eq!(radius(0.05), 10.0);
    let kpc = |z: f64| f(distance_kpc_from_arcsec(d(z), d(20.0 * (z / 0.05))));
    assert_eq!(kpc(0.005), 20.0 * (0.005 / 0.05));
    assert_eq!(kpc(0.004), -1.0);
    assert_eq!(kpc(0.0), -1.0);
}

fn row(spectype: &str, z: f64, arcsec: f64) -> Document {
    let kpc = distance_kpc_from_arcsec(d(z), d(arcsec * (z / 0.05)));
    Document::new()
        .with("spectype", Bson::text(spectype))
        .with("z", number(z))
        .with("distance_arcsec", number(arcsec))
        .with("distance_kpc", Bson::Double(kpc))
}

fn order(rows: Vec<Document>) -> Vec<String> {
    let key = Some("spectype".to_string());
    let stellar = vec!["STAR".to_string()];
    host_order(&rows, &key, &stellar)
        .iter()
        .map(|at| {
            let spectype = match rows[*at].get("spectype").unwrap() {
                Bson::Text(s) => s.clone(),
                _ => panic!("no type"),
            };
            let arcsec = f(get_f64_from_doc(&rows[*at], "distance_arcsec").unwrap());
            format!("{}@{}", spectype, arcsec)
        })
        .collect()
}

/// The reported case: a star at z ~ 0 shares the missing projected distance with a
/// nearby galaxy, and used to be ranked ahead of a closer galaxy.
#[test]
fn test_a_distant_star_does_not_outrank_a_closer_galaxy() {
    let ranked = order(vec![
        row("STAR", 0.000_123, 21.85),
        row("GALAXY", 0.032_35, 17.16),
    ]);
    assert_eq!(ranked, vec!["GALAXY@17.16", "STAR@21.85"]);
}

/// A source sitting on the transient is the first thing to look at, whether or not it
/// could be a host.
#[test]
fn test_a_coincident_source_ranks_first_whatever_it_is() {
    let ranked = order(vec![
        row("GALAXY", 0.02, 4.0),
        row("STAR", 0.0, 0.4),
        row("GALAXY", 0.001, 20.0),
    ]);
    assert_eq!(ranked, vec!["STAR@0.4", "GALAXY@20", "GALAXY@4"]);
}

/// A genuinely nearby galaxy keeps its place ahead of the kpc-ordered ones: a transient
/// can sit far from its centre and still be inside it.
#[test]
fn test_a_nearby_galaxy_outranks_a_projected_distance() {
    let ranked = order(vec![row("GALAXY", 0.08, 2.0), row("GALAXY", 0.001, 25.0)]);
    assert_eq!(ranked, vec!["GALAXY@25", "GALAXY@2"]);
}

/// Non-coincident stars never compete on projected distance, and order among themselves
/// by separation.
#[test]
fn test_stars_sort_last_and_by_separation() {
    let ranked = order(vec![
        row("STAR", 0.0, 3.0),
        row("GALAXY", 0.05, 12.0),
        row("STAR", 0.0, 1.5),
    ]);
    assert_eq!(ranked, vec!["GALAXY@12", "STAR@1.5", "STAR@3"]);
}

/// A QSO is a plausible counterpart, so it ranks as a galaxy does rather than as a star.
#[test]
fn test_a_qso_is_ranked_as_a_galaxy() {
    let key = Some("spectype".to_string());
    let stellar = vec!["STAR".to_string()];
    let qso = row("QSO", 0.001, 20.0);
    assert_eq!(host_rank(&qso, &key, &stellar), 1);
    let star = row("STAR", 0.001, 20.0);
    assert_eq!(host_rank(&star, &key, &stellar), 3);
}

/// A catalog with no type column behaves as it did before.
#[test]
fn test_without_a_type_column_nothing_is_treated_as_stellar() {
    let star = row("STAR", 0.0, 3.0);
    assert_eq!(
        host_rank(&star, &None, &vec![]),
        1,
        "unlabelled rows keep the old rank"
    );
    assert_eq!(
        host_rank(&star, &Some("spectype".to_string()), &vec!["STAR".to_string()]),
        3
    );
}

#[test]
fn types_are_compared_without_case_and_blanks() {
    let key = Some("spectype".to_string());
    let star = row("  star ", 0.0, 3.0);
    assert_eq!(host_rank(&star, &key, &vec!["STAR".to_string()]), 3);
}

#[test]
fn watchlist_fields_name_the_survey() {
    assert_eq!(watchlist_match_field(&Survey::Ztf), "matching_ztf_objects");
    assert_eq!(watchlist_match_field(&Survey::Lsst), "matching_lsst_objects");
    assert_eq!(watchlist_match_field(&Survey::Decam), "matching_decam_objects");
}

#[test]
fn coordinates_are_stored_as_a_point() {
    let c = Coordinates::new(d(-170.0), d(20.0), d(1.0), d(2.0), 77);
    assert_eq!(c.radec_geojson.kind, "Point");
    assert_eq!(c.hpx(), Some(77));
    let (ra, dec) = c.get_radec(&|longitude| d(f(longitude) + 180.0));
    assert_eq!((f(ra), f(dec)), (10.0, 20.0));
    assert_eq!(HPX_DEPTH, 29);
}

#[test]
fn integers_are_read_as_numbers() {
    for n in [0, 1, -1, i64::MAX, i64::MIN, 9_007_199_254_740_993, 9_007_199_254_740_995] {
        let doc = Document::new().with("n", Bson::Int64(n));
        assert_eq!(f(get_f64_from_doc(&doc, "n").unwrap()), n as f64, "{n}");
    }
    let text = Document::new().with("n", Bson::text("1"));
    assert_eq!(get_f64_from_doc(&text, "n"), None);
}

#[test]
fn the_second_catalog_is_joined_by_a_union() {
    let mut second = plain_config().config();
    second.catalog = "Gaia".to_string();
    second.collection_name = "Gaia_DR3".to_string();
    let configs = vec![angular_size_config().config(), second];
    let plan = xmatch(&configs, d(-170.0), d(20.0)).unwrap();
    assert_eq!(plan.collection, "NED");
    let stages = array(&plan.pipeline);
    assert_eq!(stages.len(), 5);
    let union = document(document(&stages[4]).get("$unionWith").unwrap());
    match union.get("coll").unwrap() {
        Bson::Text(name) => assert_eq!(name, "Gaia_DR3"),
        _ => panic!("no collection"),
    }
    assert_eq!(array(union.get("pipeline").unwrap()).len(), 4);
    assert!(xmatch(&[], d(0.0), d(0.0)).is_none());
}

fn reply(catalog: &str, rows: Vec<Document>) -> Document {
    let rows = rows.into_iter().map(Bson::Document).collect();
    Document::new()
        .with("catalog", Bson::text(catalog))
        .with("matches", Bson::Array(rows))
}

fn candidate(id: Option<&str>, z: f64) -> Document {
    let doc = Document::new()
        .with("ra", number(10.0))
        .with("dec", number(20.0))
        .with("z", number(z));
    match id {
        Some(id) => doc.with("_id", Bson::text(id)),
        None => doc,
    }
}

#[test]
fn rows_are_selected_ordered_and_cut() {
    let setup = Setup { max_results: Some(2), ..ned_config() };
    let rows = vec![
        candidate(Some("far"), 0.05),
        candidate(Some("near"), 0.05),
        Document::new().with("ra", number(1.0)),
        candidate(Some("nearby"), 0.001),
        candidate(Some("third"), 0.05),
    ];
    let distances = [31.0, 10.0, 1.0, 250.0, 20.0];
    let numbers: Vec<RowNumbers> =
        rows.iter().zip(distances).map(|(doc, x)| setup.numbers(doc, x)).collect();
    let values: Vec<Bson> = rows.into_iter().map(Bson::Document).collect();
    let kept = match_rows(&setup.config(), &values, &numbers, 4);
    let picked: Vec<usize> = kept.iter().map(|k| k.row).collect();
    // The nearby galaxy first, then by kpc; beyond 30" is out, and so is the row without
    // a position; the third one is cut.
    assert_eq!(picked, vec![3, 1]);
    assert_eq!(f(kept[0].distance_kpc.unwrap()), -1.0);
    assert_eq!(f(kept[1].distance_kpc.unwrap()), 10.0);
    assert_eq!(f(kept[1].distance_arcsec), 10.0);
    assert!(kept.iter().all(|k| k.batch == 4 && k.has_id));
}

#[test]
fn watchlist_matches_are_recorded_and_kept_out() {
    let setup = plain_config();
    let mut watchlist = setup.config();
    watchlist.catalog = "watchlist_mine".to_string();
    let configs = vec![setup.config(), watchlist];
    let mut found = Crossmatch::new(&configs);
    let rows = || vec![candidate(Some("a"), 0.1), candidate(None, 0.1)];
    let numbers: Vec<RowNumbers> = rows().iter().map(|doc| setup.numbers(doc, 3.0)).collect();
    found.take(&configs, &reply("watchlist_mine", rows()), &numbers).unwrap();
    found.take(&configs, &reply("NED", rows()), &numbers).unwrap();
    let (kept, updates) = found.finish("watchlist_", Survey::Lsst, "obj-1");
    assert_eq!(kept.entries.len(), 1);
    assert_eq!(kept.entries[0].0, "NED");
    assert_eq!(kept.entries[0].1.len(), 2);
    assert_eq!(updates.len(), 1);
    assert_eq!(updates[0].catalog, "watchlist_mine");
    // Only the row with an identifier can be updated.
    assert_eq!(updates[0].rows.len(), 1);
    assert_eq!(updates[0].rows[0].row, 0);
    let added = document(updates[0].update.get("$addToSet").unwrap());
    match added.get("matching_lsst_objects").unwrap() {
        Bson::Text(id) => assert_eq!(id, "obj-1"),
        _ => panic!("no object"),
    }
}

#[test]
fn catalogs_without_matches_keep_an_empty_list() {
    let configs = vec![plain_config().config()];
    let found = Crossmatch::new(&configs);
    let (kept, updates) = found.finish("watchlist_", Survey::Ztf, "obj-1");
    assert_eq!(kept.entries.len(), 1);
    assert!(kept.entries[0].1.is_empty());
    assert!(updates.is_empty());
}

#[test]
fn malformed_replies_are_errors() {
    let configs = vec![plain_config().config()];
    let mut found = Crossmatch::new(&configs);
    let none = vec![];
    let missing = Document::new();
    assert_eq!(
        found.take(&configs, &missing, &none),
        Err(XmatchError::BsonValueAccess(ValueAccess::NotPresent))
    );
    let mistyped = Document::new().with("catalog", Bson::Int32(1));
    assert_eq!(
        found.take(&configs, &mistyped, &none),
        Err(XmatchError::BsonValueAccess(ValueAccess::UnexpectedType))
    );
    let no_rows = Document::new().with("catalog", Bson::text("NED"));
    assert_eq!(
        found.take(&configs, &no_rows, &none),
        Err(XmatchError::BsonValueAccess(ValueAccess::NotPresent))
    );
    let bad_rows = no_rows.with("matches", Bson::Null);
    assert_eq!(
        found.take(&configs, &bad_rows, &none),
        Err(XmatchError::BsonValueAccess(ValueAccess::UnexpectedType))
    );
}
