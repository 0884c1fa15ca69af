use boom::backfill::{
    find_filter, find_projection, host_update, probe_catalogs, summary, Backfill, Flush,
};
use boom::binary::Double;
use boom::conf::{CatalogRadii, CatalogXmatchConfig};
use boom::document::{Bson, Document};
use boom::named::Named;
use boom::reprocess::{
    aux_collection, aux_filter, catalog_columns, extract_radec, first_error, first_failure,
    live_field, make_sort_trim_pipeline, match_fields, match_row, object_filter, object_update,
    pick_direction, queue_capacity, read_catalog_row, resolve_catalogs, split_by_direction,
    temp_field, CatalogMatch, CatalogRun, Direction, ObjectBatch, Pending, Phase, WorkerOutcome,
};
use boom::utils::enums::Survey;
use boom::utils::host::config::HostGalaxyConfig;
use boom::utils::parser::parse_positive_usize;
use boom::utils::spatial::{host_order, Kept};

fn d(x: f64) -> Double {
    Double { bits: x.to_bits() }
}

fn show(value: &Bson) -> String {
    match value {
        Bson::Null => "null".to_string(),
        Bson::Boolean(b) => b.to_string(),
        Bson::Int32(n) => n.to_string(),
        Bson::Int64(n) => format!("{n}L"),
        Bson::Double(x) => format!("{:?}", f64::from_bits(x.bits)),
        Bson::Text(s) => format!("'{s}'"),
        Bson::Array(items) => {
            format!("[{}]", items.iter().map(show).collect::<Vec<_>>().join(", "))
        }
        Bson::Document(doc) => fields(doc),
        Bson::Other => "other".to_string(),
    }
}

fn fields(doc: &Document) -> String {
    let entries: Vec<String> =
        doc.entries.iter().map(|(key, value)| format!("{key}: {}", show(value))).collect();
    format!("{{{}}}", entries.join(", "))
}

fn config(catalog: &str, use_distance: bool, max_results: Option<usize>) -> CatalogXmatchConfig {
    CatalogXmatchConfig {
        catalog: catalog.to_string(),
        collection_name: catalog.to_string(),
        radius: d(0.25),
        projection: Document::new().with("name", Bson::Int32(1)),
        use_distance,
        distance_key: if use_distance { Some("z".to_string()) } else { None },
        distance_max: Some(d(30.0)),
        distance_max_near: Some(d(300.0)),
        max_results,
        angular_size_key: None,
        angular_size_radius_max: None,
        type_key: None,
        stellar_types: vec![],
        radii: CatalogRadii {
            base: d(300.0),
            size_min: d(0.0),
            size_max: d(0.0),
            size_threshold: d(0.0),
        },
    }
}

#[test]
fn the_smaller_side_is_looped_over() {
    assert_eq!(pick_direction(10, 9), Direction::Catalog);
    assert_eq!(pick_direction(10, 10), Direction::Objects);
    assert_eq!(pick_direction(9, 10), Direction::Objects);
    let counts = vec![(10, 5), (10, 50), (10, 10), (10, 9)];
    assert_eq!(split_by_direction(Direction::Auto, &counts), (vec![1, 2], vec![0, 3]));
    assert_eq!(split_by_direction(Direction::Objects, &counts), (vec![0, 1, 2, 3], vec![]));
    assert_eq!(split_by_direction(Direction::Catalog, &counts), (vec![], vec![0, 1, 2, 3]));
}

#[test]
fn catalogs_are_looked_up_by_name() {
    let configs = vec![config("NED", false, None), config("Gaia", false, None)];
    let names = |list: &[&str]| list.iter().map(|s| s.to_string()).collect::<Vec<String>>();
    let found =
        resolve_catalogs(&configs, &names(&["Gaia", "NED", "Gaia"]), Survey::Ztf, "config.yaml");
    assert_eq!(found.unwrap(), vec![1, 0, 1]);
    let missing = resolve_catalogs(&configs, &names(&["NED", "x", "y"]), Survey::Ztf, "config.yaml");
    assert_eq!(
        missing.unwrap_err(),
        "catalog 'x' not declared under crossmatch.ztf in config.yaml"
    );
}

#[test]
fn names_follow_the_catalog_and_the_survey() {
    assert_eq!(live_field("NED"), "cross_matches.NED");
    assert_eq!(temp_field("NED"), "cross_matches.NED_temp");
    assert_eq!(aux_collection(Survey::Lsst), "LSST_alerts_aux");
    assert_eq!(queue_capacity(3, 5000), 30000);
}

#[test]
fn a_run_gathers_sorts_and_swaps() {
    let config = config("NED", false, Some(3));
    let mut run = CatalogRun::new("NED", d(2460000.5));
    let existing = "{created_at: {$lt: 2460000.5}}";

    let cleaning = run.action(&config).unwrap();
    assert_eq!(fields(&cleaning.filter), existing);
    assert_eq!(show(&cleaning.update), "{$set: {cross_matches.NED_temp: []}}");
    run.advance(true);

    assert_eq!(run.phase, Phase::Streaming);
    assert!(run.action(&config).is_none());
    run.advance(true);

    let sorting = run.action(&config).unwrap();
    assert_eq!(
        fields(&sorting.filter),
        "{created_at: {$lt: 2460000.5}, cross_matches.NED_temp.0: {$exists: true}}"
    );
    run.advance(true);

    let swapping = run.action(&config).unwrap();
    assert_eq!(fields(&swapping.filter), existing);
    assert_eq!(
        show(&swapping.update),
        "[{$set: {cross_matches.NED: '$cross_matches.NED_temp'}}, {$unset: 'cross_matches.NED_temp'}]"
    );
    run.advance(true);
    assert_eq!(run.phase, Phase::Done);
    assert!(run.action(&config).is_none());
}

#[test]
fn a_failed_run_swaps_nothing() {
    let config = config("NED", false, None);
    let mut run = CatalogRun::new("NED", d(1.0));
    run.advance(true);
    run.advance(false);
    assert_eq!(run.phase, Phase::Failed);
    assert!(run.action(&config).is_none());
    run.advance(true);
    assert_eq!(run.phase, Phase::Failed);
}

/// A small evaluator of the expressions that the database is given.
#[derive(Clone, Debug, PartialEq)]
enum Held {
    Missing,
    Flag(bool),
    Whole(i64),
    Real(f64),
    Text(String),
    List(Vec<Held>),
    Fields(Vec<(String, Held)>),
}

fn constant(value: &Bson) -> Held {
    match value {
        Bson::Boolean(b) => Held::Flag(*b),
        Bson::Int32(n) => Held::Whole(*n as i64),
        Bson::Int64(n) => Held::Whole(*n),
        Bson::Double(x) => Held::Real(f64::from_bits(x.bits)),
        Bson::Text(s) => Held::Text(s.clone()),
        Bson::Array(items) => Held::List(items.iter().map(constant).collect()),
        Bson::Document(doc) => {
            Held::Fields(doc.entries.iter().map(|(k, v)| (k.clone(), constant(v))).collect())
        }
        _ => Held::Missing,
    }
}

fn field_of(value: &Held, key: &str) -> Held {
    match value {
        Held::Fields(fields) => fields
            .iter()
            .find(|(k, _)| k.as_str() == key)
            .map_or(Held::Missing, |(_, v)| v.clone()),
        _ => Held::Missing,
    }
}

fn amount(value: &Held) -> f64 {
    match value {
        Held::Real(x) => *x,
        Held::Whole(n) => *n as f64,
        other => panic!("not a number: {other:?}"),
    }
}

fn flag(value: Held) -> bool {
    matches!(value, Held::Flag(true))
}

fn list(value: Held) -> Vec<Held> {
    match value {
        Held::List(items) => items,
        other => panic!("not a list: {other:?}"),
    }
}

fn text(value: Held) -> String {
    match value {
        Held::Text(s) => s,
        other => panic!("not a text: {other:?}"),
    }
}

fn evaluate(expression: &Bson, scope: &[(String, Held)]) -> Held {
    let doc = match expression {
        Bson::Text(path) if path.starts_with("$$") => {
            let mut parts = path[2..].split('.');
            let name = parts.next().unwrap();
            let start = scope.iter().rev().find(|(k, _)| k.as_str() == name).unwrap().1.clone();
            return parts.fold(start, |value, part| field_of(&value, part));
        }
        Bson::Text(path) if path.starts_with('$') => {
            return field_of(&scope[0].1, &path[1..]);
        }
        Bson::Document(doc) => doc,
        other => return constant(other),
    };
    let (operator, argument) = &doc.entries[0];
    let at = |i: usize| match argument {
        Bson::Array(items) => evaluate(&items[i], scope),
        one => evaluate(one, scope),
    };
    let part = |key: &str| match argument {
        Bson::Document(parts) => parts.get(key).unwrap(),
        other => panic!("no parts: {other:?}"),
    };
    match operator.as_str() {
        "$literal" => constant(argument),
        "$getField" => {
            field_of(&evaluate(part("input"), scope), &text(evaluate(part("field"), scope)))
        }
        "$type" => Held::Text(
            match at(0) {
                Held::Real(_) => "double",
                Held::Whole(_) => "int",
                Held::Text(_) => "string",
                _ => "missing",
            }
            .to_string(),
        ),
        "$toDouble" => Held::Real(amount(&at(0))),
        "$lt" => Held::Flag(amount(&at(0)) < amount(&at(1))),
        "$eq" => Held::Flag(at(0) == at(1)),
        "$in" => Held::Flag(list(at(1)).contains(&at(0))),
        "$and" => Held::Flag(flag(at(0)) && flag(at(1))),
        "$cond" => {
            if flag(at(0)) {
                at(1)
            } else {
                at(2)
            }
        }
        "$trim" => {
            let chars = text(evaluate(part("chars"), scope));
            let input = text(evaluate(part("input"), scope));
            Held::Text(input.trim_matches(|c| chars.contains(c)).to_string())
        }
        "$strcasecmp" => {
            Held::Whole(i64::from(!text(at(0)).eq_ignore_ascii_case(&text(at(1)))))
        }
        "$anyElementTrue" => Held::Flag(list(at(0)).into_iter().any(flag)),
        "$map" => {
            let name = text(constant(part("as")));
            let each = |item: Held| {
                let mut inner = scope.to_vec();
                inner.push((name.clone(), item));
                evaluate(part("in"), &inner)
            };
            Held::List(list(evaluate(part("input"), scope)).into_iter().map(each).collect())
        }
        "$sortArray" => {
            let keys: Vec<String> = match part("sortBy") {
                Bson::Document(order) => order.entries.iter().map(|(k, _)| k.clone()).collect(),
                other => panic!("no order: {other:?}"),
            };
            let mut items = list(evaluate(part("input"), scope));
            items.sort_by(|a, b| {
                let of = |v: &Held| -> Vec<f64> {
                    keys.iter().map(|k| amount(&field_of(v, k))).collect()
                };
                of(a).partial_cmp(&of(b)).unwrap()
            });
            Held::List(items)
        }
        "$slice" => {
            let max = amount(&at(1)) as usize;
            Held::List(list(at(0)).into_iter().take(max).collect())
        }
        _ => Held::Fields(
            doc.entries.iter().map(|(k, v)| (k.clone(), evaluate(v, scope))).collect(),
        ),
    }
}

/// The names of some rows after the stages ran on them.
fn sorted_names(config: &CatalogXmatchConfig, rows: &[Document]) -> Vec<String> {
    let stages = make_sort_trim_pipeline(config, "f");
    let value = match &stages {
        Bson::Array(stages) => match &stages[0] {
            Bson::Document(stage) => match stage.get("$set").unwrap() {
                Bson::Document(set) => set.get("f").unwrap(),
                other => panic!("{other:?}"),
            },
            other => panic!("{other:?}"),
        },
        other => panic!("{other:?}"),
    };
    let held: Vec<Held> = rows.iter().map(|row| constant(&Bson::Document(row.copy()))).collect();
    let record = Held::Fields(vec![("f".to_string(), Held::List(held))]);
    list(evaluate(value, &[("ROOT".to_string(), record)]))
        .iter()
        .map(|row| text(field_of(row, "name")))
        .collect()
}

fn gathered(name: &str, kind: &str, arcsec: f64, kpc: Option<f64>) -> Document {
    let row = Document::new()
        .with("name", Bson::text(name))
        .with("kind", Bson::text(kind))
        .with("distance_arcsec", Bson::Double(d(arcsec)));
    match kpc {
        Some(kpc) => row.with("distance_kpc", Bson::Double(d(kpc))),
        None => row,
    }
}

#[test]
fn buffers_are_sorted_as_crossmatches_are() {
    let mut settings = config("NED", true, None);
    settings.type_key = Some("kind".to_string());
    settings.stellar_types = vec!["*".to_string(), "psf".to_string()];
    let rows = vec![
        gathered("far star", " PSF\u{3000}", 20.0, Some(-1.0)),
        gathered("star", "*", 10.0, Some(-1.0)),
        gathered("unmeasured", "G", 2.0, None),
        gathered("farther", "G", 3.0, Some(30.0)),
        gathered("farther still", "G", 4.0, Some(30.0)),
        gathered("galaxy", "G", 50.0, Some(12.0)),
        gathered("nearby galaxy", "G", 90.0, Some(-1.0)),
        gathered("odd", "G", f64::NAN, Some(f64::INFINITY)),
        gathered("coincident star", "psf", 0.4, Some(-1.0)),
    ];
    let expected: Vec<String> = host_order(&rows, &settings.type_key, &settings.stellar_types)
        .into_iter()
        .map(|at| match rows[at].get("name").unwrap() {
            Bson::Text(name) => name.clone(),
            other => panic!("{other:?}"),
        })
        .collect();
    assert_eq!(
        expected,
        vec![
            "coincident star",
            "nearby galaxy",
            "galaxy",
            "farther",
            "farther still",
            "unmeasured",
            "odd",
            "star",
            "far star",
        ]
    );
    assert_eq!(sorted_names(&settings, &rows), expected);
    settings.max_results = Some(3);
    assert_eq!(sorted_names(&settings, &rows), expected[..3].to_vec());

    // A catalog that does not tell stars apart.
    settings.max_results = None;
    settings.type_key = None;
    let expected = vec!["coincident star", "star", "far star", "nearby galaxy"];
    assert_eq!(sorted_names(&settings, &rows)[..4].to_vec(), expected);
}

#[test]
fn the_stage_writes_only_its_field() {
    let stages = show(&make_sort_trim_pipeline(&config("NED", false, Some(7)), "f"));
    assert!(stages.starts_with("[{$set: {f: {$slice: [{$map: {input: {$sortArray: {input: {$map: "));
    assert!(stages.ends_with(
        "sortBy: {rank: 1, kpc: 1, arcsec: 1}}}, as: 'keyed', in: '$$keyed.row'}}, 7L]}}}]"
    ));
    let field = "{$getField: {field: {$literal: 'distance_arcsec'}, input: '$$row'}}";
    assert!(stages.contains(&format!(
        "arcsec: {{$cond: [{{$in: [{{$type: {field}}}, {{$literal: ['double', 'int', 'long']}}]}}, \
         {{$cond: [{{$and: [{{$lt: [{{$literal: -inf}}, {{$toDouble: {field}}}]}}, \
         {{$lt: [{{$toDouble: {field}}}, {{$literal: inf}}]}}]}}, {{$toDouble: {field}}}, \
         {{$literal: inf}}]}}, {{$literal: inf}}]}}"
    )));
}

#[test]
fn a_match_is_stored_with_its_distances() {
    let mut found = CatalogMatch { row: 3, distance_arcsec: d(1.5), distance_kpc: None };
    assert_eq!(fields(&match_fields(&found)), "{distance_arcsec: 1.5}");
    found.distance_kpc = Some(d(-1.0));
    assert_eq!(fields(&match_fields(&found)), "{distance_arcsec: 1.5, distance_kpc: -1.0}");
}

#[test]
fn the_columns_that_are_matched_on_are_read_too() {
    assert_eq!(
        fields(&catalog_columns(&config("NED", true, None))),
        "{name: 1, _id: 1, ra: 1, dec: 1, z: 1}"
    );
    assert_eq!(
        fields(&catalog_columns(&config("NED", false, None))),
        "{name: 1, _id: 1, ra: 1, dec: 1}"
    );
}

#[test]
fn rows_without_what_is_matched_on_are_passed_over() {
    let doc = Document::new()
        .with("ra", Bson::Double(d(10.0)))
        .with("dec", Bson::Int32(20));
    let plain = read_catalog_row(&config("NED", false, None), &doc).unwrap();
    assert_eq!((plain.ra, plain.dec, plain.z), (d(10.0), d(20.0), None));
    assert!(read_catalog_row(&config("NED", true, None), &doc).is_none());
    let far = doc.with("z", Bson::Double(d(-99.0)));
    // The redshift is taken as it is.
    assert_eq!(read_catalog_row(&config("NED", true, None), &far).unwrap().z, Some(d(-99.0)));
    assert!(read_catalog_row(&config("NED", false, None), &Document::new()).is_none());
}

#[test]
fn objects_are_looked_for_round_the_row() {
    assert_eq!(
        fields(&aux_filter(&config("NED", false, None), d(-170.0), d(20.0), d(5.0))),
        "{coordinates.radec_geojson: {$geoWithin: {$centerSphere: [[-170.0, 20.0], 0.25]}}, \
         created_at: {$lt: 5.0}}"
    );
}

#[test]
fn a_row_matches_strictly_within_its_radius() {
    let config = config("NED", true, None);
    let at = |distance: f64, z: f64| {
        match_row(
            &config,
            9,
            Some(d(z)),
            d(distance),
            d(30.0 * (0.05 / z)),
            d(distance * (z / 0.05)),
        )
    };
    assert!(at(30.0, 0.05).is_none());
    let found = at(29.0, 0.05).unwrap();
    assert_eq!((found.row, found.distance_kpc), (9, Some(d(29.0))));
    let near = at(299.0, 0.001).unwrap();
    assert_eq!(near.distance_kpc, Some(d(-1.0)));
    assert!(at(300.0, 0.001).is_none());
    let plain = match_row(&config, 9, None, d(1e9), d(0.0), d(0.0)).unwrap();
    assert_eq!(plain.distance_kpc, None);
}

#[test]
fn positions_are_read_where_they_are_stored() {
    let stored = |pair: Vec<Bson>| {
        Document::new().with(
            "coordinates",
            Bson::Document(Document::new().with(
                "radec_geojson",
                Bson::Document(Document::new().with("coordinates", Bson::Array(pair))),
            )),
        )
    };
    let number = |x: f64| Bson::Double(d(x));
    let radec = |doc: &Document| extract_radec(doc, &|x: Double| d(f64::from_bits(x.bits) + 180.0));
    assert_eq!(
        radec(&stored(vec![number(-170.0), number(20.0)])),
        Some((d(10.0), d(20.0)))
    );
    assert_eq!(radec(&stored(vec![number(1.0)])), None);
    assert_eq!(radec(&stored(vec![number(1.0), number(2.0), number(3.0)])), None);
    assert_eq!(radec(&stored(vec![number(f64::NAN), number(2.0)])), None);
    assert_eq!(radec(&stored(vec![Bson::Int32(1), number(2.0)])), None);
    assert_eq!(radec(&Document::new()), None);
}

#[test]
fn objects_are_handed_on_in_full_batches() {
    let mut batch = ObjectBatch::new(3);
    let mut handed: Vec<Vec<u8>> = vec![];
    for item in 0..7 {
        handed.extend(batch.add(item));
    }
    assert_eq!(handed, vec![vec![0, 1, 2], vec![3, 4, 5]]);
    assert_eq!(batch.finish(), Some(vec![6]));
    let mut single = ObjectBatch::new(1);
    assert_eq!(single.add('a'), Some(vec!['a']));
    assert_eq!(single.finish(), None);
}

#[test]
fn every_catalog_of_the_run_is_set_on_an_object() {
    let kept = Kept {
        batch: 1,
        row: 4,
        distance_arcsec: d(2.5),
        distance_kpc: None,
        has_id: true,
    };
    let mut found: Named<Vec<Kept>> = Named::new();
    found.set_list("Gaia", vec![kept]);
    found.set_list("elsewhere", vec![kept, kept]);
    let update = object_update(&[config("NED", true, None), config("Gaia", false, None)], &found);
    assert_eq!(update.entries.len(), 2);
    assert_eq!(update.get_list("cross_matches.NED"), Some(&vec![]));
    assert_eq!(update.get_list("cross_matches.Gaia"), Some(&vec![kept]));
    assert_eq!(update.get_list("Gaia"), None);
}

#[test]
fn matches_are_gathered_by_object_and_written_in_batches() {
    let mut pending = Pending::new();
    let found = |row| CatalogMatch { row, distance_arcsec: d(1.0), distance_kpc: None };
    pending.count_row();
    pending.gather("a", found(0));
    assert!(!pending.is_due(2));
    pending.count_row();
    pending.gather("b", found(1));
    pending.gather("a", found(1));
    assert!(pending.is_due(2));
    let drained = pending.drain();
    let rows: Vec<usize> = drained.get("a").unwrap().iter().map(|m| m.row).collect();
    assert_eq!(rows, vec![0, 1]);
    assert_eq!(drained.entries.len(), 2);
    // Nothing is written when nothing was found.
    assert!(!pending.is_due(2));
    assert_eq!(pending.cat_count, 2);
}

#[test]
fn a_worker_that_did_not_finish_stops_the_run() {
    let mixed = vec![
        WorkerOutcome::Finished,
        WorkerOutcome::Lost,
        WorkerOutcome::Failed,
        WorkerOutcome::Failed,
    ];
    let lost = vec![WorkerOutcome::Finished, WorkerOutcome::Lost];
    let finished = vec![WorkerOutcome::Finished, WorkerOutcome::Finished];
    assert_eq!(first_failure(&mixed), Some(1));
    assert_eq!(first_failure(&lost), Some(1));
    assert_eq!(first_failure(&finished), None);
    // Objects are written one by one, so that losing a worker there does no harm.
    assert_eq!(first_error(&mixed), Some(2));
    assert_eq!(first_error(&lost), None);

    let config = config("NED", false, None);
    let streaming = || {
        let mut run = CatalogRun::new("NED", d(1.0));
        run.advance(true);
        run
    };
    let mut run = streaming();
    assert_eq!(run.streamed(&lost), Some(1));
    assert_eq!(run.phase, Phase::Failed);
    assert!(run.action(&config).is_none());
    let mut run = streaming();
    assert_eq!(run.streamed(&finished), None);
    assert_eq!(run.phase, Phase::Sorting);
}

#[test]
fn the_probe_looks_for_shapes() {
    assert_eq!(
        show(&probe_catalogs(&HostGalaxyConfig::default())),
        "[{$sample: {size: 1000L}}, {$match: {$or: [{cross_matches.NED.Diam: {$exists: true}}, \
         {cross_matches.LSDR10: {$exists: true}}]}}, {$limit: 1}]"
    );
}

#[test]
fn existing_associations_can_be_skipped() {
    assert_eq!(fields(&find_filter(true)), "{host_galaxy: {$exists: false}}");
    assert_eq!(fields(&find_filter(false)), "{}");
    assert_eq!(fields(&find_projection()), "{_id: 1, coordinates: 1, cross_matches: 1}");
}

#[test]
fn updates_are_written_in_batches() {
    let mut backfill = Backfill::new(2, false);
    assert_eq!(backfill.add_update(), Flush::Keep);
    assert_eq!(backfill.add_update(), Flush::Write);
    assert_eq!(backfill.add_update(), Flush::Keep);
    assert_eq!(backfill.finish(), Flush::Write);
    assert_eq!(backfill.written, 3);
    assert_eq!(backfill.finish(), Flush::Keep);
    assert_eq!(summary(false, 3), "updated host_galaxy on 3 records");
}

#[test]
fn every_update_is_written_once() {
    let mut backfill = Backfill::new(3, false);
    let (mut batch, mut written) = (0, vec![]);
    for _ in 0..8 {
        batch += 1;
        if backfill.add_update() == Flush::Write {
            written.push(batch);
            batch = 0;
        }
        assert_eq!(backfill.pending, batch);
    }
    assert_eq!(backfill.written, 6);
    assert_eq!(backfill.finish(), Flush::Write);
    written.push(batch);
    assert_eq!(written, vec![3, 3, 2]);
    assert_eq!(backfill.written, 8);
}

#[test]
fn an_association_is_set_on_its_object() {
    assert_eq!(fields(&object_filter("ZTF1")), "{_id: 'ZTF1'}");
    assert_eq!(fields(&host_update(Bson::Int32(4))), "{$set: {host_galaxy: 4}}");
}

#[test]
fn a_dry_run_counts_without_writing() {
    let mut backfill = Backfill::new(1, true);
    assert_eq!(backfill.add_update(), Flush::Discard);
    assert_eq!(backfill.finish(), Flush::Keep);
    assert_eq!(backfill.written, 1);
    assert_eq!(summary(true, 1), "dry run: 1 records would have been updated");
}

#[test]
fn positive_numbers_are_read_from_the_command_line() {
    assert_eq!(parse_positive_usize("5000"), Ok(5000));
    assert_eq!(parse_positive_usize("+7"), Ok(7));
    assert_eq!(parse_positive_usize("18446744073709551615"), Ok(usize::MAX));
    let error = |s| parse_positive_usize(s).unwrap_err();
    assert_eq!(error("0"), "must be > 0");
    assert_eq!(error("+"), "not a usize: invalid digit found in string");
    assert_eq!(error("-1"), "not a usize: invalid digit found in string");
    assert_eq!(error("1x"), "not a usize: invalid digit found in string");
    assert_eq!(error(""), "not a usize: cannot parse integer from empty string");
    assert_eq!(
        error("18446744073709551616"),
        "not a usize: number too large to fit in target type"
    );
    for s in ["", "+", "-", "1", "007", "99999999999999999999x", "x99999999999999999999", "1 "] {
        let expected = s.parse::<usize>().map_err(|e| format!("not a usize: {e}"));
        match (parse_positive_usize(s), expected) {
            (Ok(a), Ok(b)) => assert_eq!(a, b),
            (Err(a), Err(b)) => assert_eq!(a, b),
            (a, b) => panic!("{s}: {a:?} {b:?}"),
        }
    }
}
