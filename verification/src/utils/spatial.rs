//! Matching alerts against catalogs by position.
//!
//! Angles and distances are computed outside and handed in; what is decided
//! here is which catalog rows match, in which order, and what is asked of the
//! database.
use vstd::prelude::*;

use crate::api::alerts::{cone_node, cone_value};
use crate::binary::{Double, DOUBLE_INFINITY};
use crate::conf::CatalogXmatchConfig;
use crate::document::{only, Bson, Document, Node};
use crate::named::{listed, lookup, put, Named};
use crate::order::{is_ranking, key_less, precedes, ranked, ranking, Key};
use crate::text::{
    any_ignore_ascii_case, has_prefix, join3, lists_folded, same, starts_with, trim, trimmed,
};
use crate::utils::enums::Survey;

verus! {

/// Why a field of a document could not be read.
#[derive(Clone, Copy, Debug, PartialEq, Eq, Structural)]
pub enum ValueAccess {
    NotPresent,
    UnexpectedType,
}

#[derive(Clone, Copy, Debug, PartialEq, Eq, Structural)]
pub enum XmatchError {
    BsonValueAccess(ValueAccess),
}

/// Field of a watchlist document under which the objects of a survey that match it
/// are recorded.
pub open spec fn match_field(survey: Survey) -> Seq<char> {
    "matching_"@ + survey.lower_name() + "_objects"@
}

pub fn watchlist_match_field(survey: &Survey) -> (field: String)
    ensures
        field@ == match_field(*survey),
{
    join3("matching_", survey.lower(), "_objects")
}

/// A point in the form in which the database indexes positions.
#[derive(Debug)]
pub struct GeoJsonPoint {
    pub kind: String,
    pub coordinates: Vec<Double>,
}

/// The position of an alert.
#[derive(Debug)]
pub struct Coordinates {
    pub radec_geojson: GeoJsonPoint,
    pub l: Option<Double>,
    pub b: Option<Double>,
    /// HEALPix NESTED index at [`HPX_DEPTH`]. `None` on alerts written before this
    /// field existed.
    pub hpx: Option<i64>,
}

/// Depth of the stored HEALPix index.
pub const HPX_DEPTH: u8 = 29;

impl Coordinates {
    /// A position from its longitude `ra - 180` and its latitude, its galactic
    /// coordinates and its HEALPix index.
    pub fn new(longitude: Double, dec: Double, l: Double, b: Double, hpx: u64) -> (c: Coordinates)
        requires
            hpx <= i64::MAX,
        ensures
            c.radec_geojson.kind@ == "Point"@,
            c.radec_geojson.coordinates@ == seq![longitude, dec],
            c.l == Some(l),
            c.b == Some(b),
            c.hpx == Some(hpx as i64),
    {
        let coordinates = vec![longitude, dec];
        assert(coordinates@ =~= seq![longitude, dec]);
        Coordinates {
            radec_geojson: GeoJsonPoint { kind: "Point".to_string(), coordinates },
            l: Some(l),
            b: Some(b),
            hpx: Some(hpx as i64),
        }
    }

    /// The stored HEALPix index.
    pub fn hpx(&self) -> (index: Option<i64>)
        ensures
            index == self.hpx,
    {
        self.hpx
    }

    /// The right ascension and the declination. `shift` gives the right ascension for a
    /// stored longitude: it adds 180.
    pub fn get_radec<F: Fn(Double) -> Double>(&self, shift: &F) -> (radec: (Double, Double))
        requires
            self.radec_geojson.coordinates@.len() >= 2,
            call_requires(*shift, (self.radec_geojson.coordinates@[0],)),
        ensures
            call_ensures(*shift, (self.radec_geojson.coordinates@[0],), radec.0),
            radec.1 == self.radec_geojson.coordinates@[1],
    {
        (shift(self.radec_geojson.coordinates[0]), self.radec_geojson.coordinates[1])
    }
}

/// The number in a field, whatever kind of number it is.
pub open spec fn number_of(fields: Seq<(Seq<char>, Node)>, key: Seq<char>) -> Option<Double> {
    match lookup(fields, key) {
        Some(Node::Double(x)) => Some(x),
        Some(Node::Int32(n)) => Some(Double::of_integer(n as int)),
        Some(Node::Int64(n)) => Some(Double::of_integer(n as int)),
        _ => None,
    }
}

/// The number in a field, where it is finite.
pub open spec fn finite_of(fields: Seq<(Seq<char>, Node)>, key: Seq<char>) -> Option<Double> {
    match number_of(fields, key) {
        Some(x) => if x.is_finite_spec() {
            Some(x)
        } else {
            None
        },
        None => None,
    }
}

fn bson_f64(doc: &Document, key: &str) -> (number: Option<Double>)
    ensures
        number == number_of(doc@, key@),
{
    match doc.get(key) {
        Some(value) => match value {
            Bson::Double(x) => Some(*x),
            Bson::Int32(n) => Some(Double::from_i64(*n as i64)),
            Bson::Int64(n) => Some(Double::from_i64(*n)),
            _ => None,
        },
        None => None,
    }
}

/// The finite number in a field, for measurements that a catalog may leave empty.
pub fn get_opt_f64_from_doc(doc: &Document, key: &str) -> (number: Option<Double>)
    ensures
        number == finite_of(doc@, key@),
{
    match bson_f64(doc, key) {
        Some(x) => if x.is_finite() {
            Some(x)
        } else {
            None
        },
        None => None,
    }
}

/// The finite number in a field.
pub fn get_f64_from_doc(doc: &Document, key: &str) -> (number: Option<Double>)
    ensures
        number == finite_of(doc@, key@),
{
    get_opt_f64_from_doc(doc, key)
}

/// The condition on the coordinates of a catalog row.
pub open spec fn in_cone(ra_geojson: Double, dec_geojson: Double, radius: Double) -> Seq<
    (Seq<char>, Node),
> {
    only("coordinates.radec_geojson"@, cone_node(ra_geojson, dec_geojson, radius))
}

/// The stage that selects the rows of a catalog: those in its cone, and, for a
/// catalog with sizes, the large ones in a wider cone.
pub open spec fn match_stage(
    config: CatalogXmatchConfig,
    ra_geojson: Double,
    dec_geojson: Double,
) -> Seq<(Seq<char>, Node)> {
    let near = in_cone(ra_geojson, dec_geojson, config.radius);
    match (config.angular_size_key, config.angular_size_radius_max) {
        (Some(size_key), Some(radius_max)) => {
            let large = only(
                size_key@,
                Node::Document(only("$gt"@, Node::Double(config.radii.size_threshold))),
            );
            let wide = in_cone(ra_geojson, dec_geojson, radius_max);
            let both = only(
                "$and"@,
                Node::Array(seq![Node::Document(large), Node::Document(wide)]),
            );
            only(
                "$match"@,
                Node::Document(
                    only("$or"@, Node::Array(seq![Node::Document(near), Node::Document(both)])),
                ),
            )
        },
        _ => only("$match"@, Node::Document(near)),
    }
}

fn cone(ra_geojson: Double, dec_geojson: Double, radius: Double) -> (doc: Document)
    ensures
        doc@ == in_cone(ra_geojson, dec_geojson, radius),
{
    Document::new().with("coordinates.radec_geojson", cone_value(ra_geojson, dec_geojson, radius))
}

fn one(key: &str, value: Bson) -> (doc: Document)
    ensures
        doc@ == only(key@, value@),
{
    Document::new().with(key, value)
}

pub fn cone_match_stage(
    config: &CatalogXmatchConfig,
    ra_geojson: Double,
    dec_geojson: Double,
) -> (stage: Document)
    ensures
        stage@ == match_stage(*config, ra_geojson, dec_geojson),
{
    let near = cone(ra_geojson, dec_geojson, config.radius);
    match (&config.angular_size_key, config.angular_size_radius_max) {
        (Some(size_key), Some(radius_max)) => {
            let large = one(
                size_key.as_str(),
                Bson::Document(one("$gt", Bson::Double(config.radii.size_threshold))),
            );
            let wide = cone(ra_geojson, dec_geojson, radius_max);
            let both = one("$and", Bson::pair(Bson::Document(large), Bson::Document(wide)));
            one(
                "$match",
                Bson::Document(
                    one("$or", Bson::pair(Bson::Document(near), Bson::Document(both))),
                ),
            )
        },
        _ => one("$match", Bson::Document(near)),
    }
}

/// What is asked of one catalog: its rows in reach, projected, as one list under
/// the catalog's name.
pub open spec fn catalog_stages(
    config: CatalogXmatchConfig,
    ra_geojson: Double,
    dec_geojson: Double,
) -> Seq<Node> {
    let gathered = put(
        only("_id"@, Node::Null),
        "matches"@,
        Node::Document(only("$push"@, Node::Text("$$ROOT"@))),
    );
    let named = put(
        put(only("_id"@, Node::Int32(0)), "matches"@, Node::Int32(1)),
        "catalog"@,
        Node::Text(config.catalog@),
    );
    seq![
        Node::Document(match_stage(config, ra_geojson, dec_geojson)),
        Node::Document(only("$project"@, Node::Document(config.projection@))),
        Node::Document(only("$group"@, Node::Document(gathered))),
        Node::Document(only("$project"@, Node::Document(named))),
    ]
}

fn catalog_pipeline(
    config: &CatalogXmatchConfig,
    ra_geojson: Double,
    dec_geojson: Double,
) -> (stages: Vec<Bson>)
    ensures
        Bson::Array(stages)@ == Node::Array(catalog_stages(*config, ra_geojson, dec_geojson)),
        stages@.len() == 4,
{
    let gathered = one("_id", Bson::Null).with(
        "matches",
        Bson::Document(one("$push", Bson::text("$$ROOT"))),
    );
    let named = one("_id", Bson::Int32(0)).with("matches", Bson::Int32(1)).with(
        "catalog",
        Bson::text(config.catalog.as_str()),
    );
    let stages = vec![
        Bson::Document(cone_match_stage(config, ra_geojson, dec_geojson)),
        Bson::Document(one("$project", Bson::Document(config.projection.copy()))),
        Bson::Document(one("$group", Bson::Document(gathered))),
        Bson::Document(one("$project", Bson::Document(named))),
    ];
    let ghost wanted = catalog_stages(*config, ra_geojson, dec_geojson);
    assert(stages@[0]@ == wanted[0]);
    assert(stages@[1]@ == wanted[1]);
    assert(stages@[2]@ == wanted[2]);
    assert(stages@[3]@ == wanted[3]);
    assert(Bson::Array(stages)@->Array_0 =~= wanted);
    stages
}

/// The stage that adds another catalog.
pub open spec fn union_stage(
    config: CatalogXmatchConfig,
    ra_geojson: Double,
    dec_geojson: Double,
) -> Node {
    Node::Document(
        only(
            "$unionWith"@,
            Node::Document(
                put(
                    only("coll"@, Node::Text(config.collection_name@)),
                    "pipeline"@,
                    Node::Array(catalog_stages(config, ra_geojson, dec_geojson)),
                ),
            ),
        ),
    )
}

/// What is asked of the database: the first catalog's stages, then a union stage
/// for each other catalog.
pub open spec fn xmatch_stages(
    configs: Seq<CatalogXmatchConfig>,
    ra_geojson: Double,
    dec_geojson: Double,
) -> Seq<Node> {
    catalog_stages(configs[0], ra_geojson, dec_geojson) + Seq::new(
        (configs.len() - 1) as nat,
        |i: int| union_stage(configs[i + 1], ra_geojson, dec_geojson),
    )
}

/// A query that runs on one collection.
#[derive(Debug)]
pub struct Aggregation {
    pub collection: String,
    pub pipeline: Bson,
}

/// Plans the crossmatch of a position against some catalogs; there is nothing to
/// ask without any.
pub fn xmatch(configs: &[CatalogXmatchConfig], ra_geojson: Double, dec_geojson: Double) -> (plan:
    Option<Aggregation>)
    ensures
        plan is Some <==> configs@.len() > 0,
        plan matches Some(plan) ==> {
            &&& plan.collection@ == configs@[0].collection_name@
            &&& plan.pipeline@ == Node::Array(xmatch_stages(configs@, ra_geojson, dec_geojson))
        },
{
    if configs.len() == 0 {
        return None;
    }
    let mut stages = catalog_pipeline(&configs[0], ra_geojson, dec_geojson);
    let ghost first = catalog_stages(configs@[0], ra_geojson, dec_geojson);
    assert forall|k: int| 0 <= k < 4 implies (#[trigger] stages@[k])@ == first[k] by {
        assert(Bson::Array(stages)@->Array_0[k] == stages@[k]@);
    }
    let mut i: usize = 1;
    while i < configs.len()
        invariant
            1 <= i <= configs@.len(),
            first == catalog_stages(configs@[0], ra_geojson, dec_geojson),
            stages@.len() == 4 + i - 1,
            forall|k: int| 0 <= k < 4 ==> (#[trigger] stages@[k])@ == first[k],
            forall|k: int|
                4 <= k < stages@.len() ==> (#[trigger] stages@[k])@ == union_stage(
                    configs@[k - 3],
                    ra_geojson,
                    dec_geojson,
                ),
        decreases configs.len() - i,
    {
        let config = &configs[i];
        let inner = catalog_pipeline(config, ra_geojson, dec_geojson);
        let stage = one(
            "$unionWith",
            Bson::Document(
                one("coll", Bson::text(config.collection_name.as_str())).with(
                    "pipeline",
                    Bson::Array(inner),
                ),
            ),
        );
        stages.push(Bson::Document(stage));
        i = i + 1;
    }
    let pipeline = Bson::Array(stages);
    assert(pipeline@->Array_0 =~= xmatch_stages(configs@, ra_geojson, dec_geojson));
    Some(Aggregation { collection: configs[0].collection_name.clone(), pipeline })
}

/// The pattern of 0.005. Below this redshift a projected physical distance is not
/// meaningful: the peculiar velocity of a nearby galaxy dominates its recession,
/// and a star sits here too.
pub const NEARBY_REDSHIFT: u64 = 0x3F74_7AE1_47AE_147B;

/// The pattern of -1, the `distance_kpc` of a row below [`NEARBY_REDSHIFT`].
pub const NO_PROJECTED_DISTANCE: u64 = 0xBFF0_0000_0000_0000;

/// The pattern of 1. A match within this many arcseconds is treated as coincident
/// with the transient, whatever it is.
pub const COINCIDENT_ARCSEC: u64 = 0x3FF0_0000_0000_0000;

/// Match radius in arcseconds for a row at redshift `z`: fixed below
/// [`NEARBY_REDSHIFT`], and otherwise `scaled`, which is `distance_max * 0.05 / z`.
pub open spec fn distance_radius(z: Double, scaled: Double, distance_max_near: Double) -> Double {
    if z.less(Double { bits: NEARBY_REDSHIFT }) {
        distance_max_near
    } else {
        scaled
    }
}

pub fn cm_radius_arcsec(z: Double, scaled: Double, distance_max_near: Double) -> (radius: Double)
    ensures
        radius == distance_radius(z, scaled, distance_max_near),
{
    if z.lt(Double { bits: NEARBY_REDSHIFT }) {
        distance_max_near
    } else {
        scaled
    }
}

/// Projected distance in kpc at redshift `z`: `scaled`, which is the separation in
/// arcseconds times `z / 0.05`, or a marker below [`NEARBY_REDSHIFT`].
pub open spec fn projected_distance(z: Double, scaled: Double) -> Double {
    if (Double { bits: NEARBY_REDSHIFT }).at_most(z) {
        scaled
    } else {
        Double { bits: NO_PROJECTED_DISTANCE }
    }
}

pub fn distance_kpc_from_arcsec(z: Double, scaled: Double) -> (kpc: Double)
    ensures
        kpc == projected_distance(z, scaled),
{
    if (Double { bits: NEARBY_REDSHIFT }).le(z) {
        scaled
    } else {
        Double { bits: NO_PROJECTED_DISTANCE }
    }
}

/// Redshift of a catalog row, for catalogs that have one. A negative one stands for
/// none and is folded to 0, so that the row is kept.
pub open spec fn redshift_of(
    config: CatalogXmatchConfig,
    fields: Seq<(Seq<char>, Node)>,
) -> Option<Double> {
    match config.distance_key {
        Some(key) => match finite_of(fields, key@) {
            Some(z) => Some(
                if (Double { bits: 0 }).at_most(z) {
                    z
                } else {
                    Double { bits: 0 }
                },
            ),
            None => None,
        },
        None => None,
    }
}

pub fn row_redshift(config: &CatalogXmatchConfig, doc: &Document) -> (z: Option<Double>)
    ensures
        z == redshift_of(*config, doc@),
{
    match &config.distance_key {
        Some(key) => match get_f64_from_doc(doc, key.as_str()) {
            Some(z) => Some(
                if (Double { bits: 0 }).le(z) {
                    z
                } else {
                    Double { bits: 0 }
                },
            ),
            None => None,
        },
        None => None,
    }
}

/// Size of a catalog row, for catalogs that have one.
pub open spec fn size_of_row(
    config: CatalogXmatchConfig,
    fields: Seq<(Seq<char>, Node)>,
) -> Option<Double> {
    match config.angular_size_key {
        Some(key) => finite_of(fields, key@),
        None => None,
    }
}

pub fn row_size(config: &CatalogXmatchConfig, doc: &Document) -> (size: Option<Double>)
    ensures
        size == size_of_row(*config, doc@),
{
    match &config.angular_size_key {
        Some(key) => get_opt_f64_from_doc(doc, key.as_str()),
        None => None,
    }
}

/// What is computed for one row.
#[derive(Clone, Copy, Debug)]
pub struct RowNumbers {
    /// Angular separation of the row from the alert, in arcseconds.
    pub distance_arcsec: Double,
    /// The configured multiple of half the row's size, where it has one.
    pub scaled_size: Double,
    /// `distance_max * 0.05 / z`, where the row has a redshift.
    pub scaled_radius: Double,
    /// `distance_arcsec * z / 0.05`, where the row has a redshift.
    pub scaled_distance: Double,
}

/// Radius in arcseconds within which a row is accepted. A catalog may declare a
/// rule on size and one on distance; the wider one decides. The rule on distance
/// does not reach past the cone that the database was asked for.
pub open spec fn match_radius(
    config: CatalogXmatchConfig,
    fields: Seq<(Seq<char>, Node)>,
    numbers: RowNumbers,
) -> Double {
    let zero = Double { bits: 0 };
    let sized = config.radius_for(size_of_row(config, fields), numbers.scaled_size);
    let distant = match redshift_of(config, fields) {
        Some(z) => distance_radius(z, numbers.scaled_radius, config.distance_max_near->0).least(
            config.radii.base,
        ),
        None => zero,
    };
    if config.angular_size_key is None && !config.use_distance {
        config.radii.base
    } else {
        (if config.angular_size_key is Some {
            sized
        } else {
            zero
        }).greatest(
            if config.use_distance {
                distant
            } else {
                zero
            },
        )
    }
}

pub fn row_match_radius_arcsec(
    config: &CatalogXmatchConfig,
    doc: &Document,
    numbers: RowNumbers,
) -> (radius: Double)
    requires
        config.valid(),
    ensures
        radius == match_radius(*config, doc@, numbers),
{
    let zero = Double { bits: 0 };
    if config.angular_size_key.is_none() && !config.use_distance {
        return config.radii.base;
    }
    let sized = if config.angular_size_key.is_some() {
        config.match_radius_arcsec(row_size(config, doc), numbers.scaled_size)
    } else {
        zero
    };
    let distant = match (config.use_distance, config.distance_max_near) {
        (true, Some(near)) => match row_redshift(config, doc) {
            Some(z) => cm_radius_arcsec(z, numbers.scaled_radius, near).min(config.radii.base),
            None => zero,
        },
        _ => zero,
    };
    sized.max(distant)
}

/// Whether a row describes a star, by the catalog's own type column. A catalog
/// without one has no stars.
pub open spec fn stellar_row(
    fields: Seq<(Seq<char>, Node)>,
    type_key: Option<String>,
    stellar: Seq<String>,
) -> bool {
    match type_key {
        Some(key) => match lookup(fields, key@) {
            Some(Node::Text(value)) => lists_folded(stellar, trimmed(value)),
            _ => false,
        },
        None => false,
    }
}

fn is_stellar(doc: &Document, type_key: &Option<String>, stellar: &Vec<String>) -> (found: bool)
    ensures
        found == stellar_row(doc@, *type_key, stellar@),
{
    let key = match type_key {
        Some(key) => key,
        None => {
            return false;
        },
    };
    match doc.get(key.as_str()) {
        Some(value) => match value {
            Bson::Text(value) => any_ignore_ascii_case(stellar, trim(value.as_str())),
            _ => false,
        },
        None => false,
    }
}

/// A finite number of a row, or infinity.
pub open spec fn finite_or_infinite(fields: Seq<(Seq<char>, Node)>, key: Seq<char>) -> Double {
    match finite_of(fields, key) {
        Some(x) => x,
        None => Double { bits: DOUBLE_INFINITY },
    }
}

fn get_f64_or_infinity(doc: &Document, key: &str) -> (x: Double)
    ensures
        x == finite_or_infinite(doc@, key@),
        !x.is_nan_spec(),
{
    match get_f64_from_doc(doc, key) {
        Some(x) => x,
        None => Double { bits: DOUBLE_INFINITY },
    }
}

/// Rank of a match for host ordering; the lowest comes first.
///
/// 0. Coincident with the transient, of any type.
/// 1. A galaxy nearby, which has no meaningful projected distance: a transient can
///    sit well outside such a galaxy in arcseconds and still be inside it.
/// 2. Everything else, ordered by projected distance.
/// 3. Stars that are not coincident, which cannot host anything.
pub open spec fn rank_of(
    fields: Seq<(Seq<char>, Node)>,
    type_key: Option<String>,
    stellar: Seq<String>,
) -> u8 {
    if finite_or_infinite(fields, "distance_arcsec"@).less(Double { bits: COINCIDENT_ARCSEC }) {
        0
    } else if stellar_row(fields, type_key, stellar) {
        3
    } else if finite_or_infinite(fields, "distance_kpc"@).equals(
        Double { bits: NO_PROJECTED_DISTANCE },
    ) {
        1
    } else {
        2
    }
}

pub fn host_rank(doc: &Document, type_key: &Option<String>, stellar: &Vec<String>) -> (rank: u8)
    ensures
        rank == rank_of(doc@, *type_key, stellar@),
{
    let arcsec = get_f64_or_infinity(doc, "distance_arcsec");
    if arcsec.lt(Double { bits: COINCIDENT_ARCSEC }) {
        return 0;
    }
    if is_stellar(doc, type_key, stellar) {
        return 3;
    }
    let kpc = get_f64_or_infinity(doc, "distance_kpc");
    if kpc.same(Double { bits: NO_PROJECTED_DISTANCE }) {
        1
    } else {
        2
    }
}

/// What a match is ordered by: its rank, then its projected distance where that
/// rank is ordered by it, then its angular separation.
pub open spec fn sort_key(
    fields: Seq<(Seq<char>, Node)>,
    type_key: Option<String>,
    stellar: Seq<String>,
) -> (u8, Double, Double) {
    let rank = rank_of(fields, type_key, stellar);
    let kpc = if rank == 2 {
        finite_or_infinite(fields, "distance_kpc"@)
    } else {
        Double { bits: 0 }
    };
    (rank, kpc, finite_or_infinite(fields, "distance_arcsec"@))
}

pub fn host_sort_key(doc: &Document, type_key: &Option<String>, stellar: &Vec<String>) -> (key: (
    u8,
    Double,
    Double,
))
    ensures
        key == sort_key(doc@, *type_key, stellar@),
        !key.1.is_nan_spec(),
        !key.2.is_nan_spec(),
{
    let rank: u8 = host_rank(doc, type_key, stellar);
    let kpc = if rank == 2 {
        get_f64_or_infinity(doc, "distance_kpc")
    } else {
        Double { bits: 0 }
    };
    (rank, kpc, get_f64_or_infinity(doc, "distance_arcsec"))
}

/// The key of a match as numbers that are compared one after the other.
pub open spec fn place_key(
    fields: Seq<(Seq<char>, Node)>,
    type_key: Option<String>,
    stellar: Seq<String>,
) -> Key {
    let key = sort_key(fields, type_key, stellar);
    (key.0 as i64, key.1.position() as i64, key.2.position() as i64)
}

/// Orders matches, the likeliest host first.
pub fn host_order(
    docs: &Vec<Document>,
    type_key: &Option<String>,
    stellar: &Vec<String>,
) -> (rows: Vec<usize>)
    ensures
        rows@ == ranked(keys_of(docs@, *type_key, stellar@)),
        is_ranking(keys_of(docs@, *type_key, stellar@), rows@),
{
    let mut keys: Vec<Key> = Vec::new();
    let mut i: usize = 0;
    while i < docs.len()
        invariant
            i <= docs@.len(),
            keys@ == keys_of(docs@, *type_key, stellar@).take(i as int),
        decreases docs.len() - i,
    {
        let key = host_sort_key(&docs[i], type_key, stellar);
        keys.push((key.0 as i64, key.1.place(), key.2.place()));
        i = i + 1;
        assert(keys@ =~= keys_of(docs@, *type_key, stellar@).take(i as int));
    }
    assert(keys@ =~= keys_of(docs@, *type_key, stellar@));
    ranking(&keys)
}

/// The keys of some matches.
pub open spec fn keys_of(
    docs: Seq<Document>,
    type_key: Option<String>,
    stellar: Seq<String>,
) -> Seq<Key> {
    Seq::new(docs.len(), |i: int| place_key(docs[i]@, type_key, stellar))
}

/// A match that is kept: which row of which reply, and what is stored on it.
#[derive(Clone, Copy, Debug, PartialEq, Eq, Structural)]
pub struct Kept {
    pub batch: usize,
    pub row: usize,
    pub distance_arcsec: Double,
    /// Stored whenever the row carries a redshift, whatever rule matched it.
    pub distance_kpc: Option<Double>,
    /// Whether the row has an identifier.
    pub has_id: bool,
}

/// The values that an array holds.
pub open spec fn nodes(values: Seq<Bson>) -> Seq<Node> {
    values.map_values(|value: Bson| value@)
}

/// Whether a row is accepted: it has a position, and no more than its match radius
/// lies between it and the alert.
pub open spec fn accepted(config: CatalogXmatchConfig, row: Node, numbers: RowNumbers) -> bool {
    row matches Node::Document(fields) && finite_of(fields, "ra"@) is Some && finite_of(
        fields,
        "dec"@,
    ) is Some && !match_radius(config, fields, numbers).less(numbers.distance_arcsec)
}

/// A row with its angular separation on it.
pub open spec fn placed(fields: Seq<(Seq<char>, Node)>, numbers: RowNumbers) -> Seq<
    (Seq<char>, Node),
> {
    put(fields, "distance_arcsec"@, Node::Double(numbers.distance_arcsec))
}

/// The projected distance that is stored on a row.
pub open spec fn kpc_of(
    config: CatalogXmatchConfig,
    fields: Seq<(Seq<char>, Node)>,
    numbers: RowNumbers,
) -> Option<Double> {
    match redshift_of(config, placed(fields, numbers)) {
        Some(z) => Some(projected_distance(z, numbers.scaled_distance)),
        None => None,
    }
}

/// A row with its distances on it.
pub open spec fn marked(
    config: CatalogXmatchConfig,
    fields: Seq<(Seq<char>, Node)>,
    numbers: RowNumbers,
) -> Seq<(Seq<char>, Node)> {
    match kpc_of(config, fields, numbers) {
        Some(kpc) => put(placed(fields, numbers), "distance_kpc"@, Node::Double(kpc)),
        None => placed(fields, numbers),
    }
}

/// The accepted ones of the first `n` rows.
pub open spec fn accepted_rows(
    config: CatalogXmatchConfig,
    rows: Seq<Node>,
    numbers: Seq<RowNumbers>,
    n: nat,
) -> Seq<usize>
    decreases n,
{
    if n == 0 {
        Seq::empty()
    } else {
        let before = accepted_rows(config, rows, numbers, (n - 1) as nat);
        if accepted(config, rows[n - 1], numbers[n - 1]) {
            before.push((n - 1) as usize)
        } else {
            before
        }
    }
}

/// The key by which row `row` is ordered.
pub open spec fn row_key(
    config: CatalogXmatchConfig,
    rows: Seq<Node>,
    numbers: Seq<RowNumbers>,
    row: usize,
) -> Key {
    place_key(
        marked(config, rows[row as int]->Document_0, numbers[row as int]),
        config.type_key,
        config.stellar_types@,
    )
}

/// What is kept of row `row`.
pub open spec fn kept_row(
    config: CatalogXmatchConfig,
    rows: Seq<Node>,
    numbers: Seq<RowNumbers>,
    batch: usize,
    row: usize,
) -> Kept {
    let fields = rows[row as int]->Document_0;
    Kept {
        batch,
        row,
        distance_arcsec: numbers[row as int].distance_arcsec,
        distance_kpc: kpc_of(config, fields, numbers[row as int]),
        has_id: lookup(fields, "_id"@) is Some,
    }
}

/// What is kept of a catalog's rows: the accepted ones, the likeliest host first,
/// up to the configured number.
pub open spec fn kept_rows(
    config: CatalogXmatchConfig,
    rows: Seq<Node>,
    numbers: Seq<RowNumbers>,
    batch: usize,
) -> Seq<Kept> {
    let picked = accepted_rows(config, rows, numbers, rows.len());
    let keys = picked.map_values(|row: usize| row_key(config, rows, numbers, row));
    let order = ranked(keys);
    let all = order.map_values(
        |at: usize| kept_row(config, rows, numbers, batch, picked[at as int]),
    );
    match config.max_results {
        Some(max) => if max < all.len() {
            all.take(max as int)
        } else {
            all
        },
        None => all,
    }
}

/// A row as it is stored, and what is kept of it; nothing for one that is not
/// accepted.
fn accept_row(
    config: &CatalogXmatchConfig,
    row: &Bson,
    numbers: RowNumbers,
) -> (stored: Option<(Document, Option<Double>, bool)>)
    requires
        config.valid(),
    ensures
        stored is Some <==> accepted(*config, row@, numbers),
        stored matches Some((doc, kpc, has_id)) ==> {
            &&& doc@ == marked(*config, row@->Document_0, numbers)
            &&& kpc == kpc_of(*config, row@->Document_0, numbers)
            &&& has_id == lookup(row@->Document_0, "_id"@) is Some
        },
{
    let doc = match row {
        Bson::Document(doc) => doc,
        _ => {
            return None;
        },
    };
    if get_f64_from_doc(doc, "ra").is_none() {
        return None;
    }
    if get_f64_from_doc(doc, "dec").is_none() {
        return None;
    }
    if row_match_radius_arcsec(config, doc, numbers).lt(numbers.distance_arcsec) {
        return None;
    }
    let has_id = doc.get("_id").is_some();
    let mut stored = doc.copy();
    stored.insert("distance_arcsec", Bson::Double(numbers.distance_arcsec));
    match row_redshift(config, &stored) {
        Some(z) => {
            let kpc = distance_kpc_from_arcsec(z, numbers.scaled_distance);
            stored.insert("distance_kpc", Bson::Double(kpc));
            Some((stored, Some(kpc), has_id))
        },
        None => Some((stored, None, has_id)),
    }
}

/// Selects, orders and cuts the rows that one catalog gave.
pub fn match_rows(
    config: &CatalogXmatchConfig,
    rows: &Vec<Bson>,
    numbers: &Vec<RowNumbers>,
    batch: usize,
) -> (kept: Vec<Kept>)
    requires
        config.valid(),
        numbers@.len() == rows@.len(),
    ensures
        kept@ == kept_rows(*config, nodes(rows@), numbers@, batch),
{
    let mut docs: Vec<Document> = Vec::new();
    let mut found: Vec<Kept> = Vec::new();
    let mut i: usize = 0;
    let ghost values = nodes(rows@);
    while i < rows.len()
        invariant
            config.valid(),
            numbers@.len() == rows@.len(),
            i <= rows@.len(),
            values == nodes(rows@),
            docs@.len() == found@.len(),
            found@.len() == accepted_rows(*config, values, numbers@, i as nat).len(),
            forall|k: int|
                #![trigger found@[k]]
                #![trigger docs@[k]]
                0 <= k < found@.len() ==> {
                    let row = accepted_rows(*config, values, numbers@, i as nat)[k];
                    &&& found@[k] == kept_row(*config, values, numbers@, batch, row)
                    &&& docs@[k]@ == marked(
                        *config,
                        values[row as int]->Document_0,
                        numbers@[row as int],
                    )
                },
        decreases rows.len() - i,
    {
        assert(values[i as int] == rows@[i as int]@);
        match accept_row(config, &rows[i], numbers[i]) {
            Some((doc, distance_kpc, has_id)) => {
                docs.push(doc);
                found.push(
                    Kept {
                        batch,
                        row: i,
                        distance_arcsec: numbers[i].distance_arcsec,
                        distance_kpc,
                        has_id,
                    },
                );
            },
            None => {},
        }
        i = i + 1;
    }
    let ghost picked = accepted_rows(*config, values, numbers@, values.len());
    let ghost keys = picked.map_values(|row: usize| row_key(*config, values, numbers@, row));
    assert(keys_of(docs@, config.type_key, config.stellar_types@) =~= keys);
    let order = host_order(&docs, &config.type_key, &config.stellar_types);
    let ghost all = order@.map_values(
        |at: usize| kept_row(*config, values, numbers@, batch, picked[at as int]),
    );
    let limit: usize = match config.max_results {
        Some(max) => if max < order.len() {
            max
        } else {
            order.len()
        },
        None => order.len(),
    };
    let mut kept: Vec<Kept> = Vec::new();
    let mut j: usize = 0;
    while j < limit
        invariant
            j <= limit <= order@.len(),
            is_ranking(keys, order@),
            keys.len() == found@.len(),
            picked.len() == found@.len(),
            all == order@.map_values(
                |at: usize| kept_row(*config, values, numbers@, batch, picked[at as int]),
            ),
            forall|k: int|
                #![trigger found@[k]]
                0 <= k < found@.len() ==> found@[k] == kept_row(
                    *config,
                    values,
                    numbers@,
                    batch,
                    picked[k],
                ),
            kept@ == all.take(j as int),
        decreases limit - j,
    {
        let at: usize = order[j];
        kept.push(found[at]);
        j = j + 1;
        assert(kept@ =~= all.take(j as int));
    }
    assert(all.take(all.len() as int) =~= all);
    kept
}

/// What was found in each catalog so far.
#[derive(Debug)]
pub struct Crossmatch {
    pub results: Named<Vec<Kept>>,
    /// Number of replies that were taken in.
    pub batches: usize,
}

/// A list for each catalog, in which nothing stands yet.
pub open spec fn empty_lists(configs: Seq<CatalogXmatchConfig>, n: nat) -> Seq<
    (Seq<char>, Seq<Kept>),
>
    decreases n,
{
    if n == 0 {
        Seq::empty()
    } else {
        put(empty_lists(configs, (n - 1) as nat), configs[n - 1].catalog@, Seq::empty())
    }
}

/// The first of some catalogs that has a name, or their number.
pub open spec fn catalog_at(configs: Seq<CatalogXmatchConfig>, name: Seq<char>) -> int
    decreases configs.len(),
{
    if configs.len() == 0 || configs[0].catalog@ == name {
        0
    } else {
        1 + catalog_at(configs.drop_first(), name)
    }
}

pub(crate) fn find_catalog(configs: &[CatalogXmatchConfig], name: &str) -> (at: usize)
    ensures
        at == catalog_at(configs@, name@),
        at <= configs@.len(),
{
    let mut i: usize = 0;
    assert(configs@.skip(0) =~= configs@);
    while i < configs.len()
        invariant
            i <= configs@.len(),
            catalog_at(configs@, name@) == i + catalog_at(configs@.skip(i as int), name@),
        decreases configs.len() - i,
    {
        assert(configs@.skip(i as int).drop_first() =~= configs@.skip(i + 1));
        if same(configs[i].catalog.as_str(), name) {
            return i;
        }
        i = i + 1;
    }
    i
}

/// Why a reply cannot be read, or nothing when it can.
pub open spec fn reply_fault(reply: Seq<(Seq<char>, Node)>) -> Option<ValueAccess> {
    match lookup(reply, "catalog"@) {
        None => Some(ValueAccess::NotPresent),
        Some(Node::Text(_)) => match lookup(reply, "matches"@) {
            None => Some(ValueAccess::NotPresent),
            Some(Node::Array(_)) => None,
            Some(_) => Some(ValueAccess::UnexpectedType),
        },
        Some(_) => Some(ValueAccess::UnexpectedType),
    }
}

/// The catalog that a reply speaks of.
pub open spec fn reply_catalog(reply: Seq<(Seq<char>, Node)>) -> Seq<char> {
    lookup(reply, "catalog"@)->0->Text_0
}

/// The rows that a reply brings.
pub open spec fn reply_rows(reply: Seq<(Seq<char>, Node)>) -> Seq<Node> {
    lookup(reply, "matches"@)->0->Array_0
}

impl Crossmatch {
    /// A list for every catalog, so that the output always has the same shape.
    pub fn new(configs: &[CatalogXmatchConfig]) -> (found: Crossmatch)
        ensures
            found.results.lists() == empty_lists(configs@, configs@.len()),
            found.batches == 0,
    {
        let mut results: Named<Vec<Kept>> = Named::new();
        let mut i: usize = 0;
        assert(results.lists() =~= Seq::empty());
        while i < configs.len()
            invariant
                i <= configs@.len(),
                results.lists() == empty_lists(configs@, i as nat),
            decreases configs.len() - i,
        {
            let none: Vec<Kept> = Vec::new();
            results.set_list(configs[i].catalog.as_str(), none);
            i = i + 1;
        }
        Crossmatch { results, batches: 0 }
    }

    /// Takes in the reply for one catalog. The replies of the database name only
    /// catalogs that it was asked for.
    pub fn take(
        &mut self,
        configs: &[CatalogXmatchConfig],
        reply: &Document,
        numbers: &Vec<RowNumbers>,
    ) -> (taken: Result<(), XmatchError>)
        requires
            forall|i: int| 0 <= i < configs@.len() ==> (#[trigger] configs@[i]).valid(),
            reply_fault(reply@) is None ==> {
                &&& catalog_at(configs@, reply_catalog(reply@)) < configs@.len()
                &&& numbers@.len() == reply_rows(reply@).len()
            },
            old(self).batches < usize::MAX,
        ensures
            match taken {
                Ok(_) => {
                    let name = reply_catalog(reply@);
                    let config = configs@[catalog_at(configs@, name)];
                    &&& reply_fault(reply@) is None
                    &&& final(self).batches == old(self).batches + 1
                    &&& final(self).results.lists() == put(
                        old(self).results.lists(),
                        name,
                        listed(old(self).results.lists(), name) + kept_rows(
                            config,
                            reply_rows(reply@),
                            numbers@,
                            old(self).batches,
                        ),
                    )
                },
                Err(error) => {
                    &&& reply_fault(reply@) == Some(error->BsonValueAccess_0)
                    &&& *final(self) == *old(self)
                },
            },
    {
        let name = match reply.get("catalog") {
            Some(value) => match value {
                Bson::Text(name) => name,
                _ => {
                    return Err(XmatchError::BsonValueAccess(ValueAccess::UnexpectedType));
                },
            },
            None => {
                return Err(XmatchError::BsonValueAccess(ValueAccess::NotPresent));
            },
        };
        let rows = match reply.get("matches") {
            Some(value) => match value {
                Bson::Array(rows) => {
                    assert(value@->Array_0 =~= nodes(rows@));
                    rows
                },
                _ => {
                    return Err(XmatchError::BsonValueAccess(ValueAccess::UnexpectedType));
                },
            },
            None => {
                return Err(XmatchError::BsonValueAccess(ValueAccess::NotPresent));
            },
        };
        let at: usize = find_catalog(configs, name.as_str());
        let kept = match_rows(&configs[at], rows, numbers, self.batches);
        self.results.extend(name.as_str(), kept);
        self.batches = self.batches + 1;
        Ok(())
    }

    /// Sets the matches of watchlists apart. They are kept out of the result, and
    /// recorded on the watchlist documents instead.
    pub fn finish(&self, prefix: &str, survey: Survey, object_id: &str) -> (split: (
        Named<Vec<Kept>>,
        Vec<WatchlistUpdate>,
    ))
        ensures
            split.0.lists() == without_watchlists(self.results.lists(), prefix@),
            updates_view(split.1@) == watchlist_updates(
                self.results.lists(),
                prefix@,
                survey,
                object_id@,
            ),
    {
        let mut kept: Named<Vec<Kept>> = Named::new();
        let mut updates: Vec<WatchlistUpdate> = Vec::new();
        let mut i: usize = 0;
        let ghost lists = self.results.lists();
        assert(lists.take(0) =~= Seq::empty());
        assert(kept.lists() =~= Seq::empty());
        assert(updates_view(updates@) =~= Seq::empty());
        while i < self.results.entries.len()
            invariant
                i <= self.results.entries@.len(),
                lists == self.results.lists(),
                kept.lists() == without_watchlists(lists.take(i as int), prefix@),
                updates_view(updates@) == watchlist_updates(
                    lists.take(i as int),
                    prefix@,
                    survey,
                    object_id@,
                ),
            decreases self.results.entries.len() - i,
        {
            let name = &self.results.entries[i].0;
            let matches = &self.results.entries[i].1;
            assert(lists.take(i + 1).drop_last() =~= lists.take(i as int));
            assert(lists[i as int] == (name@, matches@));
            if starts_with(name.as_str(), prefix) {
                let rows = rows_with_id(matches);
                if rows.len() > 0 {
                    let field = watchlist_match_field(&survey);
                    let update = one(
                        "$addToSet",
                        Bson::Document(one(field.as_str(), Bson::text(object_id))),
                    );
                    let ghost before = updates@;
                    updates.push(WatchlistUpdate { catalog: name.clone(), rows, update });
                    assert(updates_view(updates@) =~= updates_view(before).push(
                        updates@.last().view(),
                    ));
                }
            } else {
                let list = copy_kept(matches);
                kept.push_list(name.as_str(), list);
            }
            i = i + 1;
        }
        assert(lists.take(i as int) =~= lists);
        (kept, updates)
    }
}

pub(crate) fn copy_kept(items: &Vec<Kept>) -> (copy: Vec<Kept>)
    ensures
        copy@ == items@,
{
    let mut copy: Vec<Kept> = Vec::new();
    let mut i: usize = 0;
    while i < items.len()
        invariant
            i <= items@.len(),
            copy@ == items@.take(i as int),
        decreases items.len() - i,
    {
        copy.push(items[i]);
        i = i + 1;
        assert(copy@ =~= items@.take(i as int));
    }
    assert(items@.take(i as int) =~= items@);
    copy
}

/// The matches that have an identifier.
pub open spec fn identified(items: Seq<Kept>) -> Seq<Kept> {
    items.filter(|item: Kept| item.has_id)
}

fn rows_with_id(items: &Vec<Kept>) -> (rows: Vec<Kept>)
    ensures
        rows@ == identified(items@),
{
    let mut rows: Vec<Kept> = Vec::new();
    let mut i: usize = 0;
    reveal(Seq::filter);
    assert(items@.take(0) =~= Seq::empty());
    while i < items.len()
        invariant
            i <= items@.len(),
            rows@ == identified(items@.take(i as int)),
        decreases items.len() - i,
    {
        assert(items@.take(i + 1).drop_last() =~= items@.take(i as int));
        reveal(Seq::filter);
        if items[i].has_id {
            rows.push(items[i]);
        }
        i = i + 1;
    }
    assert(items@.take(i as int) =~= items@);
    rows
}

/// An update of the documents of a watchlist: those of the listed matches.
#[derive(Debug)]
pub struct WatchlistUpdate {
    pub catalog: String,
    pub rows: Vec<Kept>,
    pub update: Document,
}

/// What an update does.
#[verifier::ext_equal]
pub struct UpdateView {
    pub catalog: Seq<char>,
    pub rows: Seq<Kept>,
    pub update: Seq<(Seq<char>, Node)>,
}

impl WatchlistUpdate {
    pub open spec fn view(&self) -> UpdateView {
        UpdateView { catalog: self.catalog@, rows: self.rows@, update: self.update@ }
    }
}

pub open spec fn updates_view(updates: Seq<WatchlistUpdate>) -> Seq<UpdateView> {
    updates.map_values(|update: WatchlistUpdate| update@)
}

/// The lists of the catalogs that are not watchlists.
pub open spec fn without_watchlists(
    lists: Seq<(Seq<char>, Seq<Kept>)>,
    prefix: Seq<char>,
) -> Seq<(Seq<char>, Seq<Kept>)>
    decreases lists.len(),
{
    if lists.len() == 0 {
        Seq::empty()
    } else {
        let before = without_watchlists(lists.drop_last(), prefix);
        if has_prefix(lists.last().0, prefix) {
            before
        } else {
            before.push(lists.last())
        }
    }
}

/// The updates of the watchlists in which something was found: the object is added
/// to what the survey's field of each matched document holds.
pub open spec fn watchlist_updates(
    lists: Seq<(Seq<char>, Seq<Kept>)>,
    prefix: Seq<char>,
    survey: Survey,
    object_id: Seq<char>,
) -> Seq<UpdateView>
    decreases lists.len(),
{
    if lists.len() == 0 {
        Seq::empty()
    } else {
        let before = watchlist_updates(lists.drop_last(), prefix, survey, object_id);
        let (name, items) = lists.last();
        if has_prefix(name, prefix) && identified(items).len() > 0 {
            before.push(
                UpdateView {
                    catalog: name,
                    rows: identified(items),
                    update: only(
                        "$addToSet"@,
                        Node::Document(only(match_field(survey), Node::Text(object_id))),
                    ),
                },
            )
        } else {
            before
        }
    }
}

/// No watchlist leaks into the result.
pub proof fn no_watchlist_is_in_the_result(
    lists: Seq<(Seq<char>, Seq<Kept>)>,
    prefix: Seq<char>,
    i: int,
)
    requires
        0 <= i < without_watchlists(lists, prefix).len(),
    ensures
        !has_prefix(without_watchlists(lists, prefix)[i].0, prefix),
    decreases lists.len(),
{
    let before = without_watchlists(lists.drop_last(), prefix);
    if i < before.len() {
        no_watchlist_is_in_the_result(lists.drop_last(), prefix, i);
    }
}

/// Matches come by rank: a coincident source first, then nearby galaxies, then
/// what is ordered by projected distance, then stars. Within the rank that has
/// projected distances the nearest in kpc comes first, and among equals the one of
/// the smallest angular separation.
pub proof fn hosts_are_ordered(
    docs: Seq<Document>,
    type_key: Option<String>,
    stellar: Seq<String>,
    rows: Seq<usize>,
    i: int,
    j: int,
)
    requires
        is_ranking(keys_of(docs, type_key, stellar), rows),
        0 <= i < j < rows.len(),
    ensures
        ({
            let a = sort_key(docs[rows[i] as int]@, type_key, stellar);
            let b = sort_key(docs[rows[j] as int]@, type_key, stellar);
            &&& a.0 <= b.0
            &&& a.0 == b.0 ==> a.1.at_most(b.1)
            &&& a.0 == b.0 && a.1.equals(b.1) ==> a.2.at_most(b.2)
        }),
{
    let keys = keys_of(docs, type_key, stellar);
    let first = rows[i];
    let second = rows[j];
    assert(precedes(keys, first as int, second as int));
    assert(keys[first as int] == place_key(docs[first as int]@, type_key, stellar));
    assert(keys[second as int] == place_key(docs[second as int]@, type_key, stellar));
    lemma_keys_are_numbers(docs[first as int]@, type_key, stellar);
    lemma_keys_are_numbers(docs[second as int]@, type_key, stellar);
}

proof fn lemma_keys_are_numbers(
    fields: Seq<(Seq<char>, Node)>,
    type_key: Option<String>,
    stellar: Seq<String>,
)
    ensures
        !sort_key(fields, type_key, stellar).1.is_nan_spec(),
        !sort_key(fields, type_key, stellar).2.is_nan_spec(),
        sort_key(fields, type_key, stellar).1.position() as i64 == sort_key(
            fields,
            type_key,
            stellar,
        ).1.position(),
        sort_key(fields, type_key, stellar).2.position() as i64 == sort_key(
            fields,
            type_key,
            stellar,
        ).2.position(),
{
}

/// A star that is not coincident never comes before a source that is no star.
pub proof fn a_distant_star_outranks_no_galaxy(
    star: Seq<(Seq<char>, Node)>,
    galaxy: Seq<(Seq<char>, Node)>,
    type_key: Option<String>,
    stellar: Seq<String>,
)
    requires
        stellar_row(star, type_key, stellar),
        !stellar_row(galaxy, type_key, stellar),
        !finite_or_infinite(star, "distance_arcsec"@).less(Double { bits: COINCIDENT_ARCSEC }),
    ensures
        key_less(place_key(galaxy, type_key, stellar), place_key(star, type_key, stellar)),
{
}

}
