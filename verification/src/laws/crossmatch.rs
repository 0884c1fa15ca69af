//! Which catalog rows are fetched and kept for an alert.
use vstd::prelude::*;

use crate::api::alerts::cone_node;
use crate::binary::Double;
use crate::conf::CatalogXmatchConfig;
use crate::document::{only, Bson, Document, Node};
use crate::laws::alerts::lemma_only;
use crate::named::{
    lookup, Named, put, setting_a_name_leaves_the_others, what_was_set_is_read_back,
};
use crate::order::{a_ranking_exists, precedes, ranked};
use crate::text::{same_folded, trimmed};
use crate::utils::enums::Survey;
use crate::utils::spatial::{
    accepted, accepted_rows, catalog_stages, cm_radius_arcsec, cone_match_stage,
    distance_kpc_from_arcsec, finite_of, get_f64_from_doc, get_opt_f64_from_doc, host_order,
    host_rank, host_sort_key, in_cone, keys_of, kept_row, kpc_of, marked, match_radius, match_rows,
    match_stage, nodes, number_of, identified, placed, redshift_of, reply_fault, row_key,
    row_match_radius_arcsec, row_redshift, row_size, size_of_row, sort_key, stellar_row,
    union_stage, updates_view, watchlist_updates, without_watchlists, xmatch, xmatch_stages,
    Aggregation, Crossmatch, Kept, RowNumbers, UpdateView, ValueAccess, WatchlistUpdate,
};

verus! {

/// Whether a row meets a condition on the field `name`. `number` gives the number that the
/// row holds in a field, and `within` tells whether the row lies within an angle of a point.
pub open spec fn meets(
    name: Seq<char>,
    condition: (Seq<char>, Node),
    number: spec_fn(Seq<char>) -> Option<Double>,
    within: spec_fn(Double, Double, Double) -> bool,
) -> bool {
    ||| condition.0 == "$gt"@ && (condition.1 matches Node::Double(bound) && (number(
        name,
    ) matches Some(x) && bound.less(x)))
    ||| condition.0 == "$gte"@ && (condition.1 matches Node::Double(bound) && (number(
        name,
    ) matches Some(x) && bound.at_most(x)))
    ||| condition.0 == "$lt"@ && (condition.1 matches Node::Double(bound) && (number(
        name,
    ) matches Some(x) && x.less(bound)))
    ||| condition.0 == "$lte"@ && (condition.1 matches Node::Double(bound) && (number(
        name,
    ) matches Some(x) && x.at_most(bound)))
    ||| name == "coordinates.radec_geojson"@ && condition.0 == "$geoWithin"@ && (
    condition.1 matches Node::Document(shape) && shape.len() == 1 && shape[0].0
        == "$centerSphere"@ && (shape[0].1 matches Node::Array(cap) && cap.len() == 2 && (
    cap[0] matches Node::Array(center) && center.len() == 2 && (
    center[0] matches Node::Double(longitude) && (center[1] matches Node::Double(latitude) && (
    cap[1] matches Node::Double(angle) && within(longitude, latitude, angle)))))))
}

/// Whether a filter lets a row through: the row meets all its conditions.
pub open spec fn lets_through(
    filter: Node,
    number: spec_fn(Seq<char>) -> Option<Double>,
    within: spec_fn(Double, Double, Double) -> bool,
) -> bool
    decreases filter,
{
    filter matches Node::Document(fields) && forall|i: int|
        0 <= i < fields.len() ==> holds((#[trigger] fields[i]).0, fields[i].1, number, within)
}

/// Whether a row meets one field of a filter: `$or` asks for one of some filters, `$and` for
/// all of them, and every other name for conditions on the field of that name.
pub open spec fn holds(
    name: Seq<char>,
    value: Node,
    number: spec_fn(Seq<char>) -> Option<Double>,
    within: spec_fn(Double, Double, Double) -> bool,
) -> bool
    decreases value,
{
    if name == "$or"@ {
        value matches Node::Array(choices) && exists|k: int|
            0 <= k < choices.len() && lets_through(#[trigger] choices[k], number, within)
    } else if name == "$and"@ {
        value matches Node::Array(parts) && forall|k: int|
            0 <= k < parts.len() ==> lets_through(#[trigger] parts[k], number, within)
    } else {
        value matches Node::Document(conditions) && forall|k: int|
            0 <= k < conditions.len() ==> meets(name, #[trigger] conditions[k], number, within)
    }
}

proof fn lemma_one_field(
    name: Seq<char>,
    value: Node,
    number: spec_fn(Seq<char>) -> Option<Double>,
    within: spec_fn(Double, Double, Double) -> bool,
)
    ensures
        lets_through(Node::Document(only(name, value)), number, within) == holds(
            name,
            value,
            number,
            within,
        ),
{
    lemma_only(name, value);
    let fields = only(name, value);
    assert(fields[0] == (name, value));
    if holds(name, value, number, within) {
        assert forall|i: int| 0 <= i < fields.len() implies holds(
            (#[trigger] fields[i]).0,
            fields[i].1,
            number,
            within,
        ) by {
            assert(i == 0);
        }
        assert(lets_through(Node::Document(fields), number, within));
    }
    let filter = Node::Document(fields);
    if lets_through(filter, number, within) {
        assert(filter->Document_0[0] == (name, value));
        assert(holds(filter->Document_0[0].0, filter->Document_0[0].1, number, within));
    }
}

proof fn lemma_one_condition(
    name: Seq<char>,
    conditions: Seq<(Seq<char>, Node)>,
    number: spec_fn(Seq<char>) -> Option<Double>,
    within: spec_fn(Double, Double, Double) -> bool,
)
    requires
        name != "$or"@,
        name != "$and"@,
        conditions.len() == 1,
    ensures
        holds(name, Node::Document(conditions), number, within) == meets(
            name,
            conditions[0],
            number,
            within,
        ),
{
    let value = Node::Document(conditions);
    if meets(name, conditions[0], number, within) {
        assert forall|k: int| 0 <= k < conditions.len() implies meets(
            name,
            #[trigger] conditions[k],
            number,
            within,
        ) by {
            assert(k == 0);
        }
        assert(holds(name, value, number, within));
    }
    if holds(name, value, number, within) {
        assert(meets(name, value->Document_0[0], number, within));
    }
}

proof fn lemma_operators()
    ensures
        "$or"@ != "$and"@,
        "$gt"@ != "$or"@ && "$gt"@ != "$and"@,
        "$gt"@ != "$gte"@ && "$gt"@ != "$lt"@ && "$gt"@ != "$lte"@,
        "$gt"@ != "$geoWithin"@,
        "$geoWithin"@ != "$gte"@ && "$geoWithin"@ != "$lt"@ && "$geoWithin"@ != "$lte"@,
        "coordinates.radec_geojson"@ != "$or"@ && "coordinates.radec_geojson"@ != "$and"@,
        "$or"@[0] == '$' && "$and"@[0] == '$',
        "$or"@.len() == 3 && "$and"@.len() == 4,
{
    reveal_strlit("$or");
    reveal_strlit("$and");
    reveal_strlit("$gt");
    reveal_strlit("$gte");
    reveal_strlit("$lt");
    reveal_strlit("$lte");
    reveal_strlit("$geoWithin");
    reveal_strlit("coordinates.radec_geojson");
    assert("$gt"@[1] == 'g' && "$or"@[1] == 'o' && "$lt"@[1] == 'l');
    assert("$gt"@.len() == 3 && "$gte"@.len() == 4 && "$lt"@.len() == 3 && "$lte"@.len() == 4);
    assert("$geoWithin"@.len() == 10 && "coordinates.radec_geojson"@.len() == 25);
}

proof fn lemma_cone_lets_through(
    longitude: Double,
    latitude: Double,
    angle: Double,
    number: spec_fn(Seq<char>) -> Option<Double>,
    within: spec_fn(Double, Double, Double) -> bool,
)
    ensures
        lets_through(Node::Document(in_cone(longitude, latitude, angle)), number, within)
            == within(longitude, latitude, angle),
{
    lemma_operators();
    let name = "coordinates.radec_geojson"@;
    let center = Node::Array(seq![Node::Double(longitude), Node::Double(latitude)]);
    let cap = Node::Array(seq![center, Node::Double(angle)]);
    let sphere = only("$centerSphere"@, cap);
    let shape = only("$geoWithin"@, Node::Document(sphere));
    lemma_only("$centerSphere"@, cap);
    lemma_only("$geoWithin"@, Node::Document(sphere));
    lemma_one_field(name, cone_node(longitude, latitude, angle), number, within);
    assert(cone_node(longitude, latitude, angle) == Node::Document(shape));
    assert(shape[0] == ("$geoWithin"@, Node::Document(sphere)));
    assert(meets(name, shape[0], number, within) == within(longitude, latitude, angle));
    lemma_one_condition(name, shape, number, within);
}

proof fn lemma_large_lets_through(
    key: Seq<char>,
    bound: Double,
    number: spec_fn(Seq<char>) -> Option<Double>,
    within: spec_fn(Double, Double, Double) -> bool,
)
    requires
        key.len() == 0 || key[0] != '$',
    ensures
        lets_through(
            Node::Document(only(key, Node::Document(only("$gt"@, Node::Double(bound))))),
            number,
            within,
        ) == (number(key) matches Some(x) && bound.less(x)),
{
    lemma_operators();
    let condition = only("$gt"@, Node::Double(bound));
    lemma_only("$gt"@, Node::Double(bound));
    lemma_one_field(key, Node::Document(condition), number, within);
    assert(condition[0] == ("$gt"@, Node::Double(bound)));
    assert(meets(key, condition[0], number, within) == (number(key) matches Some(x) && bound.less(
        x,
    )));
    lemma_one_condition(key, condition, number, within);
}

/// The rows that are fetched from a catalog are those in its cone and, where the catalog
/// tells sizes and has a wider cone, those in the wider one whose size exceeds the
/// threshold.
pub proof fn which_rows_are_fetched(
    config: CatalogXmatchConfig,
    longitude: Double,
    latitude: Double,
    stage: Document,
    number: spec_fn(Seq<char>) -> Option<Double>,
    within: spec_fn(Double, Double, Double) -> bool,
)
    requires
        call_ensures(cone_match_stage, (&config, longitude, latitude), stage),
        config.angular_size_key matches Some(key) ==> key@.len() == 0 || key@[0] != '$',
    ensures
        stage@.len() == 1,
        stage@[0].0 == "$match"@,
        lets_through(stage@[0].1, number, within) <==> {
            ||| within(longitude, latitude, config.radius)
            ||| config.angular_size_key matches Some(key) && (
            config.angular_size_radius_max matches Some(wide) && (number(key@) matches Some(size)
                && config.radii.size_threshold.less(size) && within(longitude, latitude, wide)))
        },
{
    lemma_operators();
    let near = Node::Document(in_cone(longitude, latitude, config.radius));
    lemma_cone_lets_through(longitude, latitude, config.radius, number, within);
    match (config.angular_size_key, config.angular_size_radius_max) {
        (Some(key), Some(radius)) => {
            let bound = config.radii.size_threshold;
            let large = Node::Document(
                only(key@, Node::Document(only("$gt"@, Node::Double(bound)))),
            );
            let wide = Node::Document(in_cone(longitude, latitude, radius));
            lemma_large_lets_through(key@, bound, number, within);
            lemma_cone_lets_through(longitude, latitude, radius, number, within);
            let parts = seq![large, wide];
            let both = only("$and"@, Node::Array(parts));
            lemma_one_field("$and"@, Node::Array(parts), number, within);
            assert(parts[0] == large && parts[1] == wide);
            if lets_through(parts[0], number, within) && lets_through(parts[1], number, within) {
                assert forall|k: int| 0 <= k < parts.len() implies lets_through(
                    #[trigger] parts[k],
                    number,
                    within,
                ) by {
                    assert(k == 0 || k == 1);
                }
                assert(holds("$and"@, Node::Array(parts), number, within));
            }
            assert(lets_through(Node::Document(both), number, within) == (lets_through(
                parts[0],
                number,
                within,
            ) && lets_through(parts[1], number, within)));
            let choices = seq![near, Node::Document(both)];
            let either = only("$or"@, Node::Array(choices));
            lemma_one_field("$or"@, Node::Array(choices), number, within);
            assert(choices[0] == near && choices[1] == Node::Document(both));
            assert(lets_through(Node::Document(either), number, within) == (lets_through(
                choices[0],
                number,
                within,
            ) || lets_through(choices[1], number, within)));
            lemma_only("$match"@, Node::Document(either));
            assert(stage@[0] == ("$match"@, Node::Document(either)));
        },
        _ => {
            lemma_only("$match"@, near);
            assert(stage@[0] == ("$match"@, near));
        },
    }
}

/// Whether some stages ask one catalog for its rows in reach: those that the match stage lets
/// through, with the configured fields, as one list, under the name of the catalog.
pub open spec fn asks_catalog(
    stages: Seq<Node>,
    config: CatalogXmatchConfig,
    longitude: Double,
    latitude: Double,
) -> bool {
    &&& stages.len() == 4
    &&& stages[0] == Node::Document(match_stage(config, longitude, latitude))
    &&& stages[1] == Node::Document(seq![("$project"@, Node::Document(config.projection@))])
    &&& stages[2] == Node::Document(
        seq![
            (
                "$group"@,
                Node::Document(
                    seq![
                        ("_id"@, Node::Null),
                        (
                            "matches"@,
                            Node::Document(seq![("$push"@, Node::Text("$$ROOT"@))]),
                        ),
                    ],
                ),
            ),
        ],
    )
    &&& stages[3] == Node::Document(
        seq![
            (
                "$project"@,
                Node::Document(
                    seq![
                        ("_id"@, Node::Int32(0)),
                        ("matches"@, Node::Int32(1)),
                        ("catalog"@, Node::Text(config.catalog@)),
                    ],
                ),
            ),
        ],
    )
}

proof fn lemma_second(first: Seq<char>, a: Node, second: Seq<char>, b: Node)
    requires
        first != second,
    ensures
        put(only(first, a), second, b) == seq![(first, a), (second, b)],
{
    lemma_only(first, a);
    let entries = only(first, a);
    assert(lookup(entries, second) is None);
    assert(put(entries, second, b) =~= seq![(first, a), (second, b)]);
}

proof fn lemma_catalog_stages(config: CatalogXmatchConfig, longitude: Double, latitude: Double)
    ensures
        asks_catalog(
            catalog_stages(config, longitude, latitude),
            config,
            longitude,
            latitude,
        ),
{
    reveal_strlit("_id");
    reveal_strlit("matches");
    reveal_strlit("catalog");
    assert("_id"@.len() == 3 && "matches"@.len() == 7 && "catalog"@.len() == 7);
    assert("matches"@[0] == 'm' && "catalog"@[0] == 'c');
    lemma_only("$project"@, Node::Document(config.projection@));
    lemma_only("$push"@, Node::Text("$$ROOT"@));
    let push = Node::Document(only("$push"@, Node::Text("$$ROOT"@)));
    lemma_second("_id"@, Node::Null, "matches"@, push);
    let gathered = put(only("_id"@, Node::Null), "matches"@, push);
    lemma_only("$group"@, Node::Document(gathered));
    lemma_only("_id"@, Node::Int32(0));
    let two = put(only("_id"@, Node::Int32(0)), "matches"@, Node::Int32(1));
    lemma_second("_id"@, Node::Int32(0), "matches"@, Node::Int32(1));
    setting_a_name_leaves_the_others(
        only("_id"@, Node::Int32(0)),
        "matches"@,
        Node::Int32(1),
        "catalog"@,
    );
    assert(lookup(two, "catalog"@) is None);
    let named = put(two, "catalog"@, Node::Text(config.catalog@));
    assert(named =~= seq![
        ("_id"@, Node::Int32(0)),
        ("matches"@, Node::Int32(1)),
        ("catalog"@, Node::Text(config.catalog@)),
    ]);
    lemma_only("$project"@, Node::Document(named));
}

/// A crossmatch asks every catalog for its rows in reach: the first one where the query
/// runs, and each other one by a union, in the order in which they are configured.
pub proof fn what_is_asked_of_the_catalogs(
    configs: &[CatalogXmatchConfig],
    longitude: Double,
    latitude: Double,
    plan: Option<Aggregation>,
)
    requires
        call_ensures(xmatch, (configs, longitude, latitude), plan),
    ensures
        plan is None <==> configs@.len() == 0,
        plan matches Some(plan) ==> {
            &&& plan.collection@ == configs@[0].collection_name@
            &&& plan.pipeline@ matches Node::Array(stages) && stages.len() == configs@.len() + 3
                && asks_catalog(stages.take(4), configs@[0], longitude, latitude) && forall|k: int|
                1 <= k < configs@.len() ==> ((#[trigger] stages[k + 3]) matches Node::Document(
                    union,
                ) && union.len() == 1 && union[0].0 == "$unionWith"@ && (
                union[0].1 matches Node::Document(inner) && inner.len() == 2 && inner[0] == (
                    "coll"@,
                    Node::Text(configs@[k].collection_name@),
                ) && inner[1].0 == "pipeline"@ && (inner[1].1 matches Node::Array(asked)
                    && asks_catalog(asked, configs@[k], longitude, latitude))))
        },
{
    if let Some(plan) = plan {
        let stages = xmatch_stages(configs@, longitude, latitude);
        let first = catalog_stages(configs@[0], longitude, latitude);
        lemma_catalog_stages(configs@[0], longitude, latitude);
        assert(stages.take(4) =~= first);
        reveal_strlit("coll");
        reveal_strlit("pipeline");
        assert("coll"@.len() == 4 && "pipeline"@.len() == 8);
        assert forall|k: int| 1 <= k < configs@.len() implies ((
        #[trigger] stages[k + 3]) matches Node::Document(union) && union.len() == 1
            && union[0].0 == "$unionWith"@ && (union[0].1 matches Node::Document(inner)
            && inner.len() == 2 && inner[0] == (
            "coll"@,
            Node::Text(configs@[k].collection_name@),
        ) && inner[1].0 == "pipeline"@ && (inner[1].1 matches Node::Array(asked) && asks_catalog(
            asked,
            configs@[k],
            longitude,
            latitude,
        )))) by {
            let config = configs@[k];
            assert(stages[k + 3] == union_stage(config, longitude, latitude));
            lemma_catalog_stages(config, longitude, latitude);
            let asked = Node::Array(catalog_stages(config, longitude, latitude));
            lemma_second("coll"@, Node::Text(config.collection_name@), "pipeline"@, asked);
            lemma_only(
                "$unionWith"@,
                Node::Document(
                    put(only("coll"@, Node::Text(config.collection_name@)), "pipeline"@, asked),
                ),
            );
        }
    }
}

/// A number is read from a field whatever kind of number it holds, where it is finite.
pub proof fn which_numbers_are_read(doc: Document, key: &str, number: Option<Double>)
    requires
        call_ensures(get_opt_f64_from_doc, (&doc, key), number),
    ensures
        match lookup(doc@, key@) {
            Some(Node::Double(x)) => number == if x.is_finite_spec() {
                Some(x)
            } else {
                None
            },
            Some(Node::Int32(n)) => number matches Some(x) ==> x == Double::of_integer(n as int),
            Some(Node::Int64(n)) => number matches Some(x) ==> x == Double::of_integer(n as int),
            _ => number is None,
        },
        number matches Some(x) ==> x.is_finite_spec(),
{
}

/// A row has a redshift when its catalog names a field for it and that field holds a finite
/// number. It is never negative: a negative one is folded to 0.
pub proof fn redshifts_are_not_negative(
    config: CatalogXmatchConfig,
    doc: Document,
    z: Option<Double>,
)
    requires
        call_ensures(row_redshift, (&config, &doc), z),
    ensures
        z is Some <==> (config.distance_key matches Some(key) && finite_of(doc@, key@) is Some),
        z matches Some(z) ==> (Double { bits: 0 }).at_most(z) && {
            let held = finite_of(doc@, config.distance_key->0@)->0;
            &&& (Double { bits: 0 }).at_most(held) ==> z == held
            &&& held.less(Double { bits: 0 }) ==> z.bits == 0
        },
{
}

/// Below a redshift of 0.005 the radius by distance is fixed and there is no projected
/// distance, which -1 stands for; from there on both are what was computed.
pub proof fn nearby_rows_have_no_projected_distance(
    z: Double,
    scaled_radius: Double,
    near: Double,
    scaled_distance: Double,
    radius: Double,
    kpc: Double,
)
    requires
        call_ensures(cm_radius_arcsec, (z, scaled_radius, near), radius),
        call_ensures(distance_kpc_from_arcsec, (z, scaled_distance), kpc),
        !z.is_nan_spec(),
    ensures
        z.less(Double { bits: 0x3F74_7AE1_47AE_147B }) ==> radius == near && kpc.bits
            == 0xBFF0_0000_0000_0000,
        (Double { bits: 0x3F74_7AE1_47AE_147B }).at_most(z) ==> radius == scaled_radius && kpc
            == scaled_distance,
{
}

/// Whether `radius` is what a row's size gives: what was computed of the size, but at least
/// the smallest and at most the largest radius, and the smallest for a row whose size cannot
/// be used.
pub open spec fn is_radius_by_size(
    config: CatalogXmatchConfig,
    size: Option<Double>,
    scaled: Double,
    radius: Double,
) -> bool {
    let small = config.radii.size_min;
    let large = if config.angular_size_radius_max is Some {
        config.radii.size_max
    } else {
        config.radii.base
    };
    match size {
        Some(size) => if size.is_finite_spec() && (Double { bits: 0 }).less(size) {
            &&& radius == small || radius == large || radius == scaled
            &&& small.at_most(scaled) && scaled.at_most(large) ==> radius.equals(scaled)
            &&& scaled.less(small) && small.at_most(large) ==> radius.equals(small)
            &&& small.at_most(large) && large.less(scaled) ==> radius.equals(large)
        } else {
            radius == small
        },
        None => radius == small,
    }
}

/// Whether `radius` is what a row's redshift gives: the radius at that redshift, but not more
/// than the cone that the database was asked for.
pub open spec fn is_radius_by_distance(
    config: CatalogXmatchConfig,
    z: Option<Double>,
    scaled: Double,
    radius: Double,
) -> bool {
    let cone = config.radii.base;
    let near = config.distance_max_near->0;
    match z {
        None => radius.bits == 0,
        Some(z) => {
            let own = if z.less(Double { bits: 0x3F74_7AE1_47AE_147B }) {
                near
            } else {
                scaled
            };
            &&& own.at_most(cone) ==> radius.equals(own)
            &&& cone.less(own) ==> radius == cone
            &&& own.is_nan_spec() ==> radius == cone
        },
    }
}

/// The match radius of a row: the cone where the catalog has no rule, what the size or the
/// distance gives where it has one rule, and the wider of the two where it has both.
pub proof fn the_wider_rule_decides(
    config: CatalogXmatchConfig,
    doc: Document,
    numbers: RowNumbers,
    radius: Double,
    sized: Double,
    distant: Double,
)
    requires
        call_ensures(row_match_radius_arcsec, (&config, &doc, numbers), radius),
        config.valid(),
        is_radius_by_size(config, size_of_row(config, doc@), numbers.scaled_size, sized),
        is_radius_by_distance(config, redshift_of(config, doc@), numbers.scaled_radius, distant),
        !config.radii.base.is_nan_spec(),
        !config.radii.size_min.is_nan_spec() && !config.radii.size_max.is_nan_spec(),
        !numbers.scaled_size.is_nan_spec() && !numbers.scaled_radius.is_nan_spec(),
        !config.distance_max_near->0.is_nan_spec(),
        (Double { bits: 0 }).at_most(config.radii.base),
        (Double { bits: 0 }).at_most(config.radii.size_min),
        config.radii.size_min.at_most(config.radii.size_max),
        config.radii.size_min.at_most(config.radii.base),
        (Double { bits: 0 }).at_most(numbers.scaled_radius),
        (Double { bits: 0 }).at_most(config.distance_max_near->0),
    ensures
        config.angular_size_key is None && !config.use_distance ==> radius == config.radii.base,
        config.angular_size_key is Some && !config.use_distance ==> radius.equals(sized),
        config.angular_size_key is None && config.use_distance ==> radius.equals(distant),
        config.angular_size_key is Some && config.use_distance ==> {
            &&& sized.at_most(radius) && distant.at_most(radius)
            &&& radius.equals(sized) || radius.equals(distant)
        },
{
}

/// A row has a size when its catalog names a field for it and that field holds a finite
/// number.
pub proof fn which_sizes_are_read(config: CatalogXmatchConfig, doc: Document, size: Option<Double>)
    requires
        call_ensures(row_size, (&config, &doc), size),
    ensures
        config.angular_size_key is None ==> size is None,
        config.angular_size_key matches Some(key) ==> {
            &&& size matches Some(x) ==> x.is_finite_spec()
            &&& lookup(doc@, key@) matches Some(Node::Double(x)) ==> (size == if x.is_finite_spec() {
                Some(x)
            } else {
                None
            })
            &&& lookup(doc@, key@) is None ==> size is None
        },
{
}

/// Whether a row can be kept: it has a position, and is not farther from the alert than its
/// match radius.
pub open spec fn is_match(config: CatalogXmatchConfig, row: Node, numbers: RowNumbers) -> bool {
    row matches Node::Document(fields) && finite_of(fields, "ra"@) is Some && finite_of(
        fields,
        "dec"@,
    ) is Some && !match_radius(config, fields, numbers).less(numbers.distance_arcsec)
}

/// Whether the type that a catalog gives a row is one of its stellar types.
pub open spec fn is_star(config: CatalogXmatchConfig, row: Node) -> bool {
    config.type_key matches Some(key) && (row matches Node::Document(fields) && (lookup(
        fields,
        key@,
    ) matches Some(Node::Text(kind)) && exists|i: int|
        0 <= i < config.stellar_types@.len() && same_folded(
            #[trigger] config.stellar_types@[i]@,
            trimmed(kind),
        )))
}

/// The group in which a match is listed: 0 for one within an arcsecond of the alert, 3 for
/// any other star, 1 for a galaxy without a projected distance, and 2 for the rest.
pub open spec fn group_of(kept: Kept, star: bool) -> int {
    if kept.distance_arcsec.less(Double { bits: 0x3FF0_0000_0000_0000 })
        && kept.distance_arcsec.is_finite_spec() {
        0
    } else if star {
        3
    } else if kept.distance_kpc matches Some(kpc) && kpc.equals(
        Double { bits: 0xBFF0_0000_0000_0000 },
    ) {
        1
    } else {
        2
    }
}

proof fn lemma_accepted(
    config: CatalogXmatchConfig,
    rows: Seq<Node>,
    numbers: Seq<RowNumbers>,
    n: nat,
)
    requires
        n <= rows.len() <= usize::MAX,
    ensures
        ({
            let picked = accepted_rows(config, rows, numbers, n);
            &&& picked.len() <= n
            &&& forall|k: int|
                0 <= k < picked.len() ==> (#[trigger] picked[k]) < n && accepted(
                    config,
                    rows[picked[k] as int],
                    numbers[picked[k] as int],
                )
            &&& forall|k: int, m: int|
                0 <= k < m < picked.len() ==> #[trigger] picked[k] < #[trigger] picked[m]
            &&& forall|i: int|
                0 <= i < n && #[trigger] accepted(config, rows[i], numbers[i]) ==> picked.contains(
                    i as usize,
                )
        }),
    decreases n,
{
    if n > 0 {
        let before = accepted_rows(config, rows, numbers, (n - 1) as nat);
        lemma_accepted(config, rows, numbers, (n - 1) as nat);
        let picked = accepted_rows(config, rows, numbers, n);
        assert forall|i: int|
            0 <= i < n && #[trigger] accepted(
                config,
                rows[i],
                numbers[i],
            ) implies picked.contains(i as usize) by {
            if i < n - 1 {
                let k = choose|k: int| 0 <= k < before.len() && before[k] == i as usize;
                assert(picked[k] == i as usize);
            } else {
                assert(picked[before.len() as int] == i as usize);
            }
        }
    }
}

/// Every row that matches is kept once, unless the catalog has a limit that is reached, and
/// no other row is. Each is kept with its distance, and with its projected one where it has
/// a redshift.
pub proof fn which_rows_are_kept(
    config: CatalogXmatchConfig,
    rows: Vec<Bson>,
    numbers: Vec<RowNumbers>,
    batch: usize,
    kept: Vec<Kept>,
)
    requires
        call_ensures(match_rows, (&config, &rows, &numbers, batch), kept),
        numbers@.len() == rows@.len(),
        rows@.len() <= usize::MAX,
        config.distance_key matches Some(key) ==> key@ != "distance_arcsec"@,
    ensures
        forall|k: int|
            0 <= k < kept@.len() ==> {
                let item = #[trigger] kept@[k];
                &&& item.batch == batch
                &&& item.row < rows@.len()
                &&& is_match(config, rows@[item.row as int]@, numbers@[item.row as int])
                &&& item.distance_arcsec == numbers@[item.row as int].distance_arcsec
                &&& item.has_id <==> lookup(rows@[item.row as int]@->Document_0, "_id"@) is Some
                &&& item.distance_kpc is Some <==> redshift_of(
                    config,
                    rows@[item.row as int]@->Document_0,
                ) is Some
                &&& redshift_of(config, rows@[item.row as int]@->Document_0) matches Some(z) ==> {
                    &&& z.less(Double { bits: 0x3F74_7AE1_47AE_147B }) ==> item.distance_kpc
                        == Some(Double { bits: 0xBFF0_0000_0000_0000 })
                    &&& (Double { bits: 0x3F74_7AE1_47AE_147B }).at_most(z) ==> item.distance_kpc
                        == Some(numbers@[item.row as int].scaled_distance)
                }
            },
        forall|k: int, m: int|
            0 <= k < m < kept@.len() ==> (#[trigger] kept@[k]).row != (#[trigger] kept@[m]).row,
        config.max_results matches Some(max) ==> kept@.len() <= max,
        (config.max_results is None || kept@.len() < config.max_results->0) ==> forall|i: int|
            0 <= i < rows@.len() && #[trigger] is_match(
                config,
                rows@[i]@,
                numbers@[i],
            ) ==> exists|k: int| 0 <= k < kept@.len() && (#[trigger] kept@[k]).row == i,
{
    let values = nodes(rows@);
    let picked = accepted_rows(config, values, numbers@, values.len());
    lemma_accepted(config, values, numbers@, values.len());
    let keys = picked.map_values(|row: usize| row_key(config, values, numbers@, row));
    a_ranking_exists(keys);
    let order = ranked(keys);
    assert forall|k: int| 0 <= k < kept@.len() implies {
        let item = #[trigger] kept@[k];
        &&& item == kept_row(config, values, numbers@, batch, picked[order[k] as int])
        &&& item.row == picked[order[k] as int]
        &&& item.row < rows@.len()
        &&& values[item.row as int] == rows@[item.row as int]@
        &&& kpc_of(
            config,
            values[item.row as int]->Document_0,
            numbers@[item.row as int],
        ) == item.distance_kpc
        &&& redshift_of(
            config,
            placed(values[item.row as int]->Document_0, numbers@[item.row as int]),
        ) == redshift_of(config, values[item.row as int]->Document_0)
    } by {
        let item = kept@[k];
        if let Some(key) = config.distance_key {
            setting_a_name_leaves_the_others(
                values[item.row as int]->Document_0,
                "distance_arcsec"@,
                Node::Double(numbers@[item.row as int].distance_arcsec),
                key@,
            );
        }
    }
    assert forall|k: int, m: int| 0 <= k < m < kept@.len() implies (#[trigger] kept@[k]).row != (
    #[trigger] kept@[m]).row by {
        assert(precedes(keys, order[k] as int, order[m] as int));
    }
    if config.max_results is None || kept@.len() < config.max_results->0 {
        assert(kept@.len() == order.len());
        assert forall|i: int|
            0 <= i < rows@.len() && #[trigger] is_match(
                config,
                rows@[i]@,
                numbers@[i],
            ) implies exists|k: int| 0 <= k < kept@.len() && (#[trigger] kept@[k]).row == i by {
            assert(values[i] == rows@[i]@);
            assert(accepted(config, values[i], numbers@[i]));
            let p = choose|p: int| 0 <= p < picked.len() && picked[p] == i as usize;
            assert(order.contains(p as usize));
            let k = choose|k: int| 0 <= k < order.len() && order[k] == p as usize;
            assert(kept@[k].row == i);
        }
    }
}

/// Whether the first of two matches may be listed before the second: it is in a lower group,
/// or in the same one and not farther. In the group that has projected distances these
/// decide, and the angular one only between equals.
pub open spec fn may_precede(a: Kept, a_star: bool, b: Kept, b_star: bool) -> bool {
    let far = Double { bits: 0x7FF0_0000_0000_0000 };
    let a_kpc = if a.distance_kpc matches Some(x) && x.is_finite_spec() {
        a.distance_kpc->0
    } else {
        far
    };
    let b_kpc = if b.distance_kpc matches Some(x) && x.is_finite_spec() {
        b.distance_kpc->0
    } else {
        far
    };
    let nearer = !a.distance_arcsec.is_finite_spec() || !b.distance_arcsec.is_finite_spec()
        || a.distance_arcsec.at_most(b.distance_arcsec);
    let first = group_of(a, a_star);
    let second = group_of(b, b_star);
    &&& first <= second
    &&& first == second && first == 2 ==> a_kpc.at_most(b_kpc)
    &&& first == second && first == 2 && a_kpc.equals(b_kpc) ==> nearer
    &&& first == second && first != 2 ==> nearer
}

proof fn lemma_key_of_row(
    config: CatalogXmatchConfig,
    fields: Seq<(Seq<char>, Node)>,
    numbers: RowNumbers,
    kept: Kept,
)
    requires
        lookup(fields, "distance_kpc"@) is None,
        config.type_key matches Some(key) ==> key@ != "distance_arcsec"@ && key@
            != "distance_kpc"@,
        kept.distance_arcsec == numbers.distance_arcsec,
        kept.distance_kpc == kpc_of(config, fields, numbers),
    ensures
        ({
            let key = sort_key(
                marked(config, fields, numbers),
                config.type_key,
                config.stellar_types@,
            );
            &&& key.0 == group_of(kept, is_star(config, Node::Document(fields)))
            &&& key.2 == if kept.distance_arcsec.is_finite_spec() {
                kept.distance_arcsec
            } else {
                Double { bits: 0x7FF0_0000_0000_0000 }
            }
            &&& key.0 == 2 ==> key.1 == if kept.distance_kpc matches Some(x) && x.is_finite_spec() {
                kept.distance_kpc->0
            } else {
                Double { bits: 0x7FF0_0000_0000_0000 }
            }
            &&& key.0 != 2 ==> key.1.bits == 0
        }),
{
    reveal_strlit("distance_arcsec");
    reveal_strlit("distance_kpc");
    assert("distance_arcsec"@.len() == 15 && "distance_kpc"@.len() == 12);
    let arcsec = Node::Double(numbers.distance_arcsec);
    let one = placed(fields, numbers);
    what_was_set_is_read_back(fields, "distance_arcsec"@, arcsec);
    setting_a_name_leaves_the_others(fields, "distance_arcsec"@, arcsec, "distance_kpc"@);
    if let Some(kpc) = kept.distance_kpc {
        what_was_set_is_read_back(one, "distance_kpc"@, Node::Double(kpc));
        setting_a_name_leaves_the_others(
            one,
            "distance_kpc"@,
            Node::Double(kpc),
            "distance_arcsec"@,
        );
    }
    if let Some(key) = config.type_key {
        setting_a_name_leaves_the_others(fields, "distance_arcsec"@, arcsec, key@);
        if let Some(kpc) = kept.distance_kpc {
            setting_a_name_leaves_the_others(one, "distance_kpc"@, Node::Double(kpc), key@);
        }
    }
    let whole = marked(config, fields, numbers);
    assert(stellar_row(whole, config.type_key, config.stellar_types@) == is_star(
        config,
        Node::Document(fields),
    ));
    assert(number_of(whole, "distance_arcsec"@) == Some(numbers.distance_arcsec));
    assert(number_of(whole, "distance_kpc"@) == kept.distance_kpc);
}

/// Matches are listed with the likeliest host first.
pub proof fn the_likeliest_host_comes_first(
    config: CatalogXmatchConfig,
    rows: Vec<Bson>,
    numbers: Vec<RowNumbers>,
    batch: usize,
    kept: Vec<Kept>,
    k: int,
    m: int,
)
    requires
        call_ensures(match_rows, (&config, &rows, &numbers, batch), kept),
        numbers@.len() == rows@.len(),
        rows@.len() <= usize::MAX,
        forall|i: int|
            0 <= i < rows@.len() ==> ((#[trigger] rows@[i])@ matches Node::Document(fields)
                ==> lookup(fields, "distance_kpc"@) is None),
        config.type_key matches Some(key) ==> key@ != "distance_arcsec"@ && key@
            != "distance_kpc"@,
        0 <= k < m < kept@.len(),
    ensures
        may_precede(
            kept@[k],
            is_star(config, rows@[kept@[k].row as int]@),
            kept@[m],
            is_star(config, rows@[kept@[m].row as int]@),
        ),
{
    let values = nodes(rows@);
    let picked = accepted_rows(config, values, numbers@, values.len());
    lemma_accepted(config, values, numbers@, values.len());
    let keys = picked.map_values(|row: usize| row_key(config, values, numbers@, row));
    a_ranking_exists(keys);
    let order = ranked(keys);
    assert(precedes(keys, order[k] as int, order[m] as int));
    let a = picked[order[k] as int];
    let b = picked[order[m] as int];
    assert(kept@[k] == kept_row(config, values, numbers@, batch, a));
    assert(kept@[m] == kept_row(config, values, numbers@, batch, b));
    assert(values[a as int] == rows@[a as int]@ && values[b as int] == rows@[b as int]@);
    let a_fields = values[a as int]->Document_0;
    let b_fields = values[b as int]->Document_0;
    assert(values[a as int] == Node::Document(a_fields));
    assert(values[b as int] == Node::Document(b_fields));
    lemma_key_of_row(config, a_fields, numbers@[a as int], kept@[k]);
    lemma_key_of_row(config, b_fields, numbers@[b as int], kept@[m]);
    assert(keys[order[k] as int] == row_key(config, values, numbers@, a));
    assert(keys[order[m] as int] == row_key(config, values, numbers@, b));
}

/// Whether two catalogs are matched alike but for the number of matches that are kept.
pub open spec fn alike_but_for_the_limit(a: CatalogXmatchConfig, b: CatalogXmatchConfig) -> bool {
    &&& a.use_distance == b.use_distance
    &&& a.distance_key == b.distance_key
    &&& a.distance_max == b.distance_max
    &&& a.distance_max_near == b.distance_max_near
    &&& a.angular_size_key == b.angular_size_key
    &&& a.angular_size_radius_max == b.angular_size_radius_max
    &&& a.type_key == b.type_key
    &&& a.stellar_types == b.stellar_types
    &&& a.radii == b.radii
}

proof fn lemma_accepted_alike(
    a: CatalogXmatchConfig,
    b: CatalogXmatchConfig,
    rows: Seq<Node>,
    numbers: Seq<RowNumbers>,
    n: nat,
)
    requires
        alike_but_for_the_limit(a, b),
    ensures
        accepted_rows(a, rows, numbers, n) == accepted_rows(b, rows, numbers, n),
    decreases n,
{
    if n > 0 {
        lemma_accepted_alike(a, b, rows, numbers, (n - 1) as nat);
    }
}

/// A limit only cuts: what is kept with one is the beginning of what is kept without.
pub proof fn a_limit_only_cuts(
    limited: CatalogXmatchConfig,
    unlimited: CatalogXmatchConfig,
    rows: Vec<Bson>,
    numbers: Vec<RowNumbers>,
    batch: usize,
    few: Vec<Kept>,
    all: Vec<Kept>,
)
    requires
        alike_but_for_the_limit(limited, unlimited),
        unlimited.max_results is None,
        call_ensures(match_rows, (&limited, &rows, &numbers, batch), few),
        call_ensures(match_rows, (&unlimited, &rows, &numbers, batch), all),
    ensures
        few@.is_prefix_of(all@),
        limited.max_results is None ==> few@ == all@,
        limited.max_results matches Some(max) ==> few@.len() == if max < all@.len() {
            max as nat
        } else {
            all@.len()
        },
{
    let values = nodes(rows@);
    lemma_accepted_alike(limited, unlimited, values, numbers@, values.len());
    let picked = accepted_rows(limited, values, numbers@, values.len());
    let a = picked.map_values(|row: usize| row_key(limited, values, numbers@, row));
    let b = picked.map_values(|row: usize| row_key(unlimited, values, numbers@, row));
    assert(a =~= b);
    let few_all = ranked(a).map_values(
        |at: usize| kept_row(limited, values, numbers@, batch, picked[at as int]),
    );
    assert(all@ =~= few_all);
}

/// A reply that names no catalog, or brings no list of rows, is refused: for what it lacks,
/// or for what is there and is not of its kind. The catalog is looked at first.
pub proof fn which_replies_are_refused(reply: Document)
    ensures
        reply_fault(reply@) is None <==> {
            &&& lookup(reply@, "catalog"@) matches Some(Node::Text(_))
            &&& lookup(reply@, "matches"@) matches Some(Node::Array(_))
        },
        lookup(reply@, "catalog"@) is None ==> reply_fault(reply@) == Some(
            ValueAccess::NotPresent,
        ),
        (lookup(reply@, "catalog"@) matches Some(name) && !(name is Text)) ==> reply_fault(reply@)
            == Some(ValueAccess::UnexpectedType),
        lookup(reply@, "catalog"@) matches Some(Node::Text(_)) ==> {
            &&& lookup(reply@, "matches"@) is None ==> reply_fault(reply@) == Some(
                ValueAccess::NotPresent,
            )
            &&& (lookup(reply@, "matches"@) matches Some(rows) && !(rows is Array))
                ==> reply_fault(reply@) == Some(ValueAccess::UnexpectedType)
        },
{
}

/// Whether a name is that of a watchlist.
pub open spec fn is_watchlist(name: Seq<char>, prefix: Seq<char>) -> bool {
    prefix.is_prefix_of(name)
}

proof fn lemma_without_watchlists(lists: Seq<(Seq<char>, Seq<Kept>)>, prefix: Seq<char>)
    ensures
        without_watchlists(lists, prefix) == lists.filter(
            |list: (Seq<char>, Seq<Kept>)| !is_watchlist(list.0, prefix),
        ),
    decreases lists.len(),
{
    reveal(Seq::filter);
    if lists.len() > 0 {
        lemma_without_watchlists(lists.drop_last(), prefix);
        let name = lists.last().0;
        if prefix.len() <= name.len() {
            assert(prefix.is_prefix_of(name) == (name.subrange(0, prefix.len() as int) =~= prefix));
        }
    }
}

/// What is stored of an alert's matches leaves out the watchlists and nothing else.
pub proof fn watchlists_are_left_out(
    found: Crossmatch,
    prefix: &str,
    survey: Survey,
    object_id: &str,
    split: (Named<Vec<Kept>>, Vec<WatchlistUpdate>),
)
    requires
        call_ensures(Crossmatch::finish, (&found, prefix, survey, object_id), split),
    ensures
        split.0.lists() == found.results.lists().filter(
            |list: (Seq<char>, Seq<Kept>)| !is_watchlist(list.0, prefix@),
        ),
{
    lemma_without_watchlists(found.results.lists(), prefix@);
}

/// Whether an update of a watchlist adds an object to the survey's field of the documents
/// that `list` names and that have an identifier.
pub open spec fn records(
    update: UpdateView,
    list: (Seq<char>, Seq<Kept>),
    survey: Survey,
    object_id: Seq<char>,
) -> bool {
    let field = match survey {
        Survey::Ztf => "matching_ztf_objects"@,
        Survey::Lsst => "matching_lsst_objects"@,
        Survey::Decam => "matching_decam_objects"@,
    };
    &&& update.catalog == list.0
    &&& update.rows == list.1.filter(|item: Kept| item.has_id)
    &&& update.rows.len() > 0
    &&& update.update == seq![
        ("$addToSet"@, Node::Document(seq![(field, Node::Text(object_id))])),
    ]
}

/// Whether an update records the matches of one of some lists that is a watchlist.
pub open spec fn records_one(
    update: UpdateView,
    lists: Seq<(Seq<char>, Seq<Kept>)>,
    prefix: Seq<char>,
    survey: Survey,
    object_id: Seq<char>,
) -> bool {
    exists|i: int|
        0 <= i < lists.len() && is_watchlist((#[trigger] lists[i]).0, prefix) && records(
            update,
            lists[i],
            survey,
            object_id,
        )
}

/// Whether one of some updates records the matches of a list.
pub open spec fn recorded(
    updates: Seq<UpdateView>,
    list: (Seq<char>, Seq<Kept>),
    survey: Survey,
    object_id: Seq<char>,
) -> bool {
    exists|k: int|
        0 <= k < updates.len() && records(#[trigger] updates[k], list, survey, object_id)
}

proof fn lemma_match_field(survey: Survey)
    ensures
        crate::utils::spatial::match_field(survey) == match survey {
            Survey::Ztf => "matching_ztf_objects"@,
            Survey::Lsst => "matching_lsst_objects"@,
            Survey::Decam => "matching_decam_objects"@,
        },
{
    reveal_strlit("matching_");
    reveal_strlit("_objects");
    reveal_strlit("ztf");
    reveal_strlit("lsst");
    reveal_strlit("decam");
    reveal_strlit("matching_ztf_objects");
    reveal_strlit("matching_lsst_objects");
    reveal_strlit("matching_decam_objects");
    assert("matching_"@ + "ztf"@ + "_objects"@ =~= "matching_ztf_objects"@);
    assert("matching_"@ + "lsst"@ + "_objects"@ =~= "matching_lsst_objects"@);
    assert("matching_"@ + "decam"@ + "_objects"@ =~= "matching_decam_objects"@);
}

proof fn lemma_watchlist_updates(
    lists: Seq<(Seq<char>, Seq<Kept>)>,
    prefix: Seq<char>,
    survey: Survey,
    object_id: Seq<char>,
)
    ensures
        ({
            let updates = watchlist_updates(lists, prefix, survey, object_id);
            &&& forall|k: int|
                0 <= k < updates.len() ==> records_one(
                    #[trigger] updates[k],
                    lists,
                    prefix,
                    survey,
                    object_id,
                )
            &&& forall|i: int|
                0 <= i < lists.len() && is_watchlist((#[trigger] lists[i]).0, prefix)
                    && lists[i].1.filter(|item: Kept| item.has_id).len() > 0 ==> recorded(
                    updates,
                    lists[i],
                    survey,
                    object_id,
                )
        }),
    decreases lists.len(),
{
    let updates = watchlist_updates(lists, prefix, survey, object_id);
    if lists.len() > 0 {
        let less = lists.drop_last();
        let before = watchlist_updates(less, prefix, survey, object_id);
        lemma_watchlist_updates(less, prefix, survey, object_id);
        lemma_match_field(survey);
        let field = crate::utils::spatial::match_field(survey);
        lemma_only(field, Node::Text(object_id));
        lemma_only("$addToSet"@, Node::Document(only(field, Node::Text(object_id))));
        let last = lists.last();
        if prefix.len() <= last.0.len() {
            assert(prefix.is_prefix_of(last.0) == (last.0.subrange(0, prefix.len() as int)
                =~= prefix));
        }
        assert(identified(last.1) =~= last.1.filter(|item: Kept| item.has_id));
        assert forall|k: int| 0 <= k < updates.len() implies records_one(
            #[trigger] updates[k],
            lists,
            prefix,
            survey,
            object_id,
        ) by {
            if k < before.len() {
                assert(updates[k] == before[k]);
                assert(records_one(before[k], less, prefix, survey, object_id));
                let i = choose|i: int|
                    0 <= i < less.len() && is_watchlist((#[trigger] less[i]).0, prefix) && records(
                        before[k],
                        less[i],
                        survey,
                        object_id,
                    );
                assert(lists[i] == less[i]);
            } else {
                assert(records(updates[k], lists[lists.len() - 1], survey, object_id));
            }
        }
        assert forall|i: int|
            0 <= i < lists.len() && is_watchlist((#[trigger] lists[i]).0, prefix)
                && lists[i].1.filter(|item: Kept| item.has_id).len() > 0 implies recorded(
            updates,
            lists[i],
            survey,
            object_id,
        ) by {
            if i < less.len() {
                assert(less[i] == lists[i]);
                assert(recorded(before, less[i], survey, object_id));
                let k = choose|k: int|
                    0 <= k < before.len() && records(
                        #[trigger] before[k],
                        less[i],
                        survey,
                        object_id,
                    );
                assert(updates[k] == before[k]);
            } else {
                assert(records(updates[before.len() as int], lists[i], survey, object_id));
            }
        }
    }
}

/// Every watchlist in which a document with an identifier was matched records the object on
/// those documents, under the survey's field, and nothing else is recorded.
pub proof fn watchlists_record_their_matches(
    found: Crossmatch,
    prefix: &str,
    survey: Survey,
    object_id: &str,
    split: (Named<Vec<Kept>>, Vec<WatchlistUpdate>),
)
    requires
        call_ensures(Crossmatch::finish, (&found, prefix, survey, object_id), split),
    ensures
        forall|k: int|
            0 <= k < split.1@.len() ==> records_one(
                #[trigger] updates_view(split.1@)[k],
                found.results.lists(),
                prefix@,
                survey,
                object_id@,
            ),
        forall|i: int|
            0 <= i < found.results.lists().len() && is_watchlist(
                (#[trigger] found.results.lists()[i]).0,
                prefix@,
            ) && found.results.lists()[i].1.filter(|item: Kept| item.has_id).len() > 0 ==> recorded(
                updates_view(split.1@),
                found.results.lists()[i],
                survey,
                object_id@,
            ),
{
    lemma_watchlist_updates(found.results.lists(), prefix@, survey, object_id@);
}

/// The radius for a row of some size is the cone where the catalog has no sizes, and else
/// goes by the size.
pub proof fn sizes_widen_the_radius(
    config: CatalogXmatchConfig,
    size: Option<Double>,
    scaled: Double,
    radius: Double,
)
    requires
        call_ensures(CatalogXmatchConfig::match_radius_arcsec, (&config, size, scaled), radius),
        !config.radii.base.is_nan_spec(),
        !config.radii.size_min.is_nan_spec() && !config.radii.size_max.is_nan_spec(),
        !scaled.is_nan_spec(),
        config.radii.size_min.at_most(config.radii.size_max),
        config.radii.size_min.at_most(config.radii.base),
    ensures
        config.angular_size_key is None ==> radius == config.radii.base,
        config.angular_size_key is Some ==> is_radius_by_size(config, size, scaled, radius),
{
}

/// Whether some number is what a row holds in a field, or infinity where it holds no finite
/// one.
pub open spec fn reads_as(number: Option<Double>, x: Double) -> bool {
    match number {
        Some(n) => x == n,
        None => x.bits == 0x7FF0_0000_0000_0000,
    }
}

/// How a match is ranked: one within an arcsecond comes first, a galaxy without a projected
/// distance next, then the rest by their projected distances, and last other stars. Those of
/// one rank go by their separation.
pub proof fn how_matches_are_ranked(
    doc: Document,
    type_key: Option<String>,
    stellar: Vec<String>,
    arcsec: Option<Double>,
    kpc: Option<Double>,
    plain: Option<Double>,
    rank: u8,
    key: (u8, Double, Double),
)
    requires
        call_ensures(get_opt_f64_from_doc, (&doc, "distance_arcsec"), arcsec),
        call_ensures(get_opt_f64_from_doc, (&doc, "distance_kpc"), kpc),
        call_ensures(get_f64_from_doc, (&doc, "distance_kpc"), plain),
        call_ensures(host_rank, (&doc, &type_key, &stellar), rank),
        call_ensures(host_sort_key, (&doc, &type_key, &stellar), key),
    ensures
        ({
            let star = type_key matches Some(name) && (lookup(doc@, name@) matches Some(
                Node::Text(kind),
            ) && exists|i: int|
                0 <= i < stellar@.len() && same_folded(#[trigger] stellar@[i]@, trimmed(kind)));
            let near = arcsec matches Some(x) && x.less(Double { bits: 0x3FF0_0000_0000_0000 });
            let unplaced = kpc matches Some(x) && x.equals(Double { bits: 0xBFF0_0000_0000_0000 });
            &&& plain == kpc
            &&& near ==> rank == 0
            &&& !near && star ==> rank == 3
            &&& !near && !star && unplaced ==> rank == 1
            &&& !near && !star && !unplaced ==> rank == 2
            &&& key.0 == rank
            &&& rank == 2 ==> reads_as(kpc, key.1)
            &&& rank != 2 ==> key.1.bits == 0
            &&& reads_as(arcsec, key.2)
        }),
{
    assert(!(Double { bits: 0x7FF0_0000_0000_0000 }).less(Double { bits: 0x3FF0_0000_0000_0000 }));
    assert(!(Double { bits: 0x7FF0_0000_0000_0000 }).equals(
        Double { bits: 0xBFF0_0000_0000_0000 },
    ));
}

/// Matches are put in the order of their keys: by rank, then by the first number, then by the
/// second, and those with the same keys as they stood.
pub proof fn matches_are_ordered_by_their_keys(
    docs: Vec<Document>,
    type_key: Option<String>,
    stellar: Vec<String>,
    rows: Vec<usize>,
    i: int,
    j: int,
    a: (u8, Double, Double),
    b: (u8, Double, Double),
)
    requires
        call_ensures(host_order, (&docs, &type_key, &stellar), rows),
        0 <= i < j < rows@.len(),
        call_ensures(host_sort_key, (&docs@[rows@[i] as int], &type_key, &stellar), a),
        call_ensures(host_sort_key, (&docs@[rows@[j] as int], &type_key, &stellar), b),
    ensures
        rows@.len() == docs@.len(),
        rows@[i] < docs@.len() && rows@[j] < docs@.len() && rows@[i] != rows@[j],
        a.0 <= b.0,
        a.0 == b.0 ==> a.1.at_most(b.1),
        a.0 == b.0 && a.1.equals(b.1) ==> a.2.at_most(b.2),
        a.0 == b.0 && a.1.equals(b.1) && a.2.equals(b.2) ==> rows@[i] < rows@[j],
{
    let keys = keys_of(docs@, type_key, stellar@);
    assert(precedes(keys, rows@[i] as int, rows@[j] as int));
}

}
