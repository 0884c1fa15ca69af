//! Reprocessing the crossmatches between a survey's objects and some catalogs.
//!
//! A catalog is either read once per object, or read once as a whole and matched
//! against the objects. In the second case the matches are gathered in a buffer field
//! on each object and swapped in at the end, so that the live field is never empty.
use vstd::prelude::*;

use crate::api::alerts::{cone_node, cone_value};
use crate::binary::Double;
use crate::conf::CatalogXmatchConfig;
use crate::document::{no_fields, only, Bson, Document, Node};
use crate::formula::{
    any_folded, call, call_node, choice, double, double_formula, field, finite, finite_formula,
    lemma_finite_formula, lemma_trimming, literal, one_folded, texts,
    Formula, SPACES,
};
use crate::named::{
    listed, lookup, put, setting_a_name_leaves_the_others, what_was_set_is_read_back, Named,
};
use crate::order::{ranked, Key};
use crate::text::{join3, lists_folded, same_folded, trimmed};
use crate::utils::enums::Survey;
use crate::utils::spatial::{
    accepted_rows, catalog_at, cm_radius_arcsec, copy_kept, distance_kpc_from_arcsec,
    distance_radius, find_catalog, finite_of, finite_or_infinite, get_f64_from_doc, kept_row, kept_rows,
    marked, nodes, place_key, projected_distance, rank_of, row_key, stellar_row, Kept, RowNumbers,
    COINCIDENT_ARCSEC, NO_PROJECTED_DISTANCE,
};

verus! {

/// How many batches per worker the queue holds.
pub const QUEUE_MULTIPLIER: usize = 2;

/// Which collection is looped over.
#[derive(Clone, Copy, Debug, PartialEq, Eq, Structural)]
pub enum Direction {
    /// The smaller one, catalog by catalog.
    Auto,
    /// The objects.
    Objects,
    /// The catalog.
    Catalog,
}

/// Picks the smaller side; the objects when both are equal.
pub fn pick_direction(aux_count: u64, cat_count: u64) -> (direction: Direction)
    ensures
        direction == if cat_count < aux_count {
            Direction::Catalog
        } else {
            Direction::Objects
        },
{
    if cat_count < aux_count {
        Direction::Catalog
    } else {
        Direction::Objects
    }
}

/// The direction in which a catalog is processed.
pub open spec fn settled(direction: Direction, aux_count: u64, cat_count: u64) -> Direction {
    if direction == Direction::Auto {
        if cat_count < aux_count {
            Direction::Catalog
        } else {
            Direction::Objects
        }
    } else {
        direction
    }
}

/// Splits some catalogs by the direction in which each is processed. `counts` holds
/// for each the estimated number of objects and of rows.
pub fn split_by_direction(direction: Direction, counts: &Vec<(u64, u64)>) -> (split: (
    Vec<usize>,
    Vec<usize>,
))
    ensures
        split.0@ == in_direction(direction, Direction::Objects, counts@, counts@.len()),
        split.1@ == in_direction(direction, Direction::Catalog, counts@, counts@.len()),
{
    let mut objects: Vec<usize> = Vec::new();
    let mut catalogs: Vec<usize> = Vec::new();
    let mut i: usize = 0;
    while i < counts.len()
        invariant
            i <= counts@.len(),
            objects@ == in_direction(direction, Direction::Objects, counts@, i as nat),
            catalogs@ == in_direction(direction, Direction::Catalog, counts@, i as nat),
        decreases counts.len() - i,
    {
        let (aux_count, cat_count) = counts[i];
        let picked: Direction = if direction == Direction::Auto {
            pick_direction(aux_count, cat_count)
        } else {
            direction
        };
        match picked {
            Direction::Catalog => {
                catalogs.push(i);
            },
            _ => {
                objects.push(i);
            },
        }
        i = i + 1;
    }
    (objects, catalogs)
}

/// Those of the first `n` catalogs that are processed in direction `wanted`.
pub open spec fn in_direction(
    direction: Direction,
    wanted: Direction,
    counts: Seq<(u64, u64)>,
    n: nat,
) -> Seq<usize>
    decreases n,
{
    if n == 0 {
        Seq::empty()
    } else {
        let before = in_direction(direction, wanted, counts, (n - 1) as nat);
        if settled(direction, counts[n - 1].0, counts[n - 1].1) == wanted {
            before.push((n - 1) as usize)
        } else {
            before
        }
    }
}

/// Looks up the catalogs that were asked for by name. The first that is not configured
/// is an error.
pub fn resolve_catalogs(
    configs: &Vec<CatalogXmatchConfig>,
    names: &Vec<String>,
    survey: Survey,
    path: &str,
) -> (resolved: Result<Vec<usize>, String>)
    ensures
        match resolved {
            Ok(at) => at@.len() == names@.len() && forall|i: int|
                0 <= i < at@.len() ==> #[trigger] at@[i] == catalog_at(configs@, names@[i]@)
                    && at@[i] < configs@.len(),
            Err(message) => exists|i: int|
                {
                    &&& 0 <= i < names@.len()
                    &&& #[trigger] catalog_at(configs@, names@[i]@) == configs@.len()
                    &&& forall|k: int|
                        0 <= k < i ==> #[trigger] catalog_at(configs@, names@[k]@)
                            < configs@.len()
                    &&& message@ == "catalog '"@ + names@[i]@ + "' not declared under crossmatch."@
                        + survey.lower_name() + " in "@ + path@
                },
        },
{
    let mut resolved: Vec<usize> = Vec::new();
    let mut i: usize = 0;
    while i < names.len()
        invariant
            i <= names@.len(),
            resolved@.len() == i,
            forall|k: int|
                #![trigger resolved@[k]]
                #![trigger names@[k]]
                0 <= k < i ==> resolved@[k] == catalog_at(configs@, names@[k]@) && resolved@[k]
                    < configs@.len(),
        decreases names.len() - i,
    {
        let at: usize = find_catalog(configs.as_slice(), names[i].as_str());
        if at == configs.len() {
            assert(catalog_at(configs@, names@[i as int]@) == configs@.len());
            return Err(
                join3(
                    "catalog '",
                    names[i].as_str(),
                    "' not declared under crossmatch.",
                ).concat(survey.lower()).concat(" in ").concat(path),
            );
        }
        resolved.push(at);
        i = i + 1;
    }
    Ok(resolved)
}

/// How many records the queue between the reader and the workers holds.
pub fn queue_capacity(processes: usize, batch_size: usize) -> (capacity: usize)
    requires
        processes * batch_size * QUEUE_MULTIPLIER <= usize::MAX,
    ensures
        capacity == processes * batch_size * QUEUE_MULTIPLIER,
{
    assert(processes * batch_size <= processes * batch_size * 2) by (nonlinear_arith);
    processes * batch_size * QUEUE_MULTIPLIER
}

/// The collection of a survey's objects.
pub fn aux_collection(survey: Survey) -> (name: String)
    ensures
        name@ == survey.name() + "_alerts_aux"@,
{
    survey.as_str().to_string().concat("_alerts_aux")
}

/// The field of an object that holds its matches in a catalog.
pub open spec fn live_of(catalog: Seq<char>) -> Seq<char> {
    "cross_matches."@ + catalog
}

/// The field of an object in which matches are gathered.
pub open spec fn temp_of(catalog: Seq<char>) -> Seq<char> {
    "cross_matches."@ + catalog + "_temp"@
}

pub fn live_field(catalog: &str) -> (field: String)
    ensures
        field@ == live_of(catalog@),
{
    "cross_matches.".to_string().concat(catalog)
}

pub fn temp_field(catalog: &str) -> (field: String)
    ensures
        field@ == temp_of(catalog@),
{
    join3("cross_matches.", catalog, "_temp")
}

/// What is set on an object for the first `n` catalogs: under the field of each, the
/// matches that were found in it, or none.
pub open spec fn object_fields(
    configs: Seq<CatalogXmatchConfig>,
    found: Seq<(Seq<char>, Seq<Kept>)>,
    n: nat,
) -> Seq<(Seq<char>, Seq<Kept>)>
    decreases n,
{
    if n == 0 {
        Seq::empty()
    } else {
        put(
            object_fields(configs, found, (n - 1) as nat),
            live_of(configs[n - 1].catalog@),
            listed(found, configs[n - 1].catalog@),
        )
    }
}

/// Lists, for each field that is set on an object, the matches that it is set to.
pub fn object_update(
    configs: &[CatalogXmatchConfig],
    found: &Named<Vec<Kept>>,
) -> (fields: Named<Vec<Kept>>)
    ensures
        fields.lists() == object_fields(configs@, found.lists(), configs@.len()),
{
    let mut fields: Named<Vec<Kept>> = Named::new();
    let mut i: usize = 0;
    assert(fields.lists() =~= Seq::empty());
    while i < configs.len()
        invariant
            i <= configs@.len(),
            fields.lists() == object_fields(configs@, found.lists(), i as nat),
        decreases configs.len() - i,
    {
        let name = configs[i].catalog.as_str();
        let matches = match found.get_list(name) {
            Some(matches) => copy_kept(matches),
            None => Vec::new(),
        };
        assert(matches@ =~= listed(found.lists(), name@));
        fields.set_list(live_field(name).as_str(), matches);
        i = i + 1;
    }
    fields
}

/// The filter for one object.
pub fn object_filter(object_id: &str) -> (filter: Document)
    ensures
        filter@ == only("_id"@, Node::Text(object_id@)),
{
    Document::new().with("_id", Bson::text(object_id))
}

/// Whether one more object fills a batch.
pub open spec fn fills<T>(batch_size: nat, held: Seq<T>) -> bool {
    held.len() + 1 >= batch_size
}

/// What a batch holds after one more object: nothing, where that filled it.
pub open spec fn kept_with<T>(batch_size: nat, held: Seq<T>, item: T) -> Seq<T> {
    if fills(batch_size, held) {
        Seq::empty()
    } else {
        held.push(item)
    }
}

/// The objects that one worker has received and not handed on.
#[derive(Debug)]
pub struct ObjectBatch<T> {
    pub batch_size: usize,
    pub items: Vec<T>,
}

impl<T> ObjectBatch<T> {
    /// A batch is handed on as soon as it is full.
    pub open spec fn wf(&self) -> bool {
        self.items@.len() < self.batch_size
    }

    pub fn new(batch_size: usize) -> (batch: ObjectBatch<T>)
        requires
            batch_size > 0,
        ensures
            batch.wf(),
            batch.batch_size == batch_size,
            batch.items@ == Seq::<T>::empty(),
    {
        ObjectBatch { batch_size, items: Vec::new() }
    }

    /// Takes in one more object, and hands on the batch when it is full.
    pub fn add(&mut self, item: T) -> (full: Option<Vec<T>>)
        requires
            old(self).wf(),
        ensures
            final(self).wf(),
            final(self).batch_size == old(self).batch_size,
            final(self).items@ == kept_with(old(self).batch_size as nat, old(self).items@, item),
            full is Some <==> fills(old(self).batch_size as nat, old(self).items@),
            full matches Some(full) ==> full@ == old(self).items@.push(item),
    {
        self.items.push(item);
        if self.items.len() < self.batch_size {
            return None;
        }
        let mut full: Vec<T> = Vec::new();
        std::mem::swap(&mut full, &mut self.items);
        Some(full)
    }

    /// Hands on what is left, if anything is.
    pub fn finish(self) -> (rest: Option<Vec<T>>)
        ensures
            match rest {
                Some(rest) => rest@ == self.items@ && rest@.len() > 0,
                None => self.items@.len() == 0,
            },
    {
        if self.items.len() > 0 {
            Some(self.items)
        } else {
            None
        }
    }
}

/// What is left in a batch after some objects were received.
pub open spec fn left_after<T>(batch_size: nat, items: Seq<T>) -> Seq<T>
    decreases items.len(),
{
    if items.len() == 0 {
        Seq::empty()
    } else {
        kept_with(batch_size, left_after(batch_size, items.drop_last()), items.last())
    }
}

/// What was handed on, batch after batch, while some objects were received.
pub open spec fn handed_on<T>(batch_size: nat, items: Seq<T>) -> Seq<T>
    decreases items.len(),
{
    if items.len() == 0 {
        Seq::empty()
    } else {
        let held = left_after(batch_size, items.drop_last());
        let handed = handed_on(batch_size, items.drop_last());
        if fills(batch_size, held) {
            handed + held.push(items.last())
        } else {
            handed
        }
    }
}

/// No object is lost, repeated or reordered on its way through a batch.
pub proof fn every_object_is_handed_on_once<T>(batch_size: nat, items: Seq<T>)
    ensures
        handed_on(batch_size, items) + left_after(batch_size, items) == items,
    decreases items.len(),
{
    if items.len() > 0 {
        let earlier = items.drop_last();
        every_object_is_handed_on_once(batch_size, earlier);
        let (handed, held) = (handed_on(batch_size, earlier), left_after(batch_size, earlier));
        assert(handed + held.push(items.last()) =~= (handed + held).push(items.last()));
        assert(earlier.push(items.last()) =~= items);
    }
    assert(handed_on(batch_size, items) + left_after(batch_size, items) =~= items);
}

/// The condition that a record existed when the run started.
pub open spec fn before_run(run_start_jd: Double) -> Node {
    Node::Document(only("$lt"@, Node::Double(run_start_jd)))
}

/// The records that existed when the run started. The rest was inserted with its matches
/// and is not touched.
pub open spec fn existing(run_start_jd: Double) -> Seq<(Seq<char>, Node)> {
    only("created_at"@, before_run(run_start_jd))
}

fn before_run_value(run_start_jd: Double) -> (value: Bson)
    ensures
        value@ == before_run(run_start_jd),
{
    Bson::Document(Document::new().with("$lt", Bson::Double(run_start_jd)))
}

/// What is done in one go on the objects of a survey: a filter, and an update or a
/// list of stages.
#[derive(Debug)]
pub struct BulkUpdate {
    pub filter: Document,
    pub update: Bson,
}

/// The phases of a run over a catalog.
#[derive(Clone, Copy, Debug, PartialEq, Eq, Structural)]
pub enum Phase {
    /// The buffer of every record is emptied.
    Cleaning,
    /// The rows of the catalog are matched into the buffers.
    Streaming,
    /// The buffers are sorted and cut.
    Sorting,
    /// The buffers become the live fields.
    Swapping,
    Done,
    Failed,
}

/// The phase after one that ended well or not. A run whose streaming failed stops
/// before the buffers, some of which are then incomplete, can become live.
pub open spec fn phase_after(phase: Phase, ok: bool) -> Phase {
    if phase == Phase::Done || phase == Phase::Failed {
        phase
    } else if !ok {
        Phase::Failed
    } else {
        match phase {
            Phase::Cleaning => Phase::Streaming,
            Phase::Streaming => Phase::Sorting,
            Phase::Sorting => Phase::Swapping,
            _ => Phase::Done,
        }
    }
}

/// The phase after several.
pub open spec fn phase_reached(outcomes: Seq<bool>) -> Phase
    decreases outcomes.len(),
{
    if outcomes.len() == 0 {
        Phase::Cleaning
    } else {
        phase_after(phase_reached(outcomes.drop_last()), outcomes.last())
    }
}

/// The buffers become live only after every phase before has ended well.
pub proof fn nothing_is_swapped_after_a_failure(outcomes: Seq<bool>)
    requires
        phase_reached(outcomes) == Phase::Swapping || phase_reached(outcomes) == Phase::Done,
    ensures
        outcomes.len() >= 3,
        outcomes[0] && outcomes[1] && outcomes[2],
    decreases outcomes.len(),
{
    reveal_with_fuel(phase_reached, 5);
    let before = outcomes.drop_last();
    if phase_reached(before) == Phase::Swapping || phase_reached(before) == Phase::Done {
        nothing_is_swapped_after_a_failure(before);
    } else {
        let second = before.drop_last();
        let first = second.drop_last();
        assert(phase_reached(before) == Phase::Sorting);
        assert(phase_reached(second) == Phase::Streaming);
        assert(phase_reached(first) == Phase::Cleaning);
        lemma_cleaning_is_the_start(first);
    }
}

proof fn lemma_cleaning_is_the_start(outcomes: Seq<bool>)
    requires
        phase_reached(outcomes) == Phase::Cleaning,
    ensures
        outcomes.len() == 0,
{
}

/// A run over one catalog.
#[derive(Debug)]
pub struct CatalogRun {
    pub phase: Phase,
    pub live_field: String,
    pub temp_field: String,
    pub run_start_jd: Double,
}

/// The stage that empties the buffer.
pub open spec fn clear_update(temp: Seq<char>) -> Node {
    Node::Document(
        only("$set"@, Node::Document(only(temp, Node::Array(Seq::empty())))),
    )
}

/// The stages that make the buffer live and remove it.
pub open spec fn swap_stages(live: Seq<char>, temp: Seq<char>) -> Node {
    Node::Array(
        seq![
            Node::Document(
                only("$set"@, Node::Document(only(live, Node::Text("$"@ + temp)))),
            ),
            Node::Document(only("$unset"@, Node::Text(temp))),
        ],
    )
}

/// The records whose buffers hold something.
pub open spec fn filled(run_start_jd: Double, temp: Seq<char>) -> Seq<(Seq<char>, Node)> {
    put(
        existing(run_start_jd),
        temp + ".0"@,
        Node::Document(only("$exists"@, Node::Boolean(true))),
    )
}

/// Whether a row describes a star, by the catalog's own type column.
pub open spec fn stellar_formula(config: CatalogXmatchConfig) -> Formula {
    let no = Formula::Constant(Node::Boolean(false));
    match config.type_key {
        Some(key) => {
            let kind = Box::new(Formula::Field(key@));
            Formula::Choice(
                Box::new(Formula::IsText(kind)),
                Box::new(
                    Formula::AnyFolded(
                        Box::new(Formula::Trim(kind, SPACES@)),
                        texts(config.stellar_types@),
                    ),
                ),
                Box::new(no),
            )
        },
        None => no,
    }
}

/// One of four expressions, by the rank of the row for host ordering: the first for a
/// coincident row, the second for a galaxy nearby, the third for the rest, the last for a
/// star.
pub open spec fn by_rank(
    config: CatalogXmatchConfig,
    coincident: Formula,
    nearby: Formula,
    rest: Formula,
    star: Formula,
) -> Formula {
    let near = Formula::Same(
        Box::new(finite_formula("distance_kpc"@)),
        double_formula(NO_PROJECTED_DISTANCE),
    );
    Formula::Choice(
        Box::new(
            Formula::Below(
                Box::new(finite_formula("distance_arcsec"@)),
                double_formula(COINCIDENT_ARCSEC),
            ),
        ),
        Box::new(coincident),
        Box::new(
            Formula::Choice(
                Box::new(stellar_formula(config)),
                Box::new(star),
                Box::new(Formula::Choice(Box::new(near), Box::new(nearby), Box::new(rest))),
            ),
        ),
    )
}

/// A constant rank.
pub open spec fn rank_constant(rank: i32) -> Formula {
    Formula::Constant(Node::Int32(rank))
}

/// The rank of a row.
pub open spec fn rank_formula(config: CatalogXmatchConfig) -> Formula {
    by_rank(config, rank_constant(0), rank_constant(1), rank_constant(2), rank_constant(3))
}

/// The projected distance of a row, where its rank is ordered by it, and otherwise 0.
pub open spec fn kpc_formula(config: CatalogXmatchConfig) -> Formula {
    let zero = *double_formula(0);
    by_rank(config, zero, zero, finite_formula("distance_kpc"@), zero)
}

/// What the stage orders a row by, as numbers that are compared one after the other.
pub open spec fn stage_key(config: CatalogXmatchConfig, row: Seq<(Seq<char>, Node)>) -> Key {
    match (
        rank_formula(config).value(row),
        kpc_formula(config).value(row),
        finite_formula("distance_arcsec"@).value(row),
    ) {
        (Some(Node::Int32(rank)), Some(Node::Double(kpc)), Some(Node::Double(arcsec))) => (
            rank as i64,
            kpc.position() as i64,
            arcsec.position() as i64,
        ),
        _ => (0, 0, 0),
    }
}

/// The positions of the rows that the stage leaves of some rows, in its order. Rows of one
/// key stand in the order they had; the database does not promise which of them it puts
/// first.
pub open spec fn arranged(
    config: CatalogXmatchConfig,
    rows: Seq<Seq<(Seq<char>, Node)>>,
) -> Seq<usize> {
    let order = ranked(rows.map_values(|row: Seq<(Seq<char>, Node)>| stage_key(config, row)));
    match config.max_results {
        Some(max) => if max < order.len() {
            order.take(max as int)
        } else {
            order
        },
        None => order,
    }
}

proof fn lemma_stellar_formula(config: CatalogXmatchConfig, row: Seq<(Seq<char>, Node)>)
    ensures
        stellar_formula(config).value(row) == Some(
            Node::Boolean(stellar_row(row, config.type_key, config.stellar_types@)),
        ),
{
    match config.type_key {
        Some(key) => {
            let kind = Formula::Field(key@);
            let stripped = Formula::Trim(Box::new(kind), SPACES@);
            let list = config.stellar_types@;
            let starry = Formula::AnyFolded(Box::new(stripped), texts(list));
            assert(kind.value(row) == lookup(row, key@));
            let no = Formula::Constant(Node::Boolean(false));
            assert(no.value(row) == Some(Node::Boolean(false)));
            let is_text = Formula::IsText(Box::new(kind));
            assert(is_text.value(row) == Some(
                Node::Boolean(lookup(row, key@) matches Some(Node::Text(_))),
            ));
            match lookup(row, key@) {
                Some(Node::Text(name)) => {
                    lemma_trimming(name);
                    assert(stripped.value(row) == Some(Node::Text(trimmed(name))));
                    lemma_texts_folded(list, trimmed(name));
                    assert(starry.value(row) == Some(
                        Node::Boolean(lists_folded(list, trimmed(name))),
                    ));
                },
                _ => {},
            }
        },
        None => {},
    }
}

proof fn lemma_texts_folded(list: Seq<String>, s: Seq<char>)
    ensures
        one_folded(texts(list), s) == lists_folded(list, s),
{
    if lists_folded(list, s) {
        let i = choose|i: int| 0 <= i < list.len() && same_folded(#[trigger] list[i]@, s);
        assert(same_folded(texts(list)[i], s));
    }
    if one_folded(texts(list), s) {
        let i = choose|i: int|
            0 <= i < texts(list).len() && same_folded(#[trigger] texts(list)[i], s);
        assert(same_folded(list[i]@, s));
    }
}

proof fn lemma_by_rank(
    config: CatalogXmatchConfig,
    coincident: Formula,
    nearby: Formula,
    rest: Formula,
    star: Formula,
    row: Seq<(Seq<char>, Node)>,
)
    ensures
        by_rank(config, coincident, nearby, rest, star).value(row) == ({
            let rank = rank_of(row, config.type_key, config.stellar_types@);
            if rank == 0 {
                coincident
            } else if rank == 1 {
                nearby
            } else if rank == 2 {
                rest
            } else {
                star
            }
        }).value(row),
{
    let arcsec = finite_formula("distance_arcsec"@);
    let kpc = finite_formula("distance_kpc"@);
    lemma_finite_formula("distance_arcsec"@, row);
    lemma_finite_formula("distance_kpc"@, row);
    lemma_stellar_formula(config, row);
    let close = Formula::Below(Box::new(arcsec), double_formula(COINCIDENT_ARCSEC));
    let near = Formula::Same(Box::new(kpc), double_formula(NO_PROJECTED_DISTANCE));
    let others = Formula::Choice(Box::new(near), Box::new(nearby), Box::new(rest));
    let apart = Formula::Choice(
        Box::new(stellar_formula(config)),
        Box::new(star),
        Box::new(others),
    );
    let is_close = finite_or_infinite(row, "distance_arcsec"@).less(
        Double { bits: COINCIDENT_ARCSEC },
    );
    let is_near = finite_or_infinite(row, "distance_kpc"@).equals(
        Double { bits: NO_PROJECTED_DISTANCE },
    );
    assert(double_formula(COINCIDENT_ARCSEC).value(row) == Some(
        Node::Double(Double { bits: COINCIDENT_ARCSEC }),
    ));
    assert(double_formula(NO_PROJECTED_DISTANCE).value(row) == Some(
        Node::Double(Double { bits: NO_PROJECTED_DISTANCE }),
    ));
    assert(close.value(row) == Some(Node::Boolean(is_close)));
    assert(near.value(row) == Some(Node::Boolean(is_near)));
    assert(others.value(row) == if is_near {
        nearby.value(row)
    } else {
        rest.value(row)
    });
    assert(apart.value(row) == if stellar_row(row, config.type_key, config.stellar_types@) {
        star.value(row)
    } else {
        others.value(row)
    });
}

/// The stage orders rows by what a crossmatch orders them by.
pub proof fn gathered_rows_have_the_key_of_a_crossmatch(
    config: CatalogXmatchConfig,
    row: Seq<(Seq<char>, Node)>,
)
    ensures
        stage_key(config, row) == place_key(row, config.type_key, config.stellar_types@),
{
    lemma_by_rank(
        config,
        rank_constant(0),
        rank_constant(1),
        rank_constant(2),
        rank_constant(3),
        row,
    );
    let zero = *double_formula(0);
    lemma_by_rank(config, zero, zero, finite_formula("distance_kpc"@), zero, row);
    lemma_finite_formula("distance_arcsec"@, row);
    lemma_finite_formula("distance_kpc"@, row);
}

/// Of the rows that a crossmatch accepts, with their distances on them, the stage leaves
/// those that the crossmatch keeps, in the same order.
pub proof fn gathered_rows_are_arranged_as_by_a_crossmatch(
    config: CatalogXmatchConfig,
    rows: Seq<Node>,
    numbers: Seq<RowNumbers>,
    batch: usize,
)
    ensures
        ({
            let picked = accepted_rows(config, rows, numbers, rows.len());
            let stored = picked.map_values(
                |row: usize|
                    marked(config, rows[row as int]->Document_0, numbers[row as int]),
            );
            kept_rows(config, rows, numbers, batch) == arranged(config, stored).map_values(
                |at: usize| kept_row(config, rows, numbers, batch, picked[at as int]),
            )
        }),
{
    let picked = accepted_rows(config, rows, numbers, rows.len());
    let stored = picked.map_values(
        |row: usize| marked(config, rows[row as int]->Document_0, numbers[row as int]),
    );
    let keys = picked.map_values(|row: usize| row_key(config, rows, numbers, row));
    let stage_keys = stored.map_values(
        |row: Seq<(Seq<char>, Node)>| stage_key(config, row),
    );
    assert forall|i: int| 0 <= i < keys.len() implies #[trigger] keys[i] == stage_keys[i] by {
        gathered_rows_have_the_key_of_a_crossmatch(config, stored[i]);
    }
    assert(keys =~= stage_keys);
    assert(kept_rows(config, rows, numbers, batch) =~= arranged(config, stored).map_values(
        |at: usize| kept_row(config, rows, numbers, batch, picked[at as int]),
    ));
}

/// The ascending order of three fields.
pub open spec fn key_order() -> Node {
    Node::Document(
        put(
            put(only("rank"@, Node::Int32(1)), "kpc"@, Node::Int32(1)),
            "arcsec"@,
            Node::Int32(1),
        ),
    )
}

/// Each row of an array with what it is ordered by.
pub open spec fn keyed_rows(config: CatalogXmatchConfig, field: Seq<char>) -> Node {
    let keyed = put(
        put(
            put(only("row"@, Node::Text("$$row"@)), "rank"@, rank_formula(config).node()),
            "kpc"@,
            kpc_formula(config).node(),
        ),
        "arcsec"@,
        finite_formula("distance_arcsec"@).node(),
    );
    call_node(
        "$map"@,
        Node::Document(
            put(
                put(only("input"@, Node::Text("$"@ + field)), "as"@, Node::Text("row"@)),
                "in"@,
                Node::Document(keyed),
            ),
        ),
    )
}

/// The value of a buffer sorted and cut, the likeliest host first: each row is given its
/// key, the rows are sorted by it, and the keys are taken off again.
pub open spec fn sorted_value(config: CatalogXmatchConfig, field: Seq<char>) -> Node {
    let sorted = call_node(
        "$sortArray"@,
        Node::Document(put(only("input"@, keyed_rows(config, field)), "sortBy"@, key_order())),
    );
    let rows = call_node(
        "$map"@,
        Node::Document(
            put(
                put(only("input"@, sorted), "as"@, Node::Text("keyed"@)),
                "in"@,
                Node::Text("$$keyed.row"@),
            ),
        ),
    );
    match config.max_results {
        Some(max) => call_node("$slice"@, Node::Array(seq![rows, Node::Int64(max as i64)])),
        None => rows,
    }
}

/// The stage that sorts and cuts the buffer.
pub open spec fn sort_trim(config: CatalogXmatchConfig, field: Seq<char>) -> Node {
    Node::Array(
        seq![
            Node::Document(
                only("$set"@, Node::Document(only(field, sorted_value(config, field)))),
            ),
        ],
    )
}

fn document(key: &str, value: Bson) -> (value_of_key: Bson)
    ensures
        value_of_key@ == Node::Document(only(key@, value@)),
{
    Bson::Document(Document::new().with(key, value))
}

fn list_of(items: Vec<Bson>) -> (list: Bson)
    ensures
        list@ == Node::Array(nodes(items@)),
{
    let list = Bson::Array(items);
    assert(list@->Array_0 =~= nodes(items@));
    list
}

fn is_star(config: &CatalogXmatchConfig) -> (expression: Bson)
    ensures
        expression@ == stellar_formula(*config).node(),
{
    proof {
        reveal_with_fuel(Formula::node, 5);
    }
    match &config.type_key {
        Some(key) => {
            let is_text = call(
                "$eq",
                Bson::pair(call("$type", field(key.as_str())), literal(Bson::text("string"))),
            );
            let kind = call(
                "$trim",
                Bson::Document(
                    Document::new().with("input", field(key.as_str())).with(
                        "chars",
                        literal(Bson::text(SPACES)),
                    ),
                ),
            );
            choice(
                is_text,
                any_folded(kind, &config.stellar_types),
                literal(Bson::Boolean(false)),
            )
        },
        None => literal(Bson::Boolean(false)),
    }
}

/// The expression that chooses among four by the rank of a row.
pub open spec fn by_rank_node(
    config: CatalogXmatchConfig,
    coincident: Node,
    nearby: Node,
    rest: Node,
    star: Node,
) -> Node {
    let close = Node::Array(
        seq![
            finite_formula("distance_arcsec"@).node(),
            double_formula(COINCIDENT_ARCSEC).node(),
        ],
    );
    let near = Node::Array(
        seq![
            finite_formula("distance_kpc"@).node(),
            double_formula(NO_PROJECTED_DISTANCE).node(),
        ],
    );
    let others = call_node(
        "$cond"@,
        Node::Array(seq![call_node("$eq"@, near), nearby, rest]),
    );
    call_node(
        "$cond"@,
        Node::Array(
            seq![
                call_node("$lt"@, close),
                coincident,
                call_node(
                    "$cond"@,
                    Node::Array(seq![stellar_formula(config).node(), star, others]),
                ),
            ],
        ),
    )
}

fn choose_by_rank(
    config: &CatalogXmatchConfig,
    coincident: Bson,
    nearby: Bson,
    rest: Bson,
    star: Bson,
) -> (expression: Bson)
    ensures
        expression@ == by_rank_node(*config, coincident@, nearby@, rest@, star@),
{
    let close = Bson::pair(finite("distance_arcsec"), double(COINCIDENT_ARCSEC));
    let near = Bson::pair(finite("distance_kpc"), double(NO_PROJECTED_DISTANCE));
    choice(
        call("$lt", close),
        coincident,
        choice(is_star(config), star, choice(call("$eq", near), nearby, rest)),
    )
}

proof fn lemma_by_rank_node(
    config: CatalogXmatchConfig,
    coincident: Formula,
    nearby: Formula,
    rest: Formula,
    star: Formula,
)
    ensures
        by_rank(config, coincident, nearby, rest, star).node() == by_rank_node(
            config,
            coincident.node(),
            nearby.node(),
            rest.node(),
            star.node(),
        ),
{
    reveal_with_fuel(Formula::node, 4);
}

/// Writes the rank of a row.
fn rank_value(config: &CatalogXmatchConfig) -> (expression: Bson)
    ensures
        expression@ == rank_formula(*config).node(),
{
    proof {
        lemma_by_rank_node(
            *config,
            rank_constant(0),
            rank_constant(1),
            rank_constant(2),
            rank_constant(3),
        );
    }
    choose_by_rank(
        config,
        literal(Bson::Int32(0)),
        literal(Bson::Int32(1)),
        literal(Bson::Int32(2)),
        literal(Bson::Int32(3)),
    )
}

/// Writes the projected distance by which a row is ordered.
fn kpc_value(config: &CatalogXmatchConfig) -> (expression: Bson)
    ensures
        expression@ == kpc_formula(*config).node(),
{
    proof {
        let zero = *double_formula(0);
        lemma_by_rank_node(*config, zero, zero, finite_formula("distance_kpc"@), zero);
    }
    choose_by_rank(config, double(0), double(0), finite("distance_kpc"), double(0))
}

/// The stages that sort and cut the matches that were gathered, as a crossmatch does.
pub fn make_sort_trim_pipeline(config: &CatalogXmatchConfig, field: &str) -> (stages: Bson)
    requires
        config.max_results matches Some(max) ==> max <= i64::MAX,
    ensures
        stages@ == sort_trim(*config, field@),
{
    let keyed = Document::new().with("row", Bson::text("$$row")).with(
        "rank",
        rank_value(config),
    ).with("kpc", kpc_value(config)).with("arcsec", finite("distance_arcsec"));
    let source = "$".to_string().concat(field);
    let keyed_rows = Document::new().with("input", Bson::text(source.as_str())).with(
        "as",
        Bson::text("row"),
    ).with("in", Bson::Document(keyed));
    let order = Document::new().with("rank", Bson::Int32(1)).with("kpc", Bson::Int32(1)).with(
        "arcsec",
        Bson::Int32(1),
    );
    let sorted = call(
        "$sortArray",
        Bson::Document(
            Document::new().with("input", call("$map", Bson::Document(keyed_rows))).with(
                "sortBy",
                Bson::Document(order),
            ),
        ),
    );
    let rows = call(
        "$map",
        Bson::Document(
            Document::new().with("input", sorted).with("as", Bson::text("keyed")).with(
                "in",
                Bson::text("$$keyed.row"),
            ),
        ),
    );
    let value = match config.max_results {
        Some(max) => call("$slice", Bson::pair(rows, Bson::Int64(max as i64))),
        None => rows,
    };
    let stage = document("$set", document(field, value));
    let ghost wanted = stage@;
    let stages = vec![stage];
    assert(nodes(stages@) =~= seq![wanted]);
    list_of(stages)
}

impl CatalogRun {
    /// A run that starts now.
    pub fn new(catalog: &str, run_start_jd: Double) -> (run: CatalogRun)
        ensures
            run.phase == Phase::Cleaning,
            run.live_field@ == live_of(catalog@),
            run.temp_field@ == temp_of(catalog@),
            run.run_start_jd == run_start_jd,
    {
        CatalogRun {
            phase: Phase::Cleaning,
            live_field: live_field(catalog),
            temp_field: temp_field(catalog),
            run_start_jd,
        }
    }

    /// What is done on the objects in a phase.
    pub open spec fn action_of(&self, config: CatalogXmatchConfig) -> Option<
        (Seq<(Seq<char>, Node)>, Node),
    > {
        match self.phase {
            Phase::Cleaning => Some((existing(self.run_start_jd), clear_update(self.temp_field@))),
            Phase::Sorting => Some(
                (
                    filled(self.run_start_jd, self.temp_field@),
                    sort_trim(config, self.temp_field@),
                ),
            ),
            Phase::Swapping => Some(
                (existing(self.run_start_jd), swap_stages(self.live_field@, self.temp_field@)),
            ),
            _ => None,
        }
    }

    /// What is to be done on the objects now, if anything.
    pub fn action(&self, config: &CatalogXmatchConfig) -> (action: Option<BulkUpdate>)
        requires
            config.max_results matches Some(max) ==> max <= i64::MAX,
        ensures
            match action {
                Some(action) => self.action_of(*config) == Some((action.filter@, action.update@)),
                None => self.action_of(*config) is None,
            },
    {
        let existing_records = Document::new().with(
            "created_at",
            before_run_value(self.run_start_jd),
        );
        match self.phase {
            Phase::Cleaning => {
                let none: Vec<Bson> = Vec::new();
                assert(nodes(none@) =~= Seq::empty());
                Some(
                    BulkUpdate {
                        filter: existing_records,
                        update: document(
                            "$set",
                            document(self.temp_field.as_str(), list_of(none)),
                        ),
                    },
                )
            },
            Phase::Sorting => {
                let first = self.temp_field.clone().concat(".0");
                Some(
                    BulkUpdate {
                        filter: existing_records.with(
                            first.as_str(),
                            document("$exists", Bson::Boolean(true)),
                        ),
                        update: make_sort_trim_pipeline(config, self.temp_field.as_str()),
                    },
                )
            },
            Phase::Swapping => {
                let source = "$".to_string().concat(self.temp_field.as_str());
                let set = document(
                    "$set",
                    document(self.live_field.as_str(), Bson::text(source.as_str())),
                );
                let unset = document("$unset", Bson::text(self.temp_field.as_str()));
                Some(BulkUpdate { filter: existing_records, update: Bson::pair(set, unset) })
            },
            _ => None,
        }
    }

    /// Takes note of how the workers over the catalog's rows ended, and tells which of them
    /// stops the run. The buffers are sorted and made live only when every one finished.
    pub fn streamed(&mut self, outcomes: &Vec<WorkerOutcome>) -> (at: Option<usize>)
        requires
            old(self).phase == Phase::Streaming,
        ensures
            final(self).phase == if forall|i: int|
                0 <= i < outcomes@.len() ==> #[trigger] outcomes@[i] == WorkerOutcome::Finished {
                Phase::Sorting
            } else {
                Phase::Failed
            },
            at is None <==> final(self).phase == Phase::Sorting,
            at matches Some(at) ==> {
                &&& at < outcomes@.len()
                &&& outcomes@[at as int] != WorkerOutcome::Finished
                &&& forall|i: int|
                    0 <= i < at ==> #[trigger] outcomes@[i] == WorkerOutcome::Finished
            },
            final(self).live_field == old(self).live_field,
            final(self).temp_field == old(self).temp_field,
            final(self).run_start_jd == old(self).run_start_jd,
    {
        let at = first_failure(outcomes);
        self.advance(at.is_none());
        at
    }

    /// Takes note of how a phase ended.
    pub fn advance(&mut self, ok: bool)
        ensures
            final(self).phase == phase_after(old(self).phase, ok),
            final(self).live_field == old(self).live_field,
            final(self).temp_field == old(self).temp_field,
            final(self).run_start_jd == old(self).run_start_jd,
    {
        self.phase = match self.phase {
            Phase::Done => Phase::Done,
            Phase::Failed => Phase::Failed,
            _ => if !ok {
                Phase::Failed
            } else {
                match self.phase {
                    Phase::Cleaning => Phase::Streaming,
                    Phase::Streaming => Phase::Sorting,
                    Phase::Sorting => Phase::Swapping,
                    _ => Phase::Done,
                }
            },
        };
    }
}

/// A run that failed does nothing more on the objects, so that their live matches stay what
/// they were.
pub proof fn a_failed_run_does_nothing_more(run: CatalogRun, config: CatalogXmatchConfig, ok: bool)
    requires
        run.phase == Phase::Failed,
    ensures
        run.action_of(config) is None,
        phase_after(run.phase, ok) == Phase::Failed,
{
}

/// Whatever is done on the objects is done only on those that existed when the run
/// started.
pub proof fn records_of_the_run_are_not_touched(run: CatalogRun, config: CatalogXmatchConfig)
    requires
        run.action_of(config) is Some,
        run.temp_field@ == temp_of(config.catalog@),
    ensures
        run.action_of(config) matches Some((filter, _)) && lookup(filter, "created_at"@) == Some(
            before_run(run.run_start_jd),
        ),
{
    let base = existing(run.run_start_jd);
    what_was_set_is_read_back(no_fields(), "created_at"@, before_run(run.run_start_jd));
    let first = run.temp_field@ + ".0"@;
    reveal_strlit("created_at");
    reveal_strlit("cross_matches.");
    reveal_strlit("_temp");
    reveal_strlit(".0");
    assert("created_at"@[1] == 'r' && "created_at"@[2] == 'e');
    assert("cross_matches."@[2] == 'o');
    assert(first[2] == 'o');
    setting_a_name_leaves_the_others(
        base,
        first,
        Node::Document(only("$exists"@, Node::Boolean(true))),
        "created_at"@,
    );
}

/// The columns of the catalog that are read: those that are stored, and those that are
/// needed to match.
pub open spec fn columns_of(config: CatalogXmatchConfig) -> Seq<(Seq<char>, Node)> {
    let base = put(
        put(put(config.projection@, "_id"@, Node::Int32(1)), "ra"@, Node::Int32(1)),
        "dec"@,
        Node::Int32(1),
    );
    match config.distance_key {
        Some(key) => put(base, key@, Node::Int32(1)),
        None => base,
    }
}

pub fn catalog_columns(config: &CatalogXmatchConfig) -> (columns: Document)
    ensures
        columns@ == columns_of(*config),
{
    let mut columns = config.projection.copy();
    columns.insert("_id", Bson::Int32(1));
    columns.insert("ra", Bson::Int32(1));
    columns.insert("dec", Bson::Int32(1));
    match &config.distance_key {
        Some(key) => {
            columns.insert(key.as_str(), Bson::Int32(1));
        },
        None => {},
    }
    columns
}

/// A row of a catalog that can be matched.
#[derive(Clone, Copy, Debug, PartialEq, Eq, Structural)]
pub struct CatalogRow {
    pub ra: Double,
    pub dec: Double,
    /// The redshift, for catalogs that match on distance.
    pub z: Option<Double>,
}

/// The position and the redshift of a row. One without a position, or without the
/// redshift that its catalog matches on, cannot be matched.
pub open spec fn catalog_row_of(
    config: CatalogXmatchConfig,
    fields: Seq<(Seq<char>, Node)>,
) -> Option<CatalogRow> {
    match (finite_of(fields, "ra"@), finite_of(fields, "dec"@)) {
        (Some(ra), Some(dec)) => if config.use_distance {
            match finite_of(fields, config.distance_key->0@) {
                Some(z) => Some(CatalogRow { ra, dec, z: Some(z) }),
                None => None,
            }
        } else {
            Some(CatalogRow { ra, dec, z: None })
        },
        _ => None,
    }
}

pub fn read_catalog_row(config: &CatalogXmatchConfig, doc: &Document) -> (row: Option<CatalogRow>)
    requires
        config.use_distance ==> config.distance_key is Some,
    ensures
        row == catalog_row_of(*config, doc@),
{
    let (ra, dec) = match (get_f64_from_doc(doc, "ra"), get_f64_from_doc(doc, "dec")) {
        (Some(ra), Some(dec)) => (ra, dec),
        _ => {
            return None;
        },
    };
    if !config.use_distance {
        return Some(CatalogRow { ra, dec, z: None });
    }
    match &config.distance_key {
        Some(key) => match get_f64_from_doc(doc, key.as_str()) {
            Some(z) => Some(CatalogRow { ra, dec, z: Some(z) }),
            None => None,
        },
        None => None,
    }
}

/// The filter for the objects round a row that existed when the run started.
pub open spec fn objects_round(
    config: CatalogXmatchConfig,
    longitude: Double,
    dec: Double,
    run_start_jd: Double,
) -> Seq<(Seq<char>, Node)> {
    put(
        only("coordinates.radec_geojson"@, cone_node(longitude, dec, config.radius)),
        "created_at"@,
        before_run(run_start_jd),
    )
}

/// Nor is a row matched with an object that did not exist when the run started.
pub proof fn records_of_the_run_are_not_matched(
    config: CatalogXmatchConfig,
    longitude: Double,
    dec: Double,
    run_start_jd: Double,
)
    ensures
        lookup(objects_round(config, longitude, dec, run_start_jd), "created_at"@) == Some(
            before_run(run_start_jd),
        ),
{
    what_was_set_is_read_back(
        only("coordinates.radec_geojson"@, cone_node(longitude, dec, config.radius)),
        "created_at"@,
        before_run(run_start_jd),
    );
}

/// Asks for the objects round a row. `longitude` is the row's right ascension minus 180.
pub fn aux_filter(
    config: &CatalogXmatchConfig,
    longitude: Double,
    dec: Double,
    run_start_jd: Double,
) -> (filter: Document)
    ensures
        filter@ == objects_round(*config, longitude, dec, run_start_jd),
{
    Document::new().with(
        "coordinates.radec_geojson",
        cone_value(longitude, dec, config.radius),
    ).with("created_at", before_run_value(run_start_jd))
}

/// A match of a row with an object.
#[derive(Clone, Copy, Debug, PartialEq, Eq, Structural)]
pub struct CatalogMatch {
    /// Which row.
    pub row: usize,
    pub distance_arcsec: Double,
    pub distance_kpc: Option<Double>,
}

/// What is stored on a row that matches: its distances.
pub open spec fn match_marks(found: CatalogMatch) -> Seq<(Seq<char>, Node)> {
    let apart = only("distance_arcsec"@, Node::Double(found.distance_arcsec));
    match found.distance_kpc {
        Some(kpc) => put(apart, "distance_kpc"@, Node::Double(kpc)),
        None => apart,
    }
}

pub fn match_fields(found: &CatalogMatch) -> (fields: Document)
    ensures
        fields@ == match_marks(*found),
{
    let apart = Document::new().with("distance_arcsec", Bson::Double(found.distance_arcsec));
    match found.distance_kpc {
        Some(kpc) => apart.with("distance_kpc", Bson::Double(kpc)),
        None => apart,
    }
}

/// The match of a row with an object at a distance; nothing when the row has a redshift
/// and the object is not within the radius for it. `scaled_radius` is
/// `distance_max * 0.05 / z` and `scaled_distance` is `distance_arcsec * z / 0.05`.
pub open spec fn match_of(
    config: CatalogXmatchConfig,
    row: usize,
    z: Option<Double>,
    distance_arcsec: Double,
    scaled_radius: Double,
    scaled_distance: Double,
) -> Option<CatalogMatch> {
    match z {
        Some(z) => if distance_radius(z, scaled_radius, config.distance_max_near->0).at_most(
            distance_arcsec,
        ) {
            None
        } else {
            Some(
                CatalogMatch {
                    row,
                    distance_arcsec,
                    distance_kpc: Some(projected_distance(z, scaled_distance)),
                },
            )
        },
        None => Some(CatalogMatch { row, distance_arcsec, distance_kpc: None }),
    }
}

pub fn match_row(
    config: &CatalogXmatchConfig,
    row: usize,
    z: Option<Double>,
    distance_arcsec: Double,
    scaled_radius: Double,
    scaled_distance: Double,
) -> (found: Option<CatalogMatch>)
    requires
        z is Some ==> config.distance_max_near is Some,
    ensures
        found == match_of(*config, row, z, distance_arcsec, scaled_radius, scaled_distance),
{
    match (z, config.distance_max_near) {
        (Some(z), Some(near)) => {
            if cm_radius_arcsec(z, scaled_radius, near).le(distance_arcsec) {
                return None;
            }
            Some(
                CatalogMatch {
                    row,
                    distance_arcsec,
                    distance_kpc: Some(distance_kpc_from_arcsec(z, scaled_distance)),
                },
            )
        },
        _ => Some(CatalogMatch { row, distance_arcsec, distance_kpc: None }),
    }
}

/// The longitude and latitude under `coordinates.radec_geojson.coordinates`.
pub open spec fn lonlat_of(fields: Seq<(Seq<char>, Node)>) -> Option<(Double, Double)> {
    match lookup(fields, "coordinates"@) {
        Some(Node::Document(outer)) => match lookup(outer, "radec_geojson"@) {
            Some(Node::Document(inner)) => match lookup(inner, "coordinates"@) {
                Some(Node::Array(pair)) => if pair.len() == 2 {
                    match (pair[0], pair[1]) {
                        (Node::Double(a), Node::Double(b)) => if a.is_finite_spec()
                            && b.is_finite_spec() {
                            Some((a, b))
                        } else {
                            None
                        },
                        _ => None,
                    }
                } else {
                    None
                },
                _ => None,
            },
            _ => None,
        },
        _ => None,
    }
}

/// Reads the right ascension and the declination of an object. `shift` gives the right
/// ascension for a stored longitude: it adds 180.
pub fn extract_radec<F: Fn(Double) -> Double>(doc: &Document, shift: &F) -> (radec: Option<
    (Double, Double),
>)
    requires
        lonlat_of(doc@) matches Some((longitude, _)) ==> call_requires(*shift, (longitude,)),
    ensures
        match lonlat_of(doc@) {
            Some((longitude, latitude)) => radec matches Some((ra, dec)) && call_ensures(
                *shift,
                (longitude,),
                ra,
            ) && dec == latitude,
            None => radec is None,
        },
{
    let outer = match doc.get("coordinates") {
        Some(value) => match value {
            Bson::Document(outer) => outer,
            _ => {
                return None;
            },
        },
        None => {
            return None;
        },
    };
    let inner = match outer.get("radec_geojson") {
        Some(value) => match value {
            Bson::Document(inner) => inner,
            _ => {
                return None;
            },
        },
        None => {
            return None;
        },
    };
    match inner.get("coordinates") {
        Some(value) => match value {
            Bson::Array(pair) => {
                let ghost held = value@->Array_0;
                assert(held.len() == pair@.len());
                if pair.len() != 2 {
                    return None;
                }
                assert(held[0] == pair@[0]@ && held[1] == pair@[1]@);
                match (&pair[0], &pair[1]) {
                    (Bson::Double(a), Bson::Double(b)) => {
                        if a.is_finite() && b.is_finite() {
                            Some((shift(*a), *b))
                        } else {
                            None
                        }
                    },
                    _ => None,
                }
            },
            _ => None,
        },
        None => None,
    }
}

/// The matches that one worker has gathered and not written, by object.
#[derive(Debug)]
pub struct Pending {
    pub matches: Named<Vec<CatalogMatch>>,
    /// Number of rows read.
    pub cat_count: u64,
}

impl Pending {
    pub fn new() -> (pending: Pending)
        ensures
            pending.matches.lists() == Seq::<(Seq<char>, Seq<CatalogMatch>)>::empty(),
            pending.cat_count == 0,
    {
        let matches: Named<Vec<CatalogMatch>> = Named::new();
        assert(matches.lists() =~= Seq::<(Seq<char>, Seq<CatalogMatch>)>::empty());
        Pending { matches, cat_count: 0 }
    }

    /// Adds a match of an object.
    pub fn gather(&mut self, object_id: &str, found: CatalogMatch)
        ensures
            final(self).cat_count == old(self).cat_count,
            final(self).matches.lists() == put(
                old(self).matches.lists(),
                object_id@,
                listed(old(self).matches.lists(), object_id@).push(found),
            ),
    {
        self.matches.append(object_id, found);
    }

    /// Takes note that a row was read.
    pub fn count_row(&mut self)
        requires
            old(self).cat_count < u64::MAX,
        ensures
            final(self).cat_count == old(self).cat_count + 1,
            final(self).matches == old(self).matches,
    {
        self.cat_count = self.cat_count + 1;
    }

    /// Whether it is time to write: after every batch of rows, if anything was found.
    pub fn is_due(&self, batch_size: usize) -> (due: bool)
        requires
            batch_size > 0,
        ensures
            due == (self.cat_count as int % batch_size as int == 0
                && self.matches.lists().len() > 0),
    {
        self.cat_count % batch_size as u64 == 0 && self.matches.entries.len() > 0
    }

    /// Hands out what was gathered and starts afresh.
    pub fn drain(&mut self) -> (matches: Named<Vec<CatalogMatch>>)
        ensures
            matches == old(self).matches,
            final(self).cat_count == old(self).cat_count,
            final(self).matches.lists() == Seq::<(Seq<char>, Seq<CatalogMatch>)>::empty(),
    {
        let mut matches: Named<Vec<CatalogMatch>> = Named::new();
        std::mem::swap(&mut matches, &mut self.matches);
        assert(self.matches.lists() =~= Seq::<(Seq<char>, Seq<CatalogMatch>)>::empty());
        matches
    }
}

/// How a worker ended.
#[derive(Clone, Copy, Debug, PartialEq, Eq, Structural)]
pub enum WorkerOutcome {
    Finished,
    Failed,
    /// It could not be joined, so that nobody knows what it did.
    Lost,
}

/// The first worker over a catalog's rows that did not finish, if any. Its rows may be
/// missing from some buffers, so the run stops before a buffer can become live.
pub fn first_failure(outcomes: &Vec<WorkerOutcome>) -> (at: Option<usize>)
    ensures
        at is None <==> forall|i: int|
            0 <= i < outcomes@.len() ==> #[trigger] outcomes@[i] == WorkerOutcome::Finished,
        at matches Some(at) ==> {
            &&& at < outcomes@.len()
            &&& outcomes@[at as int] != WorkerOutcome::Finished
            &&& forall|i: int|
                0 <= i < at ==> #[trigger] outcomes@[i] == WorkerOutcome::Finished
        },
{
    let mut i: usize = 0;
    while i < outcomes.len()
        invariant
            i <= outcomes@.len(),
            forall|k: int| 0 <= k < i ==> #[trigger] outcomes@[k] == WorkerOutcome::Finished,
        decreases outcomes.len() - i,
    {
        if outcomes[i] != WorkerOutcome::Finished {
            return Some(i);
        }
        i = i + 1;
    }
    None
}

/// The first worker over a survey's objects that failed, if any. An object is written with
/// all its matches at once, so those that a lost worker did not reach keep what they had,
/// and losing one does not fail the run.
pub fn first_error(outcomes: &Vec<WorkerOutcome>) -> (at: Option<usize>)
    ensures
        at is None <==> forall|i: int|
            0 <= i < outcomes@.len() ==> #[trigger] outcomes@[i] != WorkerOutcome::Failed,
        at matches Some(at) ==> {
            &&& at < outcomes@.len()
            &&& outcomes@[at as int] == WorkerOutcome::Failed
            &&& forall|i: int| 0 <= i < at ==> #[trigger] outcomes@[i] != WorkerOutcome::Failed
        },
{
    let mut i: usize = 0;
    while i < outcomes.len()
        invariant
            i <= outcomes@.len(),
            forall|k: int| 0 <= k < i ==> #[trigger] outcomes@[k] != WorkerOutcome::Failed,
        decreases outcomes.len() - i,
    {
        if outcomes[i] == WorkerOutcome::Failed {
            return Some(i);
        }
        i = i + 1;
    }
    None
}

}
