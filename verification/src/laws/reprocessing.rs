//! How the crossmatches of a survey's objects are reprocessed.
use vstd::prelude::*;

use crate::binary::Double;
use crate::conf::CatalogXmatchConfig;
use crate::document::{only, Bson, Document, Node};
use crate::formula::{finite_formula, Formula};
use crate::laws::alerts::lemma_only;
use crate::named::{
    listed, lookup, put, setting_a_name_leaves_the_others, what_was_set_is_read_back, Named,
};
use crate::reprocess::{
    aux_collection, aux_filter, catalog_columns, existing, extract_radec, fills, filled,
    first_error, first_failure, in_direction, keyed_rows, kept_with, kpc_formula, live_field,
    live_of, make_sort_trim_pipeline, match_fields, match_row, object_fields, object_filter,
    object_update, phase_after, queue_capacity, rank_formula, read_catalog_row, resolve_catalogs,
    sorted_value, split_by_direction, temp_field, BulkUpdate, CatalogMatch, CatalogRow, CatalogRun,
    Direction, Pending, Phase, WorkerOutcome,
};
use crate::utils::enums::Survey;
use crate::utils::spatial::{catalog_at, finite_of, Kept};

verus! {

/// Whether a catalog is read once as a whole: it was asked for, or the side to loop over is
/// left open and the catalog has fewer rows than the survey has objects.
pub open spec fn read_as_a_whole(direction: Direction, objects: u64, rows: u64) -> bool {
    direction == Direction::Catalog || (direction == Direction::Auto && rows < objects)
}

proof fn lemma_in_direction(
    direction: Direction,
    wanted: Direction,
    counts: Seq<(u64, u64)>,
    n: nat,
)
    requires
        n <= counts.len() <= usize::MAX,
        wanted != Direction::Auto,
    ensures
        ({
            let picked = in_direction(direction, wanted, counts, n);
            &&& forall|k: int|
                0 <= k < picked.len() ==> (#[trigger] picked[k]) < n && read_as_a_whole(
                    direction,
                    counts[picked[k] as int].0,
                    counts[picked[k] as int].1,
                ) == (wanted == Direction::Catalog)
            &&& forall|k: int, m: int|
                0 <= k < m < picked.len() ==> #[trigger] picked[k] < #[trigger] picked[m]
            &&& forall|i: int|
                0 <= i < n && #[trigger] read_as_a_whole(direction, counts[i].0, counts[i].1) == (
                wanted == Direction::Catalog) ==> picked.contains(i as usize)
        }),
    decreases n,
{
    if n > 0 {
        let before = in_direction(direction, wanted, counts, (n - 1) as nat);
        lemma_in_direction(direction, wanted, counts, (n - 1) as nat);
        let picked = in_direction(direction, wanted, counts, n);
        assert forall|i: int|
            0 <= i < n && #[trigger] read_as_a_whole(direction, counts[i].0, counts[i].1) == (wanted
                == Direction::Catalog) implies picked.contains(i as usize) by {
            if i < n - 1 {
                let k = choose|k: int| 0 <= k < before.len() && before[k] == i as usize;
                assert(picked[k] == i as usize);
            } else {
                assert(picked[before.len() as int] == i as usize);
            }
        }
    }
}

/// Every catalog is processed once and from one side: read as a whole, or once per object.
/// Both lists keep the order of the catalogs.
pub proof fn every_catalog_is_processed_from_one_side(
    direction: Direction,
    counts: Vec<(u64, u64)>,
    split: (Vec<usize>, Vec<usize>),
)
    requires
        call_ensures(split_by_direction, (direction, &counts), split),
        counts@.len() <= usize::MAX,
    ensures
        forall|i: int|
            0 <= i < counts@.len() ==> {
                let whole = #[trigger] read_as_a_whole(direction, counts@[i].0, counts@[i].1);
                &&& whole <==> split.1@.contains(i as usize)
                &&& !whole <==> split.0@.contains(i as usize)
            },
        forall|k: int, m: int|
            0 <= k < m < split.0@.len() ==> #[trigger] split.0@[k] < #[trigger] split.0@[m],
        forall|k: int, m: int|
            0 <= k < m < split.1@.len() ==> #[trigger] split.1@[k] < #[trigger] split.1@[m],
        split.0@.len() <= counts@.len() && split.1@.len() <= counts@.len(),
{
    lemma_in_direction(direction, Direction::Objects, counts@, counts@.len());
    lemma_in_direction(direction, Direction::Catalog, counts@, counts@.len());
    lemma_in_direction_bound(direction, Direction::Objects, counts@, counts@.len());
    lemma_in_direction_bound(direction, Direction::Catalog, counts@, counts@.len());
}

proof fn lemma_in_direction_bound(
    direction: Direction,
    wanted: Direction,
    counts: Seq<(u64, u64)>,
    n: nat,
)
    ensures
        in_direction(direction, wanted, counts, n).len() <= n,
    decreases n,
{
    if n > 0 {
        lemma_in_direction_bound(direction, wanted, counts, (n - 1) as nat);
    }
}

proof fn lemma_catalog_at(configs: Seq<CatalogXmatchConfig>, name: Seq<char>)
    ensures
        0 <= catalog_at(configs, name) <= configs.len(),
        catalog_at(configs, name) < configs.len() ==> configs[catalog_at(configs, name)].catalog@
            == name,
        forall|k: int|
            0 <= k < catalog_at(configs, name) ==> (#[trigger] configs[k]).catalog@ != name,
    decreases configs.len(),
{
    if configs.len() > 0 && configs[0].catalog@ != name {
        let rest = configs.drop_first();
        lemma_catalog_at(rest, name);
        assert forall|k: int| 0 <= k < catalog_at(configs, name) implies (
        #[trigger] configs[k]).catalog@ != name by {
            if k > 0 {
                assert(rest[k - 1] == configs[k]);
            }
        }
    }
}

/// Catalogs are looked up by name: the first that has it. The first name that no catalog has
/// is refused, with where it was looked for.
pub proof fn catalogs_are_looked_up_by_name(
    configs: Vec<CatalogXmatchConfig>,
    names: Vec<String>,
    survey: Survey,
    path: &str,
    resolved: Result<Vec<usize>, String>,
)
    requires
        call_ensures(resolve_catalogs, (&configs, &names, survey, path), resolved),
    ensures
        resolved matches Ok(at) ==> {
            &&& at@.len() == names@.len()
            &&& forall|i: int|
                0 <= i < at@.len() ==> {
                    let found = #[trigger] at@[i] as int;
                    &&& found < configs@.len()
                    &&& configs@[found].catalog@ == names@[i]@
                    &&& forall|k: int|
                        0 <= k < found ==> (#[trigger] configs@[k]).catalog@ != names@[i]@
                }
        },
        resolved matches Err(message) ==> exists|i: int|
            {
                &&& 0 <= i < names@.len()
                &&& message@ == "catalog '"@ + (#[trigger] names@[i])@
                    + "' not declared under crossmatch."@ + (match survey {
                    Survey::Ztf => "ztf"@,
                    Survey::Lsst => "lsst"@,
                    Survey::Decam => "decam"@,
                }) + " in "@ + path@
                &&& forall|k: int|
                    0 <= k < configs@.len() ==> (#[trigger] configs@[k]).catalog@ != names@[i]@
                &&& forall|m: int|
                    0 <= m < i ==> exists|k: int|
                        0 <= k < configs@.len() && (#[trigger] configs@[k]).catalog@ == (
                        #[trigger] names@[m])@
            },
{
    match resolved {
        Ok(at) => {
            assert forall|i: int| 0 <= i < at@.len() implies {
                let found = #[trigger] at@[i] as int;
                &&& found < configs@.len()
                &&& configs@[found].catalog@ == names@[i]@
                &&& forall|k: int|
                    0 <= k < found ==> (#[trigger] configs@[k]).catalog@ != names@[i]@
            } by {
                lemma_catalog_at(configs@, names@[i]@);
            }
        },
        Err(message) => {
            let i = choose|i: int|
                {
                    &&& 0 <= i < names@.len()
                    &&& #[trigger] catalog_at(configs@, names@[i]@) == configs@.len()
                    &&& forall|k: int|
                        0 <= k < i ==> #[trigger] catalog_at(configs@, names@[k]@)
                            < configs@.len()
                    &&& message@ == "catalog '"@ + names@[i]@
                        + "' not declared under crossmatch."@ + survey.lower_name() + " in "@
                        + path@
                };
            lemma_catalog_at(configs@, names@[i]@);
            assert forall|m: int| 0 <= m < i implies exists|k: int|
                0 <= k < configs@.len() && (#[trigger] configs@[k]).catalog@ == (
                #[trigger] names@[m])@ by {
                lemma_catalog_at(configs@, names@[m]@);
                let at = catalog_at(configs@, names@[m]@);
                assert(at < configs@.len());
                assert(configs@[at].catalog@ == names@[m]@);
            }
            assert(names@[i]@ == names@[i]@);
        },
    }
}

/// The queue holds two batches for every worker.
pub proof fn the_queue_holds_two_batches_per_worker(
    processes: usize,
    batch_size: usize,
    capacity: usize,
)
    requires
        call_ensures(queue_capacity, (processes, batch_size), capacity),
    ensures
        capacity == (processes * batch_size) * 2,
{
}

/// Where things are kept: the objects of a survey, the matches of an object in a catalog,
/// and the buffer that gathers them, which is another field.
pub proof fn where_matches_are_kept(
    survey: Survey,
    catalog: &str,
    object_id: &str,
    collection: String,
    live: String,
    temp: String,
    filter: Document,
)
    requires
        call_ensures(aux_collection, (survey,), collection),
        call_ensures(live_field, (catalog,), live),
        call_ensures(temp_field, (catalog,), temp),
        call_ensures(object_filter, (object_id,), filter),
    ensures
        collection@ == match survey {
            Survey::Ztf => "ZTF"@ + "_alerts_aux"@,
            Survey::Lsst => "LSST"@ + "_alerts_aux"@,
            Survey::Decam => "DECAM"@ + "_alerts_aux"@,
        },
        live@ == "cross_matches."@ + catalog@,
        temp@ == live@ + "_temp"@,
        temp@ != live@,
        filter@ == seq![("_id"@, Node::Text(object_id@))],
{
    reveal_strlit("_temp");
    assert(temp@.len() == live@.len() + 5);
    lemma_only("_id"@, Node::Text(object_id@));
}

proof fn lemma_object_fields(
    configs: Seq<CatalogXmatchConfig>,
    found: Seq<(Seq<char>, Seq<Kept>)>,
    n: nat,
    name: Seq<char>,
)
    requires
        n <= configs.len(),
    ensures
        (exists|i: int| 0 <= i < n && "cross_matches."@ + (#[trigger] configs[i]).catalog@ == name)
            ==> lookup(object_fields(configs, found, n), name) is Some,
        !(exists|i: int|
            0 <= i < n && "cross_matches."@ + (#[trigger] configs[i]).catalog@ == name) ==> lookup(
            object_fields(configs, found, n),
            name,
        ) is None,
        lookup(object_fields(configs, found, n), name) matches Some(items) ==> exists|i: int|
            0 <= i < n && "cross_matches."@ + (#[trigger] configs[i]).catalog@ == name && items
                == listed(found, configs[i].catalog@),
    decreases n,
{
    if n > 0 {
        let before = object_fields(configs, found, (n - 1) as nat);
        lemma_object_fields(configs, found, (n - 1) as nat, name);
        let key = live_of(configs[n - 1].catalog@);
        let items = listed(found, configs[n - 1].catalog@);
        if key == name {
            what_was_set_is_read_back(before, key, items);
            assert("cross_matches."@ + configs[n - 1].catalog@ == name);
        } else {
            setting_a_name_leaves_the_others(before, key, items, name);
        }
    }
}

proof fn lemma_same_tail(head: Seq<char>, a: Seq<char>, b: Seq<char>)
    requires
        head + a == head + b,
    ensures
        a == b,
{
    assert(a =~= (head + a).skip(head.len() as int));
    assert(b =~= (head + b).skip(head.len() as int));
}

/// An object is set the matches that were found in each catalog, under the field of that
/// catalog: none where none were found, and no other field.
pub proof fn objects_are_set_their_matches(
    configs: &[CatalogXmatchConfig],
    found: Named<Vec<Kept>>,
    fields: Named<Vec<Kept>>,
    name: Seq<char>,
    i: int,
)
    requires
        call_ensures(object_update, (configs, &found), fields),
        0 <= i < configs@.len(),
    ensures
        lookup(fields.lists(), "cross_matches."@ + configs@[i].catalog@) == Some(
            match lookup(found.lists(), configs@[i].catalog@) {
                Some(items) => items,
                None => Seq::empty(),
            },
        ),
        lookup(fields.lists(), name) is Some ==> exists|k: int|
            0 <= k < configs@.len() && "cross_matches."@ + (#[trigger] configs@[k]).catalog@ == name,
{
    let own = "cross_matches."@ + configs@[i].catalog@;
    lemma_object_fields(configs@, found.lists(), configs@.len(), own);
    lemma_object_fields(configs@, found.lists(), configs@.len(), name);
    assert("cross_matches."@ + configs@[i].catalog@ == own);
    let k = choose|k: int|
        0 <= k < configs@.len() && "cross_matches."@ + (#[trigger] configs@[k]).catalog@ == own
            && lookup(fields.lists(), own) == Some(listed(found.lists(), configs@[k].catalog@));
    lemma_same_tail("cross_matches."@, configs@[k].catalog@, configs@[i].catalog@);
}

/// A batch is handed on with the object that fills it, and a batch that is not full goes on.
pub proof fn batches_are_handed_on_when_full<T>(batch_size: nat, held: Seq<T>, item: T)
    requires
        held.len() < batch_size,
    ensures
        fills(batch_size, held) <==> held.push(item).len() == batch_size,
        !fills(batch_size, held) ==> kept_with(batch_size, held, item) == held.push(item),
        fills(batch_size, held) ==> kept_with(batch_size, held, item).len() == 0,
{
}

/// The phases of a run follow one another, and a failure ends it.
pub proof fn phases_follow_one_another(phase: Phase)
    ensures
        phase_after(Phase::Cleaning, true) == Phase::Streaming,
        phase_after(Phase::Streaming, true) == Phase::Sorting,
        phase_after(Phase::Sorting, true) == Phase::Swapping,
        phase_after(Phase::Swapping, true) == Phase::Done,
        phase_after(Phase::Done, true) == Phase::Done && phase_after(Phase::Done, false)
            == Phase::Done,
        phase != Phase::Done ==> phase_after(phase, false) == Phase::Failed,
        phase_after(Phase::Failed, true) == Phase::Failed,
{
}

/// Whether a filter asks for the records that existed when a run started, and for nothing
/// else of them.
pub open spec fn asks_for_existing(filter: Seq<(Seq<char>, Node)>, run_start_jd: Double) -> bool {
    filter == seq![
        ("created_at"@, Node::Document(seq![("$lt"@, Node::Double(run_start_jd))])),
    ]
}

proof fn lemma_existing(run_start_jd: Double)
    ensures
        asks_for_existing(existing(run_start_jd), run_start_jd),
{
    lemma_only("$lt"@, Node::Double(run_start_jd));
    lemma_only(
        "created_at"@,
        Node::Document(seq![("$lt"@, Node::Double(run_start_jd))]),
    );
}

/// A run empties the buffers, sorts those that hold something, and makes them live, each on
/// the records that existed when it started. In the other phases it does nothing on them.
pub proof fn what_a_run_does_in_each_phase(
    run: CatalogRun,
    config: CatalogXmatchConfig,
    action: Option<BulkUpdate>,
    field: &str,
    stages: Bson,
)
    requires
        call_ensures(CatalogRun::action, (&run, &config), action),
        call_ensures(make_sort_trim_pipeline, (&config, field), stages),
        field@ == run.temp_field@,
        run.temp_field@ != "created_at"@,
        run.temp_field@ + ".0"@ != "created_at"@,
    ensures
        match run.phase {
            Phase::Cleaning => action matches Some(action) && asks_for_existing(
                action.filter@,
                run.run_start_jd,
            ) && action.update@ == Node::Document(
                seq![
                    (
                        "$set"@,
                        Node::Document(seq![(run.temp_field@, Node::Array(Seq::empty()))]),
                    ),
                ],
            ),
            Phase::Swapping => action matches Some(action) && asks_for_existing(
                action.filter@,
                run.run_start_jd,
            ) && action.update@ == Node::Array(
                seq![
                    Node::Document(
                        seq![
                            (
                                "$set"@,
                                Node::Document(
                                    seq![(run.live_field@, Node::Text("$"@ + run.temp_field@))],
                                ),
                            ),
                        ],
                    ),
                    Node::Document(seq![("$unset"@, Node::Text(run.temp_field@))]),
                ],
            ),
            Phase::Sorting => action matches Some(action) && action.update@ == stages@
                && action.filter@ == seq![
                ("created_at"@, Node::Document(seq![("$lt"@, Node::Double(run.run_start_jd))])),
                (
                    run.temp_field@ + ".0"@,
                    Node::Document(seq![("$exists"@, Node::Boolean(true))]),
                ),
            ],
            Phase::Streaming => action is None,
            Phase::Done => action is None,
            Phase::Failed => action is None,
        },
{
    lemma_existing(run.run_start_jd);
    let temp = run.temp_field@;
    lemma_only("$exists"@, Node::Boolean(true));
    lemma_only(
        "created_at"@,
        Node::Document(seq![("$lt"@, Node::Double(run.run_start_jd))]),
    );
    let base = existing(run.run_start_jd);
    assert(lookup(base, temp + ".0"@) is None);
    assert(filled(run.run_start_jd, temp) =~= seq![
        ("created_at"@, Node::Document(seq![("$lt"@, Node::Double(run.run_start_jd))])),
        (temp + ".0"@, Node::Document(seq![("$exists"@, Node::Boolean(true))])),
    ]);
    lemma_only(temp, Node::Array(Seq::empty()));
    lemma_only("$set"@, Node::Document(seq![(temp, Node::Array(Seq::empty()))]));
    lemma_only(run.live_field@, Node::Text("$"@ + temp));
    lemma_only("$set"@, Node::Document(seq![(run.live_field@, Node::Text("$"@ + temp))]));
    lemma_only("$unset"@, Node::Text(temp));
}

proof fn lemma_two(first: Seq<char>, a: Node, second: Seq<char>, b: Node)
    requires
        first != second,
    ensures
        put(only(first, a), second, b) == seq![(first, a), (second, b)],
        forall|name: Seq<char>|
            name != first && name != second ==> #[trigger] lookup(
                put(only(first, a), second, b),
                name,
            ) is None,
{
    lemma_only(first, a);
    let entries = only(first, a);
    assert(lookup(entries, second) is None);
    assert(put(entries, second, b) =~= seq![(first, a), (second, b)]);
    assert forall|name: Seq<char>| name != first && name != second implies #[trigger] lookup(
        put(entries, second, b),
        name,
    ) is None by {
        setting_a_name_leaves_the_others(entries, second, b, name);
    }
}

proof fn lemma_three(
    first: Seq<char>,
    a: Node,
    second: Seq<char>,
    b: Node,
    third: Seq<char>,
    c: Node,
)
    requires
        first != second,
        first != third,
        second != third,
    ensures
        put(put(only(first, a), second, b), third, c) == seq![
            (first, a),
            (second, b),
            (third, c),
        ],
{
    lemma_two(first, a, second, b);
    let entries = put(only(first, a), second, b);
    assert(lookup(entries, third) is None);
    assert(put(entries, third, c) =~= seq![(first, a), (second, b), (third, c)]);
}

/// An operator and its argument.
pub open spec fn applied(operator: Seq<char>, argument: Node) -> Node {
    Node::Document(seq![(operator, argument)])
}

/// Expressions are written with the operators of the database: a value that stands for
/// itself, a field of the row by its name, tests of kinds, comparisons, conditions and trims.
pub proof fn how_expressions_are_written(a: Formula, b: Formula, c: Formula, value: Node, key: Seq<char>)
    ensures
        Formula::Constant(value).node() == applied("$literal"@, value),
        Formula::Field(key).node() == applied(
            "$getField"@,
            Node::Document(
                seq![
                    ("field"@, applied("$literal"@, Node::Text(key))),
                    ("input"@, Node::Text("$$row"@)),
                ],
            ),
        ),
        Formula::IsNumber(Box::new(a)).node() == applied(
            "$in"@,
            Node::Array(
                seq![
                    applied("$type"@, a.node()),
                    applied(
                        "$literal"@,
                        Node::Array(
                            seq![Node::Text("double"@), Node::Text("int"@), Node::Text("long"@)],
                        ),
                    ),
                ],
            ),
        ),
        Formula::IsText(Box::new(a)).node() == applied(
            "$eq"@,
            Node::Array(
                seq![
                    applied("$type"@, a.node()),
                    applied("$literal"@, Node::Text("string"@)),
                ],
            ),
        ),
        Formula::ToDouble(Box::new(a)).node() == applied("$toDouble"@, a.node()),
        Formula::Below(Box::new(a), Box::new(b)).node() == applied(
            "$lt"@,
            Node::Array(seq![a.node(), b.node()]),
        ),
        Formula::Same(Box::new(a), Box::new(b)).node() == applied(
            "$eq"@,
            Node::Array(seq![a.node(), b.node()]),
        ),
        Formula::Both(Box::new(a), Box::new(b)).node() == applied(
            "$and"@,
            Node::Array(seq![a.node(), b.node()]),
        ),
        Formula::Choice(Box::new(a), Box::new(b), Box::new(c)).node() == applied(
            "$cond"@,
            Node::Array(seq![a.node(), b.node(), c.node()]),
        ),
        Formula::Trim(Box::new(a), key).node() == applied(
            "$trim"@,
            Node::Document(
                seq![("input"@, a.node()), ("chars"@, applied("$literal"@, Node::Text(key)))],
            ),
        ),
{
    reveal_strlit("field");
    reveal_strlit("input");
    reveal_strlit("chars");
    assert("field"@[0] == 'f' && "input"@[0] == 'i' && "chars"@[0] == 'c');
    let text = Node::Text(key);
    lemma_only("$literal"@, value);
    lemma_only("$literal"@, text);
    lemma_only("$literal"@, Node::Text("string"@));
    let kinds = Node::Array(seq![Node::Text("double"@), Node::Text("int"@), Node::Text("long"@)]);
    lemma_only("$literal"@, kinds);
    lemma_only("$type"@, a.node());
    lemma_only("$toDouble"@, a.node());
    lemma_two("field"@, applied("$literal"@, text), "input"@, Node::Text("$$row"@));
    lemma_two("input"@, a.node(), "chars"@, applied("$literal"@, text));
    lemma_only(
        "$getField"@,
        Node::Document(
            seq![("field"@, applied("$literal"@, text)), ("input"@, Node::Text("$$row"@))],
        ),
    );
    lemma_only(
        "$trim"@,
        Node::Document(seq![("input"@, a.node()), ("chars"@, applied("$literal"@, text))]),
    );
    lemma_only(
        "$in"@,
        Node::Array(seq![applied("$type"@, a.node()), applied("$literal"@, kinds)]),
    );
    lemma_only(
        "$eq"@,
        Node::Array(
            seq![applied("$type"@, a.node()), applied("$literal"@, Node::Text("string"@))],
        ),
    );
    lemma_only("$lt"@, Node::Array(seq![a.node(), b.node()]));
    lemma_only("$eq"@, Node::Array(seq![a.node(), b.node()]));
    lemma_only("$and"@, Node::Array(seq![a.node(), b.node()]));
    lemma_only("$cond"@, Node::Array(seq![a.node(), b.node(), c.node()]));
}

/// Whether a text is one of some others is asked by comparing it with each of them without
/// regard to case.
pub proof fn how_lists_of_texts_are_written(a: Formula, list: Seq<Seq<char>>)
    ensures
        Formula::AnyFolded(Box::new(a), list).node() == applied(
            "$anyElementTrue"@,
            Node::Array(
                seq![
                    applied(
                        "$map"@,
                        Node::Document(
                            seq![
                                (
                                    "input"@,
                                    applied(
                                        "$literal"@,
                                        Node::Array(list.map_values(|s: Seq<char>| Node::Text(s))),
                                    ),
                                ),
                                ("as"@, Node::Text("listed"@)),
                                (
                                    "in"@,
                                    applied(
                                        "$eq"@,
                                        Node::Array(
                                            seq![
                                                applied(
                                                    "$strcasecmp"@,
                                                    Node::Array(
                                                        seq![Node::Text("$$listed"@), a.node()],
                                                    ),
                                                ),
                                                applied("$literal"@, Node::Int32(0)),
                                            ],
                                        ),
                                    ),
                                ),
                            ],
                        ),
                    ),
                ],
            ),
        ),
{
    reveal_strlit("input");
    reveal_strlit("as");
    reveal_strlit("in");
    assert("input"@.len() == 5 && "as"@.len() == 2 && "in"@.len() == 2);
    assert("as"@[0] == 'a' && "in"@[0] == 'i');
    let known = Node::Array(list.map_values(|s: Seq<char>| Node::Text(s)));
    lemma_only("$literal"@, known);
    lemma_only("$literal"@, Node::Int32(0));
    let compared = Node::Array(seq![Node::Text("$$listed"@), a.node()]);
    lemma_only("$strcasecmp"@, compared);
    let both = Node::Array(
        seq![applied("$strcasecmp"@, compared), applied("$literal"@, Node::Int32(0))],
    );
    lemma_only("$eq"@, both);
    lemma_three(
        "input"@,
        applied("$literal"@, known),
        "as"@,
        Node::Text("listed"@),
        "in"@,
        applied("$eq"@, both),
    );
    let each = Node::Document(
        seq![
            ("input"@, applied("$literal"@, known)),
            ("as"@, Node::Text("listed"@)),
            ("in"@, applied("$eq"@, both)),
        ],
    );
    lemma_only("$map"@, each);
    lemma_only("$anyElementTrue"@, Node::Array(seq![applied("$map"@, each)]));
}

/// A buffer is sorted by giving each row its rank, its projected distance and its separation,
/// ordering by these from the lowest up, and taking them off again; it is cut where the
/// catalog has a limit.
pub proof fn how_buffers_are_sorted(config: CatalogXmatchConfig, field: &str, stages: Bson)
    requires
        call_ensures(make_sort_trim_pipeline, (&config, field), stages),
        config.max_results matches Some(max) ==> max <= i64::MAX,
    ensures
        ({
            let keyed = applied(
                "$map"@,
                Node::Document(
                    seq![
                        ("input"@, Node::Text("$"@ + field@)),
                        ("as"@, Node::Text("row"@)),
                        (
                            "in"@,
                            Node::Document(
                                seq![
                                    ("row"@, Node::Text("$$row"@)),
                                    ("rank"@, rank_formula(config).node()),
                                    ("kpc"@, kpc_formula(config).node()),
                                    ("arcsec"@, finite_formula("distance_arcsec"@).node()),
                                ],
                            ),
                        ),
                    ],
                ),
            );
            let sorted = applied(
                "$sortArray"@,
                Node::Document(
                    seq![
                        ("input"@, keyed),
                        (
                            "sortBy"@,
                            Node::Document(
                                seq![
                                    ("rank"@, Node::Int32(1)),
                                    ("kpc"@, Node::Int32(1)),
                                    ("arcsec"@, Node::Int32(1)),
                                ],
                            ),
                        ),
                    ],
                ),
            );
            let rows = applied(
                "$map"@,
                Node::Document(
                    seq![
                        ("input"@, sorted),
                        ("as"@, Node::Text("keyed"@)),
                        ("in"@, Node::Text("$$keyed.row"@)),
                    ],
                ),
            );
            let cut = match config.max_results {
                Some(max) => applied("$slice"@, Node::Array(seq![rows, Node::Int64(max as i64)])),
                None => rows,
            };
            stages@ == Node::Array(
                seq![applied("$set"@, Node::Document(seq![(field@, cut)]))],
            )
        }),
{
    reveal_strlit("input");
    reveal_strlit("as");
    reveal_strlit("in");
    reveal_strlit("row");
    reveal_strlit("rank");
    reveal_strlit("kpc");
    reveal_strlit("arcsec");
    reveal_strlit("sortBy");
    assert("input"@.len() == 5 && "as"@.len() == 2 && "in"@.len() == 2 && "row"@.len() == 3
        && "rank"@.len() == 4 && "kpc"@.len() == 3 && "arcsec"@.len() == 6 && "sortBy"@.len() == 6);
    assert("as"@[0] == 'a' && "in"@[0] == 'i' && "row"@[0] == 'r' && "kpc"@[0] == 'k');
    let rank = rank_formula(config).node();
    let kpc = kpc_formula(config).node();
    let arcsec = finite_formula("distance_arcsec"@).node();
    lemma_three("row"@, Node::Text("$$row"@), "rank"@, rank, "kpc"@, kpc);
    let three = seq![("row"@, Node::Text("$$row"@)), ("rank"@, rank), ("kpc"@, kpc)];
    let base = put(only("row"@, Node::Text("$$row"@)), "rank"@, rank);
    lemma_two("row"@, Node::Text("$$row"@), "rank"@, rank);
    assert(lookup(base, "arcsec"@) is None);
    setting_a_name_leaves_the_others(base, "kpc"@, kpc, "arcsec"@);
    assert(lookup(three, "arcsec"@) is None);
    let keys = seq![
        ("row"@, Node::Text("$$row"@)),
        ("rank"@, rank),
        ("kpc"@, kpc),
        ("arcsec"@, arcsec),
    ];
    assert(put(three, "arcsec"@, arcsec) =~= keys);
    lemma_three(
        "input"@,
        Node::Text("$"@ + field@),
        "as"@,
        Node::Text("row"@),
        "in"@,
        Node::Document(keys),
    );
    let keyed_input = Node::Document(
        seq![
            ("input"@, Node::Text("$"@ + field@)),
            ("as"@, Node::Text("row"@)),
            ("in"@, Node::Document(keys)),
        ],
    );
    lemma_only("$map"@, keyed_input);
    lemma_three("rank"@, Node::Int32(1), "kpc"@, Node::Int32(1), "arcsec"@, Node::Int32(1));
    let order = Node::Document(
        seq![("rank"@, Node::Int32(1)), ("kpc"@, Node::Int32(1)), ("arcsec"@, Node::Int32(1))],
    );
    let keyed = applied("$map"@, keyed_input);
    assert(keyed_rows(config, field@) == keyed);
    lemma_two("input"@, keyed, "sortBy"@, order);
    let sort_input = Node::Document(seq![("input"@, keyed), ("sortBy"@, order)]);
    lemma_only("$sortArray"@, sort_input);
    let sorted = applied("$sortArray"@, sort_input);
    lemma_three("input"@, sorted, "as"@, Node::Text("keyed"@), "in"@, Node::Text("$$keyed.row"@));
    let rows_input = Node::Document(
        seq![
            ("input"@, sorted),
            ("as"@, Node::Text("keyed"@)),
            ("in"@, Node::Text("$$keyed.row"@)),
        ],
    );
    lemma_only("$map"@, rows_input);
    let rows = applied("$map"@, rows_input);
    let cut = match config.max_results {
        Some(max) => {
            lemma_only("$slice"@, Node::Array(seq![rows, Node::Int64(max as i64)]));
            applied("$slice"@, Node::Array(seq![rows, Node::Int64(max as i64)]))
        },
        None => rows,
    };
    assert(sorted_value(config, field@) == cut);
    lemma_only(field@, cut);
    lemma_only("$set"@, Node::Document(seq![(field@, cut)]));
}

/// A catalog is read with the columns that are stored, and with the identifier, the position
/// and the redshift that matching needs.
pub proof fn which_columns_are_read(
    config: CatalogXmatchConfig,
    columns: Document,
    name: Seq<char>,
)
    requires
        call_ensures(catalog_columns, (&config,), columns),
    ensures
        name == "_id"@ || name == "ra"@ || name == "dec"@ || (config.distance_key matches Some(key)
            && name == key@) ==> lookup(columns@, name) == Some(Node::Int32(1)),
        name != "_id"@ && name != "ra"@ && name != "dec"@ && !(
        config.distance_key matches Some(key) && name == key@) ==> lookup(columns@, name) == lookup(
            config.projection@,
            name,
        ),
{
    let one = Node::Int32(1);
    let base = config.projection@;
    let a = put(base, "_id"@, one);
    let b = put(a, "ra"@, one);
    let c = put(b, "dec"@, one);
    lemma_put_at(base, "_id"@, one, name);
    lemma_put_at(a, "ra"@, one, name);
    lemma_put_at(b, "dec"@, one, name);
    if let Some(key) = config.distance_key {
        lemma_put_at(c, key@, one, name);
    }
}

proof fn lemma_put_at(
    entries: Seq<(Seq<char>, Node)>,
    key: Seq<char>,
    value: Node,
    name: Seq<char>,
)
    ensures
        lookup(put(entries, key, value), name) == if name == key {
            Some(value)
        } else {
            lookup(entries, name)
        },
{
    what_was_set_is_read_back(entries, key, value);
    if name != key {
        setting_a_name_leaves_the_others(entries, key, value, name);
    }
}

/// A row can be matched when it has a position and, where its catalog matches on distance, a
/// redshift. Only then is the redshift read.
pub proof fn which_rows_can_be_matched(
    config: CatalogXmatchConfig,
    doc: Document,
    row: Option<CatalogRow>,
)
    requires
        call_ensures(read_catalog_row, (&config, &doc), row),
        config.use_distance ==> config.distance_key is Some,
    ensures
        row is Some <==> {
            &&& finite_of(doc@, "ra"@) is Some
            &&& finite_of(doc@, "dec"@) is Some
            &&& config.use_distance ==> finite_of(doc@, config.distance_key->0@) is Some
        },
        row matches Some(row) ==> {
            &&& Some(row.ra) == finite_of(doc@, "ra"@)
            &&& Some(row.dec) == finite_of(doc@, "dec"@)
            &&& config.use_distance ==> row.z == finite_of(doc@, config.distance_key->0@)
            &&& !config.use_distance ==> row.z is None
        },
{
}

/// A row is matched with the objects in the cone of its catalog that existed when the run
/// started.
pub proof fn which_objects_a_row_is_matched_with(
    config: CatalogXmatchConfig,
    longitude: Double,
    dec: Double,
    run_start_jd: Double,
    filter: Document,
)
    requires
        call_ensures(aux_filter, (&config, longitude, dec, run_start_jd), filter),
    ensures
        filter@ == seq![
            (
                "coordinates.radec_geojson"@,
                applied(
                    "$geoWithin"@,
                    applied(
                        "$centerSphere"@,
                        Node::Array(
                            seq![
                                Node::Array(seq![Node::Double(longitude), Node::Double(dec)]),
                                Node::Double(config.radius),
                            ],
                        ),
                    ),
                ),
            ),
            ("created_at"@, applied("$lt"@, Node::Double(run_start_jd))),
        ],
{
    reveal_strlit("coordinates.radec_geojson");
    reveal_strlit("created_at");
    assert("coordinates.radec_geojson"@.len() == 25 && "created_at"@.len() == 10);
    let cap = Node::Array(
        seq![
            Node::Array(seq![Node::Double(longitude), Node::Double(dec)]),
            Node::Double(config.radius),
        ],
    );
    lemma_only("$centerSphere"@, cap);
    lemma_only("$geoWithin"@, applied("$centerSphere"@, cap));
    lemma_only("$lt"@, Node::Double(run_start_jd));
    lemma_two(
        "coordinates.radec_geojson"@,
        applied("$geoWithin"@, applied("$centerSphere"@, cap)),
        "created_at"@,
        applied("$lt"@, Node::Double(run_start_jd)),
    );
}

/// A row with a redshift matches an object that is nearer than its radius: the fixed one
/// below a redshift of 0.005, where no projected distance is stored but -1, and the scaled
/// one from there on. A row without one matches whatever it was found with.
pub proof fn which_objects_match_a_row(
    config: CatalogXmatchConfig,
    row: usize,
    z: Option<Double>,
    arcsec: Double,
    scaled_radius: Double,
    scaled_distance: Double,
    found: Option<CatalogMatch>,
    fields: Document,
)
    requires
        call_ensures(
            match_row,
            (&config, row, z, arcsec, scaled_radius, scaled_distance),
            found,
        ),
        found matches Some(made) ==> call_ensures(match_fields, (&made,), fields),
        z matches Some(z) ==> !z.is_nan_spec() && config.distance_max_near is Some,
    ensures
        match z {
            None => found == Some(
                CatalogMatch { row, distance_arcsec: arcsec, distance_kpc: None },
            ),
            Some(z) => {
                let near = z.less(Double { bits: 0x3F74_7AE1_47AE_147B });
                let radius = if near {
                    config.distance_max_near->0
                } else {
                    scaled_radius
                };
                &&& found is None <==> radius.at_most(arcsec)
                &&& found matches Some(made) ==> {
                    &&& made.row == row
                    &&& made.distance_arcsec == arcsec
                    &&& near ==> made.distance_kpc == Some(Double { bits: 0xBFF0_0000_0000_0000 })
                    &&& !near ==> made.distance_kpc == Some(scaled_distance)
                }
            },
        },
        found matches Some(made) ==> {
            &&& lookup(fields@, "distance_arcsec"@) == Some(Node::Double(made.distance_arcsec))
            &&& lookup(fields@, "distance_kpc"@) == match made.distance_kpc {
                Some(kpc) => Some(Node::Double(kpc)),
                None => None,
            }
            &&& fields@.len() == if made.distance_kpc is Some {
                2nat
            } else {
                1nat
            }
        },
{
    reveal_strlit("distance_arcsec");
    reveal_strlit("distance_kpc");
    assert("distance_arcsec"@.len() == 15 && "distance_kpc"@.len() == 12);
    if let Some(made) = found {
        let apart = Node::Double(made.distance_arcsec);
        lemma_only("distance_arcsec"@, apart);
        if let Some(kpc) = made.distance_kpc {
            lemma_two("distance_arcsec"@, apart, "distance_kpc"@, Node::Double(kpc));
            lemma_put_at(
                only("distance_arcsec"@, apart),
                "distance_kpc"@,
                Node::Double(kpc),
                "distance_arcsec"@,
            );
            lemma_put_at(
                only("distance_arcsec"@, apart),
                "distance_kpc"@,
                Node::Double(kpc),
                "distance_kpc"@,
            );
        }
    }
}

/// The position of an object is a pair of finite doubles under its coordinates; the
/// declination is the second and the right ascension is shifted from the first.
pub proof fn where_positions_are_read<F: Fn(Double) -> Double>(
    doc: Document,
    shift: F,
    radec: Option<(Double, Double)>,
    outer: Seq<(Seq<char>, Node)>,
    inner: Seq<(Seq<char>, Node)>,
    longitude: Double,
    latitude: Double,
)
    requires
        call_ensures(extract_radec::<F>, (&doc, &shift), radec),
        lookup(doc@, "coordinates"@) == Some(Node::Document(outer)),
        lookup(outer, "radec_geojson"@) == Some(Node::Document(inner)),
        lookup(inner, "coordinates"@) == Some(
            Node::Array(seq![Node::Double(longitude), Node::Double(latitude)]),
        ),
    ensures
        radec is Some <==> longitude.is_finite_spec() && latitude.is_finite_spec(),
        radec matches Some((ra, dec)) ==> call_ensures(shift, (longitude,), ra) && dec == latitude,
{
}

/// An object without a pair of doubles under its coordinates has no position.
pub proof fn other_documents_have_no_position<F: Fn(Double) -> Double>(
    doc: Document,
    shift: F,
    radec: (Double, Double),
)
    requires
        call_ensures(extract_radec::<F>, (&doc, &shift), Some(radec)),
    ensures
        lookup(doc@, "coordinates"@) matches Some(Node::Document(outer)) && (lookup(
            outer,
            "radec_geojson"@,
        ) matches Some(Node::Document(inner)) && (lookup(
            inner,
            "coordinates"@,
        ) matches Some(Node::Array(pair)) && pair.len() == 2 && pair[0] is Double
            && pair[1] is Double)),
{
}

/// What was gathered is written after every batch of rows, if there is anything.
pub proof fn when_matches_are_written(pending: Pending, batch_size: usize, due: bool)
    requires
        call_ensures(Pending::is_due, (&pending, batch_size), due),
        batch_size > 0,
    ensures
        due <==> pending.matches.entries@.len() > 0 && pending.cat_count as int % batch_size as int
            == 0,
{
    assert(pending.matches.lists().len() == pending.matches.entries@.len());
}

/// A run over a catalog stops for the first worker that did not finish, one over the objects
/// for the first that failed; a lost worker stops only the first kind.
pub proof fn which_workers_stop_a_run(
    outcomes: Vec<WorkerOutcome>,
    stopped: Option<usize>,
    failed: Option<usize>,
)
    requires
        call_ensures(first_failure, (&outcomes,), stopped),
        call_ensures(first_error, (&outcomes,), failed),
    ensures
        forall|i: int|
            0 <= i < outcomes@.len() && (#[trigger] outcomes@[i] == WorkerOutcome::Failed
                || outcomes@[i] == WorkerOutcome::Lost) ==> (stopped matches Some(at) && at <= i),
        stopped matches Some(at) ==> at < outcomes@.len() && (outcomes@[at as int]
            == WorkerOutcome::Failed || outcomes@[at as int] == WorkerOutcome::Lost),
        forall|i: int|
            0 <= i < outcomes@.len() && #[trigger] outcomes@[i] == WorkerOutcome::Failed ==> (
            failed matches Some(at) && at <= i),
        failed matches Some(at) ==> at < outcomes@.len() && outcomes@[at as int]
            == WorkerOutcome::Failed,
{
}

/// A run starts by emptying the buffer of its catalog.
pub proof fn runs_start_with_an_empty_buffer(catalog: &str, run_start_jd: Double, run: CatalogRun)
    requires
        call_ensures(CatalogRun::new, (catalog, run_start_jd), run),
    ensures
        run.phase == Phase::Cleaning,
        run.live_field@ == "cross_matches."@ + catalog@,
        run.temp_field@ == "cross_matches."@ + catalog@ + "_temp"@,
        run.run_start_jd == run_start_jd,
{
}

}
