//! How named values and rows are kept, and what things are called.
use vstd::prelude::*;

use crate::api::alerts::collection_of;
use crate::api::analytics::AnalyticsClient;
use crate::api::cutouts::{
    base64_of, cutouts_found, encodable, no_alerts, no_cutouts, storage_failed, CutoutSet,
};
use crate::api::response::{ok_object, Body, Payload, Reply};
use crate::conf::PostHogConfig;
use crate::document::{Bson, Document};
use crate::json::{facts_of, Fact};
use crate::laws::replies::{brings, refuses};
use crate::named::{listed, put, slot, Named};
use crate::order::{ranking, Key};
use crate::text::signed_decimal;
use crate::utils::enums::Survey;
use crate::utils::lightcurves::Band;

verus! {

/// Whether `at` is where the first entry with a name stands, or else the number of entries.
pub open spec fn is_first<T>(entries: Seq<(Seq<char>, T)>, key: Seq<char>, at: int) -> bool {
    &&& 0 <= at <= entries.len()
    &&& forall|k: int| 0 <= k < at ==> (#[trigger] entries[k]).0 != key
    &&& at < entries.len() ==> entries[at].0 == key
}

proof fn lemma_slot<T>(entries: Seq<(Seq<char>, T)>, key: Seq<char>)
    ensures
        is_first(entries, key, slot(entries, key)),
    decreases entries.len(),
{
    if entries.len() > 0 && entries[0].0 != key {
        let rest = entries.drop_first();
        lemma_slot(rest, key);
        let at = slot(entries, key);
        assert forall|k: int| 0 <= k < at implies (#[trigger] entries[k]).0 != key by {
            if k > 0 {
                assert(rest[k - 1] == entries[k]);
            }
        }
    }
}

proof fn lemma_one_first<T>(entries: Seq<(Seq<char>, T)>, key: Seq<char>, a: int, b: int)
    requires
        is_first(entries, key, a),
        is_first(entries, key, b),
    ensures
        a == b,
{
    if a < b {
        assert(entries[a].0 != key);
    } else if b < a {
        assert(entries[b].0 != key);
    }
}

/// Whether `after` is some entries with one set: in its place where there was one of the
/// name, and else at the end. All others stay where and what they were.
pub open spec fn sets<T>(
    before: Seq<(Seq<char>, T)>,
    after: Seq<(Seq<char>, T)>,
    key: Seq<char>,
    value: T,
) -> bool {
    &&& forall|at: int|
        #[trigger] is_first(before, key, at) ==> {
            &&& after.len() == if at < before.len() {
                before.len()
            } else {
                before.len() + 1
            }
            &&& after[at] == (key, value)
            &&& forall|k: int|
                0 <= k < before.len() && k != at ==> after[k] == #[trigger] before[k]
        }
}

proof fn lemma_sets<T>(before: Seq<(Seq<char>, T)>, key: Seq<char>, value: T)
    ensures
        sets(before, put(before, key, value), key, value),
{
    lemma_slot(before, key);
    assert forall|at: int| #[trigger] is_first(before, key, at) implies at == slot(
        before,
        key,
    ) by {
        lemma_one_first(before, key, at, slot(before, key));
    }
}

/// A field is found by its name: the first that has it.
pub proof fn fields_are_found_by_name(doc: Document, key: &str, at: usize, value: Option<&Bson>)
    requires
        call_ensures(Document::find, (&doc, key), at),
        call_ensures(Document::get, (&doc, key), value),
    ensures
        is_first(doc@, key@, at as int),
        value is Some <==> at < doc@.len(),
        value matches Some(value) ==> value@ == doc@[at as int].1,
{
    lemma_slot(doc@, key@);
}

/// Setting a field changes that field and no other.
pub proof fn fields_are_set_by_name(
    doc: &mut Document,
    key: &str,
    value: Bson,
    with: Document,
)
    requires
        call_ensures(Document::insert, (doc, key, value), ()),
        call_ensures(Document::with, (*old(doc), key, value), with),
    ensures
        sets(old(doc)@, final(doc)@, key@, value@),
        sets(old(doc)@, with@, key@, value@),
{
    lemma_sets(old(doc)@, key@, value@);
}

/// A copy holds what was copied, and a new document nothing.
pub proof fn copies_hold_the_same(
    doc: Document,
    value: Bson,
    doc_copy: Document,
    value_copy: Bson,
    empty: Document,
)
    requires
        call_ensures(Document::copy, (&doc,), doc_copy),
        call_ensures(Bson::copy, (&value,), value_copy),
        call_ensures(Document::new, (), empty),
    ensures
        doc_copy@ == doc@,
        value_copy@ == value@,
        empty@.len() == 0,
{
}

/// A value is found by its name: the first that has it.
pub proof fn values_are_found_by_name<T>(
    list: Named<T>,
    key: &str,
    at: usize,
    value: Option<&T>,
    empty: Named<T>,
)
    requires
        call_ensures(Named::<T>::find, (&list, key), at),
        call_ensures(Named::<T>::get, (&list, key), value),
        call_ensures(Named::<T>::new, (), empty),
    ensures
        is_first(list@, key@, at as int),
        value is Some <==> at < list@.len(),
        value matches Some(value) ==> *value == list@[at as int].1,
        empty@.len() == 0,
{
    lemma_slot(list@, key@);
}

/// Setting a value changes that value and no other.
pub proof fn values_are_set_by_name<T>(list: &mut Named<T>, key: &str, value: T)
    requires
        call_ensures(Named::<T>::insert, (list, key, value), ()),
    ensures
        sets(old(list)@, final(list)@, key@, value),
{
    lemma_sets(old(list)@, key@, value);
}

/// A list is found by its name: the first that has it.
pub proof fn lists_are_found_by_name<A>(
    lists: Named<Vec<A>>,
    key: &str,
    items: Option<&Vec<A>>,
    at: int,
)
    requires
        call_ensures(Named::<Vec<A>>::get_list, (&lists, key), items),
        is_first(lists.lists(), key@, at),
    ensures
        items is Some <==> at < lists.lists().len(),
        items matches Some(items) ==> items@ == lists.lists()[at].1,
{
    lemma_slot(lists.lists(), key@);
    lemma_one_first(lists.lists(), key@, at, slot(lists.lists(), key@));
}

/// Items go after those that their name lists already, and no other list changes.
pub proof fn lists_grow_at_their_end<A>(
    lists: &mut Named<Vec<A>>,
    key: &str,
    item: A,
    at: int,
)
    requires
        call_ensures(Named::<Vec<A>>::append, (lists, key, item), ()),
        is_first(old(lists).lists(), key@, at),
    ensures
        sets(
            old(lists).lists(),
            final(lists).lists(),
            key@,
            (if at < old(lists).lists().len() {
                old(lists).lists()[at].1
            } else {
                Seq::<A>::empty()
            }).push(item),
        ),
{
    let before = old(lists).lists();
    lemma_slot(before, key@);
    lemma_one_first(before, key@, at, slot(before, key@));
    lemma_sets(before, key@, listed(before, key@).push(item));
}

/// The same holds of many items at once.
pub proof fn lists_grow_by_lists<A>(
    lists: &mut Named<Vec<A>>,
    key: &str,
    items: Vec<A>,
    at: int,
)
    requires
        call_ensures(Named::<Vec<A>>::extend, (lists, key, items), ()),
        is_first(old(lists).lists(), key@, at),
    ensures
        sets(
            old(lists).lists(),
            final(lists).lists(),
            key@,
            (if at < old(lists).lists().len() {
                old(lists).lists()[at].1
            } else {
                Seq::<A>::empty()
            }) + items@,
        ),
{
    let before = old(lists).lists();
    lemma_slot(before, key@);
    lemma_one_first(before, key@, at, slot(before, key@));
    lemma_sets(before, key@, listed(before, key@) + items@);
}

/// Setting a list replaces that list and no other.
pub proof fn lists_are_set_by_name<A>(lists: &mut Named<Vec<A>>, key: &str, items: Vec<A>)
    requires
        call_ensures(Named::<Vec<A>>::set_list, (lists, key, items), ()),
    ensures
        sets(old(lists).lists(), final(lists).lists(), key@, items@),
{
    lemma_sets(old(lists).lists(), key@, items@);
}

/// A list that is added stands at the end, whatever its name.
pub proof fn added_lists_stand_at_the_end<A>(lists: &mut Named<Vec<A>>, key: &str, items: Vec<A>)
    requires
        call_ensures(Named::<Vec<A>>::push_list, (lists, key, items), ()),
    ensures
        final(lists).lists().len() == old(lists).lists().len() + 1,
        final(lists).lists().last() == (key@, items@),
        final(lists).lists().drop_last() == old(lists).lists(),
{
    assert(final(lists).lists().drop_last() =~= old(lists).lists());
}

/// Rows are ordered by the first of their numbers, then the second, then the third, and rows
/// with the same numbers by where they stood. Each row is there once.
pub proof fn how_rows_are_ordered(keys: Vec<Key>, rows: Vec<usize>)
    requires
        call_ensures(ranking, (&keys,), rows),
    ensures
        rows@.len() == keys@.len(),
        forall|i: int| 0 <= i < rows@.len() ==> (#[trigger] rows@[i]) < keys@.len(),
        forall|i: int, j: int|
            0 <= i < j < rows@.len() ==> (#[trigger] rows@[i]) != (#[trigger] rows@[j]),
        forall|row: usize| row < keys@.len() ==> #[trigger] rows@.contains(row),
        forall|i: int, j: int|
            0 <= i < j < rows@.len() ==> {
                let a = keys@[(#[trigger] rows@[i]) as int];
                let b = keys@[(#[trigger] rows@[j]) as int];
                &&& a.0 <= b.0
                &&& a.0 == b.0 ==> a.1 <= b.1
                &&& a.0 == b.0 && a.1 == b.1 ==> a.2 <= b.2
                &&& a == b ==> rows@[i] < rows@[j]
            },
{
}

/// Surveys, bands and collections have the names that are stored.
pub proof fn what_things_are_called(
    survey: Survey,
    name: &'static str,
    lower: &'static str,
    collection: String,
    band: Band,
    letter: &'static str,
)
    requires
        call_ensures(Survey::as_str, (survey,), name),
        call_ensures(Survey::lower, (survey,), lower),
        call_ensures(collection_of, (survey,), collection),
        call_ensures(Band::as_str, (band,), letter),
    ensures
        survey == Survey::Ztf ==> name@ == "ZTF"@ && lower@ == "ztf"@,
        survey == Survey::Lsst ==> name@ == "LSST"@ && lower@ == "lsst"@,
        survey == Survey::Decam ==> name@ == "DECAM"@ && lower@ == "decam"@,
        collection@ == name@ + "_alerts"@,
        letter@ == match band {
            Band::G => "g"@,
            Band::R => "r"@,
            Band::I => "i"@,
            Band::Z => "z"@,
            Band::Y => "y"@,
            Band::U => "u"@,
            Band::J => "j"@,
            Band::H => "h"@,
            Band::K => "k"@,
        },
{
}

/// Analytics are on where there is a key, and events are delivered where there is a queue.
pub proof fn when_analytics_are_on(
    config: PostHogConfig,
    client: AnalyticsClient,
    configured: bool,
    delivers: bool,
)
    requires
        call_ensures(PostHogConfig::is_enabled, (&config,), configured),
        call_ensures(AnalyticsClient::is_enabled, (&client,), delivers),
    ensures
        configured <==> config.project_api_key@.len() > 0,
        delivers <==> client.queue is Some,
{
}

/// Replies on images name the object or the candidate.
pub proof fn how_images_are_answered(
    candid: i64,
    object_id: &str,
    cutouts: CutoutSet,
    none: Reply,
    without: Reply,
    without_any: Reply,
    failed: Reply,
    found: Reply,
    found_any: Reply,
)
    requires
        call_ensures(no_alerts, (object_id,), none),
        call_ensures(no_cutouts, (candid, Some(object_id)), without),
        call_ensures(no_cutouts, (candid, None::<&str>), without_any),
        call_ensures(storage_failed, (), failed),
        call_ensures(cutouts_found, (candid, Some(object_id), &cutouts), found),
        call_ensures(cutouts_found, (candid, None::<&str>, &cutouts), found_any),
        encodable(cutouts),
    ensures
        refuses(none, 404, "no alerts found for objectId "@ + object_id@),
        refuses(
            without,
            404,
            "no cutouts found for objectId "@ + object_id@ + " (candid: "@ + signed_decimal(
                candid as int,
            ) + ")"@,
        ),
        refuses(
            without_any,
            404,
            "no cutouts found for candid "@ + signed_decimal(candid as int),
        ),
        refuses(failed, 500, "error retrieving cutouts from storage"@),
        found.status == 200 && found_any.status == 200,
        found.body matches Body::Json(body) && body.message@ == "cutouts found for objectId: "@
            + object_id@,
        found_any.body matches Body::Json(body) && body.message@ == "cutouts found for candid: "@
            + signed_decimal(candid as int),
        found.body matches Body::Json(body) && (body.data matches Some(Payload::Object(object)) && {
            let facts = facts_of(object);
            &&& facts["candid"@] == Fact::Number(candid as int)
            &&& facts["cutoutScience"@] == Fact::Text(base64_of(cutouts.cutout_science@))
            &&& facts["cutoutTemplate"@] == Fact::Text(base64_of(cutouts.cutout_template@))
            &&& facts["cutoutDifference"@] == Fact::Text(base64_of(cutouts.cutout_difference@))
        }),
{
    assert(none@.json && without@.json && without_any@.json && failed@.json);
    assert(found@.json && found_any@.json);
    reveal_strlit("candid");
    reveal_strlit("cutoutScience");
    reveal_strlit("cutoutTemplate");
    reveal_strlit("cutoutDifference");
    assert("candid"@.len() == 6 && "cutoutScience"@.len() == 13 && "cutoutTemplate"@.len() == 14
        && "cutoutDifference"@.len() == 16);
}

/// An object is brought as it stands.
pub proof fn objects_are_brought_as_they_stand(
    message: &str,
    object: serde_json::Map<String, serde_json::Value>,
    reply: Reply,
)
    requires
        call_ensures(ok_object, (message, object), reply),
    ensures
        brings(reply, message@, Payload::Object(object)),
{
    assert(reply@.json);
}

}
