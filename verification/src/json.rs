//! JSON objects and what they say.
use vstd::prelude::*;

verus! {

#[verifier::external_type_specification]
#[verifier::external_body]
#[verifier::reject_recursive_types(K)]
#[verifier::reject_recursive_types(V)]
pub struct ExJsonMap<K, V>(serde_json::Map<K, V>);

#[verifier::external_type_specification]
#[verifier::external_body]
pub struct ExJsonValue(serde_json::Value);

/// A property of a JSON object.
#[derive(Clone, Debug)]
pub enum Property {
    Text(String),
    Count(u64),
    Integer(i64),
    Flag(bool),
}

/// What a property says.
pub enum Fact {
    Text(Seq<char>),
    Number(int),
    Flag(bool),
}

impl Property {
    pub open spec fn view(&self) -> Fact {
        match *self {
            Property::Text(s) => Fact::Text(s@),
            Property::Count(n) => Fact::Number(n as int),
            Property::Integer(n) => Fact::Number(n as int),
            Property::Flag(b) => Fact::Flag(b),
        }
    }
}

/// What is said where no property is set.
pub open spec fn no_facts() -> Map<Seq<char>, Fact> {
    Map::empty()
}

/// The properties that a JSON object holds, by key.
pub uninterp spec fn facts_of(
    object: serde_json::Map<String, serde_json::Value>,
) -> Map<Seq<char>, Fact>;

/// `serde_json::Map::new` makes an object with no properties.
#[verifier::external_body]
pub(crate) fn empty_object() -> (object: serde_json::Map<String, serde_json::Value>)
    ensures
        facts_of(object) == no_facts(),
{
    serde_json::Map::new()
}

/// `serde_json::Map::insert` sets the property under `key`, replacing what was
/// there and leaving every other property as it was.
#[verifier::external_body]
pub(crate) fn set_property(
    object: &mut serde_json::Map<String, serde_json::Value>,
    key: &str,
    property: Property,
)
    ensures
        facts_of(*final(object)) == facts_of(*old(object)).insert(key@, property@),
{
    let value = match property {
        Property::Text(s) => serde_json::Value::String(s),
        Property::Count(n) => serde_json::Value::Number(n.into()),
        Property::Integer(n) => serde_json::Value::Number(n.into()),
        Property::Flag(b) => serde_json::Value::Bool(b),
    };
    object.insert(key.to_string(), value);
}

}
