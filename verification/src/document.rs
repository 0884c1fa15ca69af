//! Database documents: ordered lists of named values.
use vstd::prelude::*;

use crate::binary::Double;
use crate::named::{lemma_slot_bounds, lookup, put, slot};
use crate::text::same;

verus! {

/// One value of a database document.
#[derive(Debug)]
pub enum Bson {
    Null,
    Boolean(bool),
    Int32(i32),
    Int64(i64),
    Double(Double),
    Text(String),
    Array(Vec<Bson>),
    Document(Document),
    /// A value of a kind that nothing here reads.
    Other,
}

#[derive(Debug)]
pub struct Document {
    pub entries: Vec<(String, Bson)>,
}

/// What a value holds.
pub enum Node {
    Null,
    Boolean(bool),
    Int32(i32),
    Int64(i64),
    Double(Double),
    Text(Seq<char>),
    Array(Seq<Node>),
    Document(Seq<(Seq<char>, Node)>),
    Other,
}

/// A document with no fields.
pub open spec fn no_fields() -> Seq<(Seq<char>, Node)> {
    Seq::empty()
}

/// The document that has one field.
pub open spec fn only(key: Seq<char>, value: Node) -> Seq<(Seq<char>, Node)> {
    put(no_fields(), key, value)
}

impl Bson {
    pub open spec fn view(&self) -> Node
        decreases self,
    {
        match *self {
            Bson::Null => Node::Null,
            Bson::Boolean(b) => Node::Boolean(b),
            Bson::Int32(n) => Node::Int32(n),
            Bson::Int64(n) => Node::Int64(n),
            Bson::Double(x) => Node::Double(x),
            Bson::Text(s) => Node::Text(s@),
            Bson::Array(items) => Node::Array(
                Seq::new(
                    items@.len(),
                    |i: int| if 0 <= i < items@.len() { items@[i].view() } else { Node::Null },
                ),
            ),
            Bson::Document(d) => Node::Document(d.view()),
            Bson::Other => Node::Other,
        }
    }

    /// A list of two values.
    pub fn pair(a: Bson, b: Bson) -> (list: Bson)
        ensures
            list@ == Node::Array(seq![a@, b@]),
    {
        let list = Bson::Array(vec![a, b]);
        assert(list@->Array_0 =~= seq![a@, b@]);
        list
    }

    /// A text value.
    pub fn text(s: &str) -> (value: Bson)
        ensures
            value@ == Node::Text(s@),
    {
        Bson::Text(s.to_string())
    }

    pub fn copy(&self) -> (copy: Bson)
        ensures
            copy@ == self@,
        decreases self,
    {
        match self {
            Bson::Null => Bson::Null,
            Bson::Boolean(b) => Bson::Boolean(*b),
            Bson::Int32(n) => Bson::Int32(*n),
            Bson::Int64(n) => Bson::Int64(*n),
            Bson::Double(x) => Bson::Double(*x),
            Bson::Text(s) => Bson::Text(s.clone()),
            Bson::Array(items) => {
                let mut copies: Vec<Bson> = Vec::new();
                let mut i: usize = 0;
                while i < items.len()
                    invariant
                        i <= items@.len(),
                        copies@.len() == i,
                        self matches Bson::Array(held) && held == items,
                        forall|k: int| 0 <= k < i ==> (#[trigger] copies@[k])@ == items@[k]@,
                    decreases items.len() - i,
                {
                    let copy = items[i].copy();
                    copies.push(copy);
                    i = i + 1;
                }
                let copy = Bson::Array(copies);
                assert(copy@->Array_0 =~= self@->Array_0);
                copy
            },
            Bson::Document(d) => Bson::Document(d.copy()),
            Bson::Other => Bson::Other,
        }
    }
}

impl Document {
    pub open spec fn view(&self) -> Seq<(Seq<char>, Node)>
        decreases self,
    {
        Seq::new(
            self.entries@.len(),
            |i: int|
                if 0 <= i < self.entries@.len() {
                    (self.entries@[i].0@, self.entries@[i].1.view())
                } else {
                    (Seq::empty(), Node::Null)
                },
        )
    }

    pub fn new() -> (d: Document)
        ensures
            d@ == no_fields(),
    {
        let d = Document { entries: Vec::new() };
        assert(d@ =~= no_fields());
        d
    }

    pub fn copy(&self) -> (copy: Document)
        ensures
            copy@ == self@,
        decreases self,
    {
        let mut entries: Vec<(String, Bson)> = Vec::new();
        let mut i: usize = 0;
        while i < self.entries.len()
            invariant
                i <= self.entries@.len(),
                entries@.len() == i,
                forall|k: int|
                    0 <= k < i ==> (#[trigger] entries@[k]).0@ == self.entries@[k].0@
                        && entries@[k].1@ == self.entries@[k].1@,
            decreases self.entries.len() - i,
        {
            let key = self.entries[i].0.clone();
            let value = self.entries[i].1.copy();
            entries.push((key, value));
            i = i + 1;
        }
        let copy = Document { entries };
        assert(copy@ =~= self@);
        copy
    }

    /// Where the field named `key` stands, or the number of fields when there is
    /// none.
    pub fn find(&self, key: &str) -> (at: usize)
        ensures
            at == slot(self@, key@),
            at <= self.entries@.len(),
    {
        let mut i: usize = 0;
        assert(self@.skip(0) =~= self@);
        while i < self.entries.len()
            invariant
                i <= self.entries@.len(),
                slot(self@, key@) == i + slot(self@.skip(i as int), key@),
            decreases self.entries.len() - i,
        {
            assert(self@.skip(i as int).drop_first() =~= self@.skip(i + 1));
            if same(self.entries[i].0.as_str(), key) {
                return i;
            }
            i = i + 1;
        }
        i
    }

    /// The value of the field named `key`.
    pub fn get(&self, key: &str) -> (value: Option<&Bson>)
        ensures
            match value {
                Some(value) => lookup(self@, key@) == Some(value@),
                None => lookup(self@, key@) is None,
            },
    {
        let at: usize = self.find(key);
        proof {
            lemma_slot_bounds(self@, key@);
        }
        if at < self.entries.len() {
            Some(&self.entries[at].1)
        } else {
            None
        }
    }

    /// Sets the field named `key`.
    pub fn insert(&mut self, key: &str, value: Bson)
        ensures
            final(self)@ == put(old(self)@, key@, value@),
    {
        let at: usize = self.find(key);
        proof {
            lemma_slot_bounds(self@, key@);
        }
        if at < self.entries.len() {
            self.entries[at] = (key.to_string(), value);
        } else {
            self.entries.push((key.to_string(), value));
        }
        assert(self@ =~= put(old(self)@, key@, value@));
    }

    /// The document with one more field.
    pub fn with(self, key: &str, value: Bson) -> (d: Document)
        ensures
            d@ == put(self@, key@, value@),
    {
        let mut d = self;
        d.insert(key, value);
        d
    }
}

}
