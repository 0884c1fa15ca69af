//! Expressions that the database evaluates on the rows of an array.
use vstd::prelude::*;

use crate::binary::{Double, DOUBLE_INFINITY};
use crate::document::{only, Bson, Document, Node};
use crate::named::{lookup, put};
use crate::text::{is_space, same_folded, trim_end, trim_start, trimmed};
use crate::utils::spatial::finite_or_infinite;

verus! {

/// The pattern of minus infinity.
pub const MINUS_INFINITY: u64 = 0xFFF0_0000_0000_0000;

/// The `White_Space` characters of Unicode.
pub const SPACES: &'static str =
    "\u{9}\u{A}\u{B}\u{C}\u{D}\u{20}\u{85}\u{A0}\u{1680}\u{2000}\u{2001}\u{2002}\u{2003}\u{2004}\u{2005}\u{2006}\u{2007}\u{2008}\u{2009}\u{200A}\u{2028}\u{2029}\u{202F}\u{205F}\u{3000}";

/// An expression on the row at hand.
pub enum Formula {
    /// A value as it stands.
    Constant(Node),
    /// The field of the row that has a name.
    Field(Seq<char>),
    /// Whether a value is a double or an integer.
    IsNumber(Box<Formula>),
    /// Whether a value is a text.
    IsText(Box<Formula>),
    /// A number as a double.
    ToDouble(Box<Formula>),
    /// Whether a double is less than another; what is not a number is less than all others.
    Below(Box<Formula>, Box<Formula>),
    /// Whether two doubles are equal.
    Same(Box<Formula>, Box<Formula>),
    /// Whether both of two conditions hold.
    Both(Box<Formula>, Box<Formula>),
    /// The second, where the first holds, and otherwise the third.
    Choice(Box<Formula>, Box<Formula>, Box<Formula>),
    /// A text without the given characters at either end.
    Trim(Box<Formula>, Seq<char>),
    /// Whether a text is one of some texts when the case of ASCII letters is ignored. The
    /// database ignores the case of no others.
    AnyFolded(Box<Formula>, Seq<Seq<char>>),
}

/// `s` without the run of some characters at its start.
pub open spec fn stripped_start(s: Seq<char>, chars: Seq<char>) -> Seq<char>
    decreases s.len(),
{
    if s.len() > 0 && chars.contains(s[0]) {
        stripped_start(s.drop_first(), chars)
    } else {
        s
    }
}

/// `s` without the run of some characters at its end.
pub open spec fn stripped_end(s: Seq<char>, chars: Seq<char>) -> Seq<char>
    decreases s.len(),
{
    if s.len() > 0 && chars.contains(s.last()) {
        stripped_end(s.drop_last(), chars)
    } else {
        s
    }
}

/// Whether some texts hold `s` when the case of ASCII letters is ignored.
pub open spec fn one_folded(list: Seq<Seq<char>>, s: Seq<char>) -> bool {
    exists|i: int| 0 <= i < list.len() && same_folded(#[trigger] list[i], s)
}

/// An operator applied to its argument.
pub open spec fn call_node(operator: Seq<char>, argument: Node) -> Node {
    Node::Document(only(operator, argument))
}

/// A value that is not read as an expression.
pub open spec fn literal_node(value: Node) -> Node {
    call_node("$literal"@, value)
}

/// The condition that a value is one of some texts when case is ignored.
pub open spec fn any_folded_node(value: Node, list: Seq<Seq<char>>) -> Node {
    let equal = call_node(
        "$eq"@,
        Node::Array(
            seq![
                call_node("$strcasecmp"@, Node::Array(seq![Node::Text("$$listed"@), value])),
                literal_node(Node::Int32(0)),
            ],
        ),
    );
    call_node(
        "$anyElementTrue"@,
        Node::Array(
            seq![
                call_node(
                    "$map"@,
                    Node::Document(
                        put(
                            put(
                                only(
                                    "input"@,
                                    literal_node(
                                        Node::Array(list.map_values(|s: Seq<char>| Node::Text(s))),
                                    ),
                                ),
                                "as"@,
                                Node::Text("listed"@),
                            ),
                            "in"@,
                            equal,
                        ),
                    ),
                ),
            ],
        ),
    )
}

/// The kinds of numbers that are read.
pub open spec fn number_kinds() -> Node {
    Node::Array(seq![Node::Text("double"@), Node::Text("int"@), Node::Text("long"@)])
}

/// A field of the row, by its name as it stands.
pub open spec fn field_node(key: Seq<char>) -> Node {
    call_node(
        "$getField"@,
        Node::Document(
            put(only("field"@, literal_node(Node::Text(key))), "input"@, Node::Text("$$row"@)),
        ),
    )
}

impl Formula {
    /// How the expression is written for the database. The row at hand is `$$row`.
    pub open spec fn node(self) -> Node
        decreases self,
    {
        match self {
            Formula::Constant(value) => literal_node(value),
            Formula::Field(key) => field_node(key),
            Formula::IsNumber(a) => call_node(
                "$in"@,
                Node::Array(seq![call_node("$type"@, a.node()), literal_node(number_kinds())]),
            ),
            Formula::IsText(a) => call_node(
                "$eq"@,
                Node::Array(
                    seq![call_node("$type"@, a.node()), literal_node(Node::Text("string"@))],
                ),
            ),
            Formula::ToDouble(a) => call_node("$toDouble"@, a.node()),
            Formula::Below(a, b) => call_node("$lt"@, Node::Array(seq![a.node(), b.node()])),
            Formula::Same(a, b) => call_node("$eq"@, Node::Array(seq![a.node(), b.node()])),
            Formula::Both(a, b) => call_node("$and"@, Node::Array(seq![a.node(), b.node()])),
            Formula::Choice(a, b, c) => call_node(
                "$cond"@,
                Node::Array(seq![a.node(), b.node(), c.node()]),
            ),
            Formula::Trim(a, chars) => call_node(
                "$trim"@,
                Node::Document(
                    put(only("input"@, a.node()), "chars"@, literal_node(Node::Text(chars))),
                ),
            ),
            Formula::AnyFolded(a, list) => any_folded_node(a.node(), list),
        }
    }

    /// What the expression comes to on a row. Nothing is said of a missing field, nor of an
    /// operator on a value that it is not for.
    pub open spec fn value(self, row: Seq<(Seq<char>, Node)>) -> Option<Node>
        decreases self,
    {
        match self {
            Formula::Constant(value) => Some(value),
            Formula::Field(key) => lookup(row, key),
            Formula::IsNumber(a) => Some(
                Node::Boolean(
                    match a.value(row) {
                        Some(Node::Double(_)) => true,
                        Some(Node::Int32(_)) => true,
                        Some(Node::Int64(_)) => true,
                        _ => false,
                    },
                ),
            ),
            Formula::IsText(a) => Some(
                Node::Boolean(a.value(row) matches Some(Node::Text(_))),
            ),
            Formula::ToDouble(a) => match a.value(row) {
                Some(Node::Double(x)) => Some(Node::Double(x)),
                Some(Node::Int32(n)) => Some(Node::Double(Double::of_integer(n as int))),
                Some(Node::Int64(n)) => Some(Node::Double(Double::of_integer(n as int))),
                _ => None,
            },
            Formula::Below(a, b) => match (a.value(row), b.value(row)) {
                (Some(Node::Double(x)), Some(Node::Double(y))) => Some(
                    Node::Boolean((x.is_nan_spec() && !y.is_nan_spec()) || x.less(y)),
                ),
                _ => None,
            },
            Formula::Same(a, b) => match (a.value(row), b.value(row)) {
                (Some(Node::Double(x)), Some(Node::Double(y))) => Some(
                    Node::Boolean((x.is_nan_spec() && y.is_nan_spec()) || x.equals(y)),
                ),
                _ => None,
            },
            Formula::Both(a, b) => match (a.value(row), b.value(row)) {
                (Some(Node::Boolean(x)), Some(Node::Boolean(y))) => Some(Node::Boolean(x && y)),
                _ => None,
            },
            Formula::Choice(a, b, c) => match a.value(row) {
                Some(Node::Boolean(x)) => if x {
                    b.value(row)
                } else {
                    c.value(row)
                },
                _ => None,
            },
            Formula::Trim(a, chars) => match a.value(row) {
                Some(Node::Text(s)) => Some(
                    Node::Text(stripped_end(stripped_start(s, chars), chars)),
                ),
                _ => None,
            },
            Formula::AnyFolded(a, list) => match a.value(row) {
                Some(Node::Text(s)) => Some(Node::Boolean(one_folded(list, s))),
                _ => None,
            },
        }
    }
}

/// A constant double.
pub open spec fn double_formula(bits: u64) -> Box<Formula> {
    Box::new(Formula::Constant(Node::Double(Double { bits })))
}

/// The number of a field as a double.
pub open spec fn number_formula(key: Seq<char>) -> Box<Formula> {
    Box::new(Formula::ToDouble(Box::new(Formula::Field(key))))
}

/// The finite number of a field as a double, or infinity.
pub open spec fn finite_formula(key: Seq<char>) -> Formula {
    Formula::Choice(
        Box::new(Formula::IsNumber(Box::new(Formula::Field(key)))),
        Box::new(
            Formula::Choice(
                Box::new(
                    Formula::Both(
                        Box::new(
                            Formula::Below(double_formula(MINUS_INFINITY), number_formula(key)),
                        ),
                        Box::new(
                            Formula::Below(number_formula(key), double_formula(DOUBLE_INFINITY)),
                        ),
                    ),
                ),
                number_formula(key),
                double_formula(DOUBLE_INFINITY),
            ),
        ),
        double_formula(DOUBLE_INFINITY),
    )
}

pub proof fn lemma_finite_formula(key: Seq<char>, row: Seq<(Seq<char>, Node)>)
    ensures
        finite_formula(key).value(row) == Some(Node::Double(finite_or_infinite(row, key))),
{
    reveal_with_fuel(Formula::value, 6);
    match number_formula(key).value(row) {
        Some(Node::Double(x)) => {
            let below = Double { bits: MINUS_INFINITY };
            let above = Double { bits: DOUBLE_INFINITY };
            assert(below.position() == -DOUBLE_INFINITY);
            assert(x.is_finite_spec() <==> below.less(x) && (x.is_nan_spec() || x.less(above)));
        },
        _ => {},
    }
}

proof fn lemma_spaces(c: char)
    ensures
        SPACES@.contains(c) <==> is_space(c),
{
    reveal_strlit(
        "\u{9}\u{A}\u{B}\u{C}\u{D}\u{20}\u{85}\u{A0}\u{1680}\u{2000}\u{2001}\u{2002}\u{2003}\u{2004}\u{2005}\u{2006}\u{2007}\u{2008}\u{2009}\u{200A}\u{2028}\u{2029}\u{202F}\u{205F}\u{3000}",
    );
    let spaces = SPACES@;
    assert(spaces.len() == 25);
    let n = c as u32;
    if is_space(c) {
        let at: int = if n <= 0x0D {
            n - 9
        } else if n == 0x20 {
            5
        } else if n == 0x85 {
            6
        } else if n == 0xA0 {
            7
        } else if n == 0x1680 {
            8
        } else if n <= 0x200A {
            9 + (n - 0x2000)
        } else if n == 0x2028 {
            20
        } else if n == 0x2029 {
            21
        } else if n == 0x202F {
            22
        } else if n == 0x205F {
            23
        } else {
            24
        };
        assert(spaces[at] == c);
    }
}

proof fn lemma_stripping_spaces(s: Seq<char>)
    ensures
        stripped_start(s, SPACES@) == trim_start(s),
        stripped_end(s, SPACES@) == trim_end(s),
    decreases s.len(),
{
    if s.len() > 0 {
        lemma_spaces(s[0]);
        lemma_spaces(s.last());
        lemma_stripping_spaces(s.drop_first());
        lemma_stripping_spaces(s.drop_last());
    }
}

/// Stripping white space trims a text.
pub proof fn lemma_trimming(s: Seq<char>)
    ensures
        stripped_end(stripped_start(s, SPACES@), SPACES@) == trimmed(s),
{
    lemma_stripping_spaces(s);
    lemma_stripping_spaces(trim_start(s));
}

/// The characters of some texts.
pub open spec fn texts(list: Seq<String>) -> Seq<Seq<char>> {
    list.map_values(|s: String| s@)
}

pub(crate) fn call(operator: &str, argument: Bson) -> (expression: Bson)
    ensures
        expression@ == call_node(operator@, argument@),
{
    Bson::Document(Document::new().with(operator, argument))
}

pub(crate) fn literal(value: Bson) -> (expression: Bson)
    ensures
        expression@ == literal_node(value@),
{
    call("$literal", value)
}

/// A list of three values.
fn triple(a: Bson, b: Bson, c: Bson) -> (list: Bson)
    ensures
        list@ == Node::Array(seq![a@, b@, c@]),
{
    let list = Bson::Array(vec![a, b, c]);
    assert(list@->Array_0 =~= seq![a@, b@, c@]);
    list
}

pub(crate) fn choice(test: Bson, yes: Bson, no: Bson) -> (expression: Bson)
    ensures
        expression@ == call_node("$cond"@, Node::Array(seq![test@, yes@, no@])),
{
    call("$cond", triple(test, yes, no))
}

pub(crate) fn double(bits: u64) -> (expression: Bson)
    ensures
        expression@ == double_formula(bits).node(),
{
    literal(Bson::Double(Double { bits }))
}

pub(crate) fn field(key: &str) -> (expression: Bson)
    ensures
        expression@ == field_node(key@),
{
    call(
        "$getField",
        Bson::Document(
            Document::new().with("field", literal(Bson::text(key))).with(
                "input",
                Bson::text("$$row"),
            ),
        ),
    )
}

/// Writes the finite number of a field.
pub(crate) fn finite(key: &str) -> (expression: Bson)
    ensures
        expression@ == finite_formula(key@).node(),
{
    proof {
        reveal_with_fuel(Formula::node, 6);
    }
    let kinds = triple(Bson::text("double"), Bson::text("int"), Bson::text("long"));
    let is_number = call("$in", Bson::pair(call("$type", field(key)), literal(kinds)));
    let above = call(
        "$lt",
        Bson::pair(double(MINUS_INFINITY), call("$toDouble", field(key))),
    );
    let below = call(
        "$lt",
        Bson::pair(call("$toDouble", field(key)), double(DOUBLE_INFINITY)),
    );
    choice(
        is_number,
        choice(
            call("$and", Bson::pair(above, below)),
            call("$toDouble", field(key)),
            double(DOUBLE_INFINITY),
        ),
        double(DOUBLE_INFINITY),
    )
}

/// Writes the condition that a text is one of some texts when case is ignored.
pub(crate) fn any_folded(value: Bson, list: &Vec<String>) -> (expression: Bson)
    ensures
        expression@ == any_folded_node(value@, texts(list@)),
{
    let mut items: Vec<Bson> = Vec::new();
    let mut i: usize = 0;
    while i < list.len()
        invariant
            i <= list@.len(),
            items@.len() == i,
            forall|k: int| 0 <= k < i ==> (#[trigger] items@[k])@ == Node::Text(list@[k]@),
        decreases list.len() - i,
    {
        items.push(Bson::text(list[i].as_str()));
        i = i + 1;
    }
    let known = Bson::Array(items);
    assert(known@->Array_0 =~= texts(list@).map_values(|s: Seq<char>| Node::Text(s)));
    let equal = call(
        "$eq",
        Bson::pair(
            call("$strcasecmp", Bson::pair(Bson::text("$$listed"), value)),
            literal(Bson::Int32(0)),
        ),
    );
    let each = call(
        "$map",
        Bson::Document(
            Document::new().with("input", literal(known)).with("as", Bson::text("listed")).with(
                "in",
                equal,
            ),
        ),
    );
    let ghost wanted = each@;
    let one = Bson::Array(vec![each]);
    assert(one@->Array_0 =~= seq![wanted]);
    call("$anyElementTrue", one)
}

}
