//! Text as sequences of characters: comparing, cutting and composing strings.
use vstd::prelude::*;

verus! {

/// Whether two strings hold the same characters.
pub fn same(a: &str, b: &str) -> (equal: bool)
    ensures
        equal == (a@ == b@),
{
    a.to_string() == b.to_string()
}

/// Whether `s` begins with `prefix`.
pub open spec fn has_prefix(s: Seq<char>, prefix: Seq<char>) -> bool {
    prefix.len() <= s.len() && s.subrange(0, prefix.len() as int) == prefix
}

pub fn starts_with(s: &str, prefix: &str) -> (found: bool)
    ensures
        found == has_prefix(s@, prefix@),
{
    let n: usize = prefix.unicode_len();
    if s.unicode_len() < n {
        return false;
    }
    same(s.substring_char(0, n), prefix)
}

/// Whether `part` stands in `s` from character `at` on.
pub open spec fn occurs_at(s: Seq<char>, part: Seq<char>, at: int) -> bool {
    0 <= at && at + part.len() <= s.len() && s.subrange(at, at + part.len()) == part
}

/// Whether `part` stands somewhere in `s`.
pub open spec fn occurs_in(s: Seq<char>, part: Seq<char>) -> bool {
    exists|at: int| occurs_at(s, part, at)
}

pub fn contains(s: &str, part: &str) -> (found: bool)
    ensures
        found == occurs_in(s@, part@),
{
    let n: usize = s.unicode_len();
    let m: usize = part.unicode_len();
    if n < m {
        return false;
    }
    let mut at: usize = 0;
    while at <= n - m
        invariant
            n == s@.len(),
            m == part@.len(),
            m <= n,
            at <= n - m + 1,
            forall|k: int| 0 <= k < at ==> !occurs_at(s@, part@, k),
        decreases n - m + 1 - at,
    {
        if same(s.substring_char(at, at + m), part) {
            assert(occurs_at(s@, part@, at as int));
            return true;
        }
        if at == n - m {
            return false;
        }
        at = at + 1;
    }
    false
}

/// Position of the first character of `s` that is one of `stops`, or the length
/// of `s` when there is none.
pub open spec fn first_of(s: Seq<char>, stops: Seq<char>) -> int
    decreases s.len(),
{
    if s.len() == 0 {
        0
    } else if stops.contains(s[0]) {
        0
    } else {
        1 + first_of(s.drop_first(), stops)
    }
}

pub proof fn lemma_first_of_bounds(s: Seq<char>, stops: Seq<char>)
    ensures
        0 <= first_of(s, stops) <= s.len(),
    decreases s.len(),
{
    if s.len() != 0 && !stops.contains(s[0]) {
        lemma_first_of_bounds(s.drop_first(), stops);
    }
}

fn holds_char(stops: &str, c: char) -> (found: bool)
    ensures
        found == stops@.contains(c),
{
    let n: usize = stops.unicode_len();
    let mut i: usize = 0;
    while i < n
        invariant
            n == stops@.len(),
            i <= n,
            forall|k: int| 0 <= k < i ==> stops@[k] != c,
        decreases n - i,
    {
        if stops.get_char(i) == c {
            return true;
        }
        i = i + 1;
    }
    false
}

/// Finds the first character of `s` that is one of `stops`.
pub fn find_first_of(s: &str, stops: &str) -> (at: usize)
    ensures
        at == first_of(s@, stops@),
        at <= s@.len(),
{
    let n: usize = s.unicode_len();
    let mut i: usize = 0;
    assert(s@.skip(0) =~= s@);
    while i < n
        invariant
            n == s@.len(),
            i <= n,
            first_of(s@, stops@) == i + first_of(s@.skip(i as int), stops@),
        decreases n - i,
    {
        assert(s@.skip(i as int).drop_first() =~= s@.skip(i + 1));
        if holds_char(stops, s.get_char(i)) {
            return i;
        }
        i = i + 1;
    }
    i
}

/// What stands in `s` before the first character of `stops`.
pub open spec fn before_first(s: Seq<char>, stops: Seq<char>) -> Seq<char> {
    s.take(first_of(s, stops))
}

/// What stands in `s` after the first `stop`.
pub open spec fn after_first(s: Seq<char>, stop: Seq<char>) -> Seq<char> {
    s.skip(first_of(s, stop) + 1)
}

/// Cuts `s` at its first `stop` character: what stands before it and after it,
/// or nothing when `s` has no such character.
pub fn split_once<'a>(s: &'a str, stop: &str) -> (parts: Option<(&'a str, &'a str)>)
    ensures
        parts is Some <==> first_of(s@, stop@) < s@.len(),
        parts matches Some((head, tail)) ==> head@ == before_first(s@, stop@) && tail@
            == after_first(s@, stop@),
{
    let at: usize = find_first_of(s, stop);
    let n: usize = s.unicode_len();
    if at < n {
        let head = s.substring_char(0, at);
        let tail = s.substring_char(at + 1, n);
        assert(head@ =~= before_first(s@, stop@));
        assert(tail@ =~= after_first(s@, stop@));
        Some((head, tail))
    } else {
        None
    }
}

/// The `White_Space` characters of Unicode.
pub open spec fn is_space(c: char) -> bool {
    let n = c as u32;
    ||| 0x09 <= n <= 0x0D
    ||| n == 0x20
    ||| n == 0x85
    ||| n == 0xA0
    ||| n == 0x1680
    ||| 0x2000 <= n <= 0x200A
    ||| n == 0x2028
    ||| n == 0x2029
    ||| n == 0x202F
    ||| n == 0x205F
    ||| n == 0x3000
}

fn space(c: char) -> (found: bool)
    ensures
        found == is_space(c),
{
    let n: u32 = c as u32;
    (0x09 <= n && n <= 0x0D) || n == 0x20 || n == 0x85 || n == 0xA0 || n == 0x1680 || (0x2000 <= n
        && n <= 0x200A) || n == 0x2028 || n == 0x2029 || n == 0x202F || n == 0x205F || n == 0x3000
}

/// `s` without the white space at its start.
pub open spec fn trim_start(s: Seq<char>) -> Seq<char>
    decreases s.len(),
{
    if s.len() > 0 && is_space(s[0]) {
        trim_start(s.drop_first())
    } else {
        s
    }
}

/// `s` without the white space at its end.
pub open spec fn trim_end(s: Seq<char>) -> Seq<char>
    decreases s.len(),
{
    if s.len() > 0 && is_space(s.last()) {
        trim_end(s.drop_last())
    } else {
        s
    }
}

/// `s` without the white space at either end.
pub open spec fn trimmed(s: Seq<char>) -> Seq<char> {
    trim_end(trim_start(s))
}

pub fn trim<'a>(s: &'a str) -> (inner: &'a str)
    ensures
        inner@ == trimmed(s@),
{
    let n: usize = s.unicode_len();
    let mut i: usize = 0;
    assert(s@.skip(0) =~= s@);
    while i < n && space(s.get_char(i))
        invariant
            n == s@.len(),
            i <= n,
            trim_start(s@) == trim_start(s@.skip(i as int)),
        decreases n - i,
    {
        assert(s@.skip(i as int).drop_first() =~= s@.skip(i + 1));
        i = i + 1;
    }
    let ghost kept = s@.skip(i as int);
    assert(trim_start(s@) == kept);
    let mut j: usize = n;
    assert(s@.subrange(i as int, j as int) =~= kept);
    while i < j && space(s.get_char(j - 1))
        invariant
            n == s@.len(),
            i <= j <= n,
            trim_end(kept) == trim_end(s@.subrange(i as int, j as int)),
        decreases j,
    {
        assert(s@.subrange(i as int, j as int).drop_last() =~= s@.subrange(i as int, j - 1));
        j = j - 1;
    }
    s.substring_char(i, j)
}

/// `s` without the run of `c` at its end.
pub open spec fn without_trailing(s: Seq<char>, c: char) -> Seq<char>
    decreases s.len(),
{
    if s.len() > 0 && s.last() == c {
        without_trailing(s.drop_last(), c)
    } else {
        s
    }
}

pub fn trim_end_matches<'a>(s: &'a str, c: char) -> (kept: &'a str)
    ensures
        kept@ == without_trailing(s@, c),
{
    let n: usize = s.unicode_len();
    let mut j: usize = n;
    assert(s@.subrange(0, n as int) =~= s@);
    while j > 0 && s.get_char(j - 1) == c
        invariant
            n == s@.len(),
            j <= n,
            without_trailing(s@, c) == without_trailing(s@.subrange(0, j as int), c),
        decreases j,
    {
        assert(s@.subrange(0, j as int).drop_last() =~= s@.subrange(0, j - 1));
        j = j - 1;
    }
    s.substring_char(0, j)
}

/// The characters of an optional text.
pub open spec fn text_of(s: Option<String>) -> Option<Seq<char>> {
    match s {
        Some(s) => Some(s@),
        None => None,
    }
}

/// Copies an optional text.
pub fn copy_text(s: &Option<String>) -> (copy: Option<String>)
    ensures
        text_of(copy) == text_of(*s),
{
    match s {
        Some(s) => Some(s.clone()),
        None => None,
    }
}

/// The code of `c` with the letters A to Z taken as a to z.
pub open spec fn folded(c: char) -> int {
    if 'A' <= c <= 'Z' {
        c as u32 + 32
    } else {
        c as u32 as int
    }
}

fn fold(c: char) -> (code: u32)
    ensures
        code == folded(c),
{
    let n: u32 = c as u32;
    if 'A' <= c && c <= 'Z' {
        n + 32
    } else {
        n
    }
}

/// Whether two texts are the same when the case of ASCII letters is ignored.
pub open spec fn same_folded(a: Seq<char>, b: Seq<char>) -> bool {
    a.len() == b.len() && forall|i: int| 0 <= i < a.len() ==> #[trigger] folded(a[i]) == folded(b[i])
}

pub fn eq_ignore_ascii_case(a: &str, b: &str) -> (equal: bool)
    ensures
        equal == same_folded(a@, b@),
{
    let n: usize = a.unicode_len();
    if n != b.unicode_len() {
        return false;
    }
    let mut i: usize = 0;
    while i < n
        invariant
            n == a@.len(),
            n == b@.len(),
            i <= n,
            forall|k: int| 0 <= k < i ==> #[trigger] folded(a@[k]) == folded(b@[k]),
        decreases n - i,
    {
        if fold(a.get_char(i)) != fold(b.get_char(i)) {
            assert(folded(a@[i as int]) != folded(b@[i as int]));
            return false;
        }
        i = i + 1;
    }
    true
}

/// Whether some texts hold `s` when the case of ASCII letters is ignored.
pub open spec fn lists_folded(list: Seq<String>, s: Seq<char>) -> bool {
    exists|i: int| 0 <= i < list.len() && same_folded(#[trigger] list[i]@, s)
}

pub fn any_ignore_ascii_case(list: &Vec<String>, s: &str) -> (found: bool)
    ensures
        found == lists_folded(list@, s@),
{
    let mut i: usize = 0;
    while i < list.len()
        invariant
            i <= list@.len(),
            forall|k: int| 0 <= k < i ==> !same_folded(#[trigger] list@[k]@, s@),
        decreases list.len() - i,
    {
        if eq_ignore_ascii_case(list[i].as_str(), s) {
            return true;
        }
        i = i + 1;
    }
    false
}

/// Whether `s` begins with `prefix` when the case of ASCII letters is ignored.
pub open spec fn has_prefix_folded(s: Seq<char>, prefix: Seq<char>) -> bool {
    prefix.len() <= s.len() && same_folded(s.subrange(0, prefix.len() as int), prefix)
}

pub fn starts_with_ignore_ascii_case(s: &str, prefix: &str) -> (found: bool)
    ensures
        found == has_prefix_folded(s@, prefix@),
{
    let n: usize = prefix.unicode_len();
    if s.unicode_len() < n {
        return false;
    }
    eq_ignore_ascii_case(s.substring_char(0, n), prefix)
}

/// The decimal digit that stands for `d`.
pub open spec fn digit(d: int) -> char {
    (48 + d) as u32 as char
}

/// `n` written in decimal.
pub open spec fn decimal(n: nat) -> Seq<char>
    decreases n,
{
    if n < 10 {
        seq![digit(n as int)]
    } else {
        decimal(n / 10).push(digit((n % 10) as int))
    }
}

/// `n` written in decimal, with a minus sign where it is negative.
pub open spec fn signed_decimal(n: int) -> Seq<char> {
    if n < 0 {
        seq!['-'] + decimal((-n) as nat)
    } else {
        decimal(n as nat)
    }
}

fn digit_text(d: u64) -> (s: &'static str)
    requires
        d < 10,
    ensures
        s@ == seq![digit(d as int)],
{
    proof {
        reveal_strlit("0");
        reveal_strlit("1");
        reveal_strlit("2");
        reveal_strlit("3");
        reveal_strlit("4");
        reveal_strlit("5");
        reveal_strlit("6");
        reveal_strlit("7");
        reveal_strlit("8");
        reveal_strlit("9");
    }
    let s = match d {
        0 => "0",
        1 => "1",
        2 => "2",
        3 => "3",
        4 => "4",
        5 => "5",
        6 => "6",
        7 => "7",
        8 => "8",
        _ => "9",
    };
    assert(s@ =~= seq![digit(d as int)]);
    s
}

/// Writes `n` in decimal.
pub fn write_u64(n: u64) -> (s: String)
    ensures
        s@ == decimal(n as nat),
    decreases n,
{
    if n < 10 {
        digit_text(n).to_string()
    } else {
        let head = write_u64(n / 10);
        let s = head.concat(digit_text(n % 10));
        assert(s@ =~= decimal(n as nat));
        s
    }
}

/// Writes `n` in decimal, with a minus sign where it is negative.
pub fn write_i64(n: i64) -> (s: String)
    ensures
        s@ == signed_decimal(n as int),
{
    proof {
        reveal_strlit("-");
    }
    if n == i64::MIN {
        let s = "-".to_string().concat(write_u64(0x8000_0000_0000_0000).as_str());
        assert(s@ =~= signed_decimal(n as int));
        s
    } else if n < 0 {
        let s = "-".to_string().concat(write_u64((-n) as u64).as_str());
        assert(s@ =~= signed_decimal(n as int));
        s
    } else {
        write_u64(n as u64)
    }
}

/// Puts three pieces of text together.
pub fn join3(a: &str, b: &str, c: &str) -> (s: String)
    ensures
        s@ == a@ + b@ + c@,
{
    a.to_string().concat(b).concat(c)
}

}
