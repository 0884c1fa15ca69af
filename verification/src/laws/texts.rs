//! What the operations on texts do.
use vstd::prelude::*;

use crate::text::{
    any_ignore_ascii_case, contains, decimal, digit, eq_ignore_ascii_case, find_first_of, first_of,
    folded, is_space, occurs_at, same, split_once, starts_with, starts_with_ignore_ascii_case, trim,
    trim_end, trim_end_matches, trim_start, trimmed, without_trailing, write_i64, write_u64,
};

verus! {

/// The first place of a text that holds one of some characters is where it is cut.
pub proof fn the_first_stop_is_found(s: Seq<char>, stops: Seq<char>, at: int)
    requires
        0 <= at <= s.len(),
        forall|k: int| 0 <= k < at ==> !stops.contains(#[trigger] s[k]),
        at < s.len() ==> stops.contains(s[at]),
    ensures
        first_of(s, stops) == at,
    decreases s.len(),
{
    if at > 0 {
        let rest = s.drop_first();
        assert(!stops.contains(s[0]));
        assert forall|k: int| 0 <= k < at - 1 implies !stops.contains(#[trigger] rest[k]) by {
            assert(rest[k] == s[k + 1]);
        }
        if at < s.len() {
            assert(rest[at - 1] == s[at]);
        }
        the_first_stop_is_found(rest, stops, at - 1);
    }
}

proof fn lemma_first_of(s: Seq<char>, stops: Seq<char>)
    ensures
        0 <= first_of(s, stops) <= s.len(),
        forall|k: int| 0 <= k < first_of(s, stops) ==> !stops.contains(#[trigger] s[k]),
        first_of(s, stops) < s.len() ==> stops.contains(s[first_of(s, stops)]),
    decreases s.len(),
{
    if s.len() > 0 && !stops.contains(s[0]) {
        let rest = s.drop_first();
        lemma_first_of(rest, stops);
        assert forall|k: int| 0 <= k < first_of(s, stops) implies !stops.contains(
            #[trigger] s[k],
        ) by {
            if k > 0 {
                assert(rest[k - 1] == s[k]);
            }
        }
    }
}

/// Cutting a text at a stop gives what stands before the first one and after it, and loses
/// nothing else.
pub proof fn texts_are_cut_at_the_first_stop(
    s: &str,
    stop: &str,
    at: usize,
    parts: Option<(&str, &str)>,
)
    requires
        call_ensures(find_first_of, (s, stop), at),
        call_ensures(split_once, (s, stop), parts),
    ensures
        at <= s@.len(),
        forall|k: int| 0 <= k < at ==> !stop@.contains(#[trigger] s@[k]),
        at < s@.len() ==> stop@.contains(s@[at as int]),
        parts is Some <==> at < s@.len(),
        parts matches Some((head, tail)) ==> s@ == head@ + seq![s@[at as int]] + tail@
            && head@.len() == at,
{
    lemma_first_of(s@, stop@);
    if let Some((head, tail)) = parts {
        assert(s@ =~= head@ + seq![s@[at as int]] + tail@);
    }
}

/// Two texts are the same when they hold the same characters, and one begins with another
/// when that stands at its start, or is part of it when that stands anywhere.
pub proof fn texts_are_compared_by_their_characters(
    s: &str,
    part: &str,
    equal: bool,
    begins: bool,
    holds: bool,
)
    requires
        call_ensures(same, (s, part), equal),
        call_ensures(starts_with, (s, part), begins),
        call_ensures(contains, (s, part), holds),
    ensures
        equal <==> s@ == part@,
        begins <==> part@.is_prefix_of(s@),
        holds <==> exists|before: Seq<char>, after: Seq<char>| #[trigger]
            (before + part@ + after) == s@,
{
    if part@.len() <= s@.len() {
        assert(part@.is_prefix_of(s@) == (s@.subrange(0, part@.len() as int) =~= part@));
    }
    if holds {
        let at = choose|at: int| occurs_at(s@, part@, at);
        let before = s@.take(at);
        let after = s@.skip(at + part@.len());
        assert(before + part@ + after =~= s@);
    }
    if exists|before: Seq<char>, after: Seq<char>| #[trigger] (before + part@ + after) == s@ {
        let (before, after) = choose|before: Seq<char>, after: Seq<char>| #[trigger]
            (before + part@ + after) == s@;
        assert(s@.subrange(before.len() as int, (before.len() + part@.len()) as int) =~= part@);
        assert(occurs_at(s@, part@, before.len() as int));
    }
}

/// Whether two characters are the same but for the case of an ASCII letter.
pub open spec fn alike(a: char, b: char) -> bool {
    ||| a == b
    ||| 'A' <= a <= 'Z' && b as u32 == a as u32 + 32
    ||| 'A' <= b <= 'Z' && a as u32 == b as u32 + 32
}

proof fn lemma_alike(x: char, y: char)
    ensures
        (folded(x) == folded(y)) == alike(x, y),
{
    let a = x as u32;
    let b = y as u32;
    assert(a == b ==> x == y);
    assert('A' as u32 == 65 && 'Z' as u32 == 90);
    assert(('A' <= x <= 'Z') == (65 <= a <= 90));
    assert(('A' <= y <= 'Z') == (65 <= b <= 90));
}

/// Where the case of ASCII letters is ignored, texts are the same when they are so character
/// by character.
pub proof fn only_the_case_of_letters_is_ignored(
    a: &str,
    b: &str,
    list: Vec<String>,
    equal: bool,
    begins: bool,
    listed: bool,
)
    requires
        call_ensures(eq_ignore_ascii_case, (a, b), equal),
        call_ensures(starts_with_ignore_ascii_case, (a, b), begins),
        call_ensures(any_ignore_ascii_case, (&list, a), listed),
    ensures
        equal <==> a@.len() == b@.len() && forall|i: int|
            0 <= i < a@.len() ==> alike(#[trigger] a@[i], b@[i]),
        begins <==> b@.len() <= a@.len() && forall|i: int|
            0 <= i < b@.len() ==> alike(a@[i], #[trigger] b@[i]),
        listed <==> exists|k: int|
            0 <= k < list@.len() && (#[trigger] list@[k])@.len() == a@.len() && forall|i: int|
                0 <= i < a@.len() ==> alike(list@[k]@[i], #[trigger] a@[i]),
{
    assert forall|x: char, y: char| (#[trigger] folded(x) == #[trigger] folded(y)) == alike(x, y) by {
        lemma_alike(x, y);
    }
    if a@.len() == b@.len() {
        if equal {
            assert forall|i: int| 0 <= i < a@.len() implies alike(#[trigger] a@[i], b@[i]) by {
                assert(folded(a@[i]) == folded(b@[i]));
            }
        }
        if forall|i: int| 0 <= i < a@.len() ==> alike(#[trigger] a@[i], b@[i]) {
            assert forall|i: int| 0 <= i < a@.len() implies #[trigger] folded(a@[i]) == folded(
                b@[i],
            ) by {
                assert(alike(a@[i], b@[i]));
            }
        }
    }
    if b@.len() <= a@.len() {
        let start = a@.subrange(0, b@.len() as int);
        if begins {
            assert forall|i: int| 0 <= i < b@.len() implies alike(a@[i], #[trigger] b@[i]) by {
                assert(folded(start[i]) == folded(b@[i]));
            }
        }
        if forall|i: int| 0 <= i < b@.len() ==> alike(a@[i], #[trigger] b@[i]) {
            assert forall|i: int| 0 <= i < start.len() implies #[trigger] folded(start[i])
                == folded(b@[i]) by {
                assert(alike(a@[i], b@[i]));
            }
        }
    }
    assert forall|k: int| 0 <= k < list@.len() implies crate::text::same_folded(
        #[trigger] list@[k]@,
        a@,
    ) == (list@[k]@.len() == a@.len() && forall|i: int|
        0 <= i < a@.len() ==> alike(list@[k]@[i], #[trigger] a@[i])) by {
        let held = list@[k]@;
        if crate::text::same_folded(held, a@) {
            assert forall|i: int| 0 <= i < a@.len() implies alike(held[i], #[trigger] a@[i]) by {
                assert(folded(held[i]) == folded(a@[i]));
            }
        }
        if held.len() == a@.len() && forall|i: int|
            0 <= i < a@.len() ==> alike(held[i], #[trigger] a@[i]) {
            assert forall|i: int| 0 <= i < held.len() implies #[trigger] folded(held[i]) == folded(
                a@[i],
            ) by {
                assert(alike(held[i], a@[i]));
            }
        }
    }
    if listed {
        let k = choose|k: int|
            0 <= k < list@.len() && crate::text::same_folded(#[trigger] list@[k]@, a@);
        assert(list@[k]@.len() == a@.len());
    }
}

proof fn lemma_trim_start(s: Seq<char>) -> (i: int)
    ensures
        0 <= i <= s.len(),
        trim_start(s) == s.skip(i),
        forall|k: int| 0 <= k < i ==> is_space(#[trigger] s[k]),
        i < s.len() ==> !is_space(s[i]),
    decreases s.len(),
{
    if s.len() > 0 && is_space(s[0]) {
        let rest = s.drop_first();
        let i = lemma_trim_start(rest);
        assert(rest.skip(i) =~= s.skip(i + 1));
        assert forall|k: int| 0 <= k < i + 1 implies is_space(#[trigger] s[k]) by {
            if k > 0 {
                assert(rest[k - 1] == s[k]);
            }
        }
        i + 1
    } else {
        assert(s.skip(0) =~= s);
        0
    }
}

proof fn lemma_trim_end(s: Seq<char>) -> (j: int)
    ensures
        0 <= j <= s.len(),
        trim_end(s) == s.take(j),
        forall|k: int| j <= k < s.len() ==> is_space(#[trigger] s[k]),
        j > 0 ==> !is_space(s[j - 1]),
    decreases s.len(),
{
    if s.len() > 0 && is_space(s.last()) {
        let rest = s.drop_last();
        let j = lemma_trim_end(rest);
        assert(rest.take(j) =~= s.take(j));
        assert forall|k: int| j <= k < s.len() implies is_space(#[trigger] s[k]) by {
            if k < rest.len() {
                assert(rest[k] == s[k]);
            }
        }
        j
    } else {
        assert(s.take(s.len() as int) =~= s);
        s.len() as int
    }
}

/// Trimming a text takes away white space at both its ends, and nothing else: what remains
/// neither begins nor ends with any.
pub proof fn trimming_takes_away_white_space(s: &str, inner: &str)
    requires
        call_ensures(trim, (s,), inner),
    ensures
        exists|i: int, j: int|
            #![trigger s@.subrange(i, j)]
            {
                &&& 0 <= i <= j <= s@.len()
                &&& inner@ == s@.subrange(i, j)
                &&& forall|k: int| 0 <= k < i || j <= k < s@.len() ==> is_space(#[trigger] s@[k])
                &&& i < j ==> !is_space(s@[i]) && !is_space(s@[j - 1])
            },
{
    let i = lemma_trim_start(s@);
    let rest = s@.skip(i);
    let n = lemma_trim_end(rest);
    let j = i + n;
    assert(inner@ =~= s@.subrange(i, j));
    assert forall|k: int| 0 <= k < i || j <= k < s@.len() implies is_space(#[trigger] s@[k]) by {
        if j <= k {
            assert(rest[k - i] == s@[k]);
        }
    }
    if i < j {
        assert(rest[n - 1] == s@[j - 1]);
    }
}

/// A text that neither begins nor ends with white space is left as it is.
pub proof fn trimming_leaves_trimmed_texts(s: Seq<char>)
    requires
        s.len() > 0 ==> !is_space(s[0]) && !is_space(s.last()),
    ensures
        trimmed(s) == s,
{
}

/// Of the ASCII characters, white space is the blank and those from the tab to the carriage
/// return; no letter, digit or mark is. Of the others it is the next line, the separators of
/// lines and paragraphs and the blanks of various widths.
pub proof fn what_white_space_is(c: char)
    ensures
        c as u32 <= 127 ==> (is_space(c) <==> c as u32 == 32 || 9 <= c as u32 <= 13),
        c as u32 > 127 ==> (is_space(c) <==> set![
            133u32, 160u32, 5760u32, 8192u32, 8193u32, 8194u32, 8195u32, 8196u32, 8197u32, 8198u32,
            8199u32, 8200u32, 8201u32, 8202u32, 8232u32, 8233u32, 8239u32, 8287u32, 12288u32,
        ].contains(c as u32)),
{
}

proof fn lemma_without_trailing(s: Seq<char>, c: char) -> (j: int)
    ensures
        0 <= j <= s.len(),
        without_trailing(s, c) == s.take(j),
        forall|k: int| j <= k < s.len() ==> #[trigger] s[k] == c,
        j > 0 ==> s[j - 1] != c,
    decreases s.len(),
{
    if s.len() > 0 && s.last() == c {
        let rest = s.drop_last();
        let j = lemma_without_trailing(rest, c);
        assert(rest.take(j) =~= s.take(j));
        assert forall|k: int| j <= k < s.len() implies #[trigger] s[k] == c by {
            if k < rest.len() {
                assert(rest[k] == s[k]);
            }
        }
        j
    } else {
        assert(s.take(s.len() as int) =~= s);
        s.len() as int
    }
}

/// What is taken from the end of a text is the run of one character, all of it.
pub proof fn a_run_at_the_end_is_taken_away(s: &str, c: char, kept: &str)
    requires
        call_ensures(trim_end_matches, (s, c), kept),
    ensures
        kept@.is_prefix_of(s@),
        forall|k: int| kept@.len() <= k < s@.len() ==> #[trigger] s@[k] == c,
        kept@.len() > 0 ==> kept@.last() != c,
{
    let j = lemma_without_trailing(s@, c);
}

/// The number that some decimal digits stand for.
pub open spec fn value_of(digits: Seq<char>) -> int
    decreases digits.len(),
{
    if digits.len() == 0 {
        0
    } else {
        value_of(digits.drop_last()) * 10 + (digits.last() as u32 - 48)
    }
}

proof fn lemma_decimal(n: nat)
    ensures
        decimal(n).len() > 0,
        value_of(decimal(n)) == n,
        forall|i: int| 0 <= i < decimal(n).len() ==> '0' <= #[trigger] decimal(n)[i] <= '9',
        n > 0 ==> decimal(n)[0] != '0',
    decreases n,
{
    if n < 10 {
        let s = decimal(n);
        assert(s.drop_last() =~= Seq::empty());
        assert(value_of(s.drop_last()) == 0);
    } else {
        let head = decimal(n / 10);
        let s = decimal(n);
        lemma_decimal(n / 10);
        assert(s.drop_last() =~= head);
        assert forall|i: int| 0 <= i < s.len() implies '0' <= #[trigger] s[i] <= '9' by {
            if i < head.len() {
                assert(s[i] == head[i]);
            }
        }
        assert(s[0] == head[0]);
    }
}

/// A number is written in decimal digits that stand for it, without a zero before them, and
/// after a minus sign where it is negative.
pub proof fn numbers_are_written_in_decimal(n: u64, m: i64, plain: String, signed: String)
    requires
        call_ensures(write_u64, (n,), plain),
        call_ensures(write_i64, (m,), signed),
    ensures
        value_of(plain@) == n,
        forall|i: int| 0 <= i < plain@.len() ==> '0' <= #[trigger] plain@[i] <= '9',
        plain@.len() > 0,
        plain@.len() > 1 ==> plain@[0] != '0',
        m >= 0 ==> value_of(signed@) == m && '0' <= signed@[0] <= '9',
        m < 0 ==> signed@[0] == '-' && value_of(signed@.drop_first()) == -m,
{
    lemma_decimal(n as nat);
    if n == 0 {
        assert(plain@.len() == 1);
    }
    if m < 0 {
        lemma_decimal((-m) as nat);
        assert(signed@.drop_first() =~= decimal((-m) as nat));
    } else {
        lemma_decimal(m as nat);
    }
}

}
