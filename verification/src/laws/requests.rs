//! What is learnt and reported of requests.
use vstd::prelude::*;

use crate::api::analytics::{
    book_batch, gathered, sends, AnalyticsClient, AnalyticsEvent, Delivery, FlushInput,
};
use crate::api::observability::{
    api_of, build_request_event, caller_of, client_attribute, comment_of, parse_user_agent,
    product_name, product_token, product_version, read_comment, read_part, report_request,
    unknown_caller, Answered, Caller, ClientInfo,
};
use crate::conf::PostHogConfig;
use crate::json::Fact;
use crate::laws::texts::{
    the_first_stop_is_found, trimming_leaves_trimmed_texts, trimming_takes_away_white_space,
};
use crate::text::{
    after_first, before_first, first_of, folded, has_prefix, has_prefix_folded, is_space, occurs_at,
    text_of, trim, trim_end, trim_start, trimmed,
};

verus! {

/// Whether a text has none of some characters and no white space.
pub open spec fn is_plain(s: Seq<char>) -> bool {
    forall|i: int|
        0 <= i < s.len() ==> {
            let c = #[trigger] s[i];
            !is_space(c) && c != '(' && c != ')' && c != '/' && c != ';'
        }
}

/// What the package sends: `babamul-python/<version> (Python/<python>; <os>)`.
pub open spec fn package_header(
    version: Seq<char>,
    python: Seq<char>,
    os: Seq<char>,
) -> Seq<char> {
    "babamul-python"@ + seq!['/'] + version + seq![' ', '('] + "Python"@ + seq!['/'] + python
        + seq![';', ' '] + os + seq![')']
}

proof fn lemma_stops()
    ensures
        "( "@ == seq!['(', ' '],
        "/"@ == seq!['/'],
        "("@ == seq!['('],
        ")"@ == seq![')'],
        ";"@ == seq![';'],
        "babamul-python"@ == seq![
            'b', 'a', 'b', 'a', 'm', 'u', 'l', '-', 'p', 'y', 't', 'h', 'o', 'n',
        ],
        "Python"@ == seq!['P', 'y', 't', 'h', 'o', 'n'],
{
    reveal_strlit("( ");
    reveal_strlit("/");
    reveal_strlit("(");
    reveal_strlit(")");
    reveal_strlit(";");
    reveal_strlit("babamul-python");
    reveal_strlit("Python");
    assert("( "@ =~= seq!['(', ' ']);
    assert("/"@ =~= seq!['/']);
    assert("("@ =~= seq!['(']);
    assert(")"@ =~= seq![')']);
    assert(";"@ =~= seq![';']);
    assert("babamul-python"@ =~= seq![
        'b', 'a', 'b', 'a', 'm', 'u', 'l', '-', 'p', 'y', 't', 'h', 'o', 'n',
    ]);
    assert("Python"@ =~= seq!['P', 'y', 't', 'h', 'o', 'n']);
}

proof fn lemma_package_header(s: Seq<char>, version: Seq<char>, comment: Seq<char>)
    requires
        s == "babamul-python"@ + seq!['/'] + version + seq![' ', '('] + comment + seq![')'],
        is_plain(version),
        forall|i: int| 0 <= i < comment.len() ==> #[trigger] comment[i] != ')',
    ensures
        caller_of(s) == read_comment(
            comment,
            Caller {
                client: Some("babamul-python"@),
                client_version: Some(version),
                ..unknown_caller()
            },
        ),
{
    lemma_stops();
    let product = "babamul-python"@ + seq!['/'] + version;
    assert(s =~= product + seq![' ', '('] + comment + seq![')']);
    let n = product.len() as int;
    assert(s[0] == 'b' && s.last() == ')');
    trimming_leaves_trimmed_texts(s);
    assert(seq!['(', ' '].contains(' ')) by {
        assert(seq!['(', ' '][1] == ' ');
    }
    assert(seq!['('].contains('(')) by {
        assert(seq!['('][0] == '(');
    }
    assert(seq![')'].contains(')')) by {
        assert(seq![')'][0] == ')');
    }
    assert(seq!['/'].contains('/')) by {
        assert(seq!['/'][0] == '/');
    }
    assert forall|k: int| 0 <= k < n implies s[k] == #[trigger] product[k] && product[k] != '('
        && product[k] != ' ' by {
        if k >= 15 {
            assert(product[k] == version[k - 15]);
            assert(!is_space(version[k - 15]));
        }
    }
    assert forall|k: int| 0 <= k < n implies !seq!['(', ' '].contains(#[trigger] s[k]) by {
        assert(s[k] == product[k]);
    }
    assert(s[n] == ' ' && s[n + 1] == '(');
    the_first_stop_is_found(s, "( "@, n);
    assert(before_first(s, "( "@) =~= product);
    assert(product[0] == 'b');
    if version.len() > 0 {
        assert(product.last() == version.last());
        assert(!is_space(version[version.len() - 1]));
    } else {
        assert(product.last() == '/');
    }
    trimming_leaves_trimmed_texts(product);
    assert(product_token(s) == product);
    assert forall|k: int| 0 <= k < 14 implies !seq!['/'].contains(#[trigger] product[k]) by {}
    assert(product[14] == '/');
    the_first_stop_is_found(product, "/"@, 14);
    assert(product_name(product) =~= "babamul-python"@);
    assert(after_first(product, "/"@) =~= version);
    assert forall|k: int| 0 <= k < n + 1 implies !seq!['('].contains(#[trigger] s[k]) by {
        if k < n {
            assert(s[k] == product[k]);
        }
    }
    the_first_stop_is_found(s, "("@, n + 1);
    let rest = after_first(s, "("@);
    assert(rest =~= comment + seq![')']);
    let m = comment.len() as int;
    assert forall|k: int| 0 <= k < m implies !seq![')'].contains(#[trigger] rest[k]) by {
        assert(rest[k] == comment[k]);
    }
    assert(rest[m] == ')');
    the_first_stop_is_found(rest, ")"@, m);
    assert(before_first(rest, ")"@) =~= comment);
}

proof fn lemma_comment_part(part: Seq<char>, rest: Seq<char>, seen: Caller)
    requires
        forall|i: int| 0 <= i < part.len() ==> #[trigger] part[i] != ';',
    ensures
        read_comment(part + seq![';'] + rest, seen) == read_comment(
            rest,
            read_part(trimmed(part), seen),
        ),
        read_comment(part, seen) == read_part(trimmed(part), seen),
{
    lemma_stops();
    let comment = part + seq![';'] + rest;
    let n = part.len() as int;
    assert(seq![';'].contains(';')) by {
        assert(seq![';'][0] == ';');
    }
    assert forall|k: int| 0 <= k < n implies !seq![';'].contains(#[trigger] comment[k]) by {
        assert(comment[k] == part[k]);
    }
    assert(comment[n] == ';');
    the_first_stop_is_found(comment, ";"@, n);
    assert(before_first(comment, ";"@) =~= part);
    assert(after_first(comment, ";"@) =~= rest);
    assert forall|k: int| 0 <= k < n implies !seq![';'].contains(#[trigger] part[k]) by {}
    the_first_stop_is_found(part, ";"@, n);
    assert(before_first(part, ";"@) =~= part);
}

proof fn lemma_trim_blank(s: Seq<char>)
    requires
        s.len() > 0,
        !is_space(s[0]),
        !is_space(s.last()),
    ensures
        trimmed(seq![' '] + s) == s,
        trimmed(s) == s,
{
    let tail = seq![' '] + s;
    assert(tail.drop_first() =~= s);
    assert(is_space(tail[0]));
    assert(trim_start(tail) == trim_start(s));
    trimming_leaves_trimmed_texts(s);
    assert(trim_start(s) == s);
}

proof fn lemma_read_parts(python: Seq<char>, other: Seq<char>, seen: Caller)
    requires
        is_plain(python),
        is_plain(other),
        other.len() > 0,
    ensures
        read_part("Python"@ + seq!['/'] + python, seen) == (Caller {
            python_version: Some(python),
            ..seen
        }),
        read_part(other, seen) == if seen.os is None {
            Caller { os: Some(other), ..seen }
        } else {
            seen
        },
{
    lemma_stops();
    let head = "Python"@ + seq!['/'] + python;
    assert(seq!['/'].contains('/')) by {
        assert(seq!['/'][0] == '/');
    }
    assert forall|k: int| 0 <= k < 6 implies !seq!['/'].contains(#[trigger] head[k]) by {}
    the_first_stop_is_found(head, "/"@, 6);
    assert(before_first(head, "/"@) =~= "Python"@);
    assert(after_first(head, "/"@) =~= python);
    assert forall|k: int| 0 <= k < other.len() implies !seq!['/'].contains(#[trigger] other[k]) by {}
    the_first_stop_is_found(other, "/"@, other.len() as int);
    assert(read_part(head, seen) =~= Caller { python_version: Some(python), ..seen });
    if seen.os is None {
        assert(read_part(other, seen) =~= Caller { os: Some(other), ..seen });
    }
}

/// What a caller of the package's own header is known by.
pub open spec fn is_package(
    info: ClientInfo,
    version: Seq<char>,
    python: Seq<char>,
    os: Seq<char>,
) -> bool {
    &&& text_of(info.client) == Some("babamul-python"@)
    &&& text_of(info.client_version) == Some(version)
    &&& text_of(info.python_version) == Some(python)
    &&& text_of(info.os) == Some(os)
}

proof fn lemma_is_package(
    info: ClientInfo,
    version: Seq<char>,
    python: Seq<char>,
    os: Seq<char>,
)
    requires
        info.caller() == (Caller {
            client: Some("babamul-python"@),
            client_version: Some(version),
            python_version: Some(python),
            os: Some(os),
        }),
    ensures
        is_package(info, version, python, os),
{
    let known = info.caller();
    assert(known.client == text_of(info.client));
    assert(known.client_version == text_of(info.client_version));
    assert(known.python_version == text_of(info.python_version));
    assert(known.os == text_of(info.os));
}

/// The package is recognised by its own header, with its version, that of the interpreter
/// and the operating system. The operating system is the first part of the comment that does
/// not name the interpreter; it may stand before it, and later parts say nothing more.
pub proof fn the_package_is_told_by_its_header(
    header: &str,
    info: ClientInfo,
    version: Seq<char>,
    python: Seq<char>,
    os: Seq<char>,
    more: Seq<char>,
)
    requires
        call_ensures(parse_user_agent, (header,), info),
        is_plain(version),
        is_plain(python),
        is_plain(os),
        is_plain(more),
        os.len() > 0,
        more.len() > 0,
        ({
            let product = "babamul-python"@ + seq!['/'] + version;
            let runs = "Python"@ + seq!['/'] + python;
            ||| header@ == package_header(version, python, os)
            ||| header@ == product + seq![' ', '('] + (os + seq![';'] + (seq![' '] + runs + seq![
                ';',
            ] + (seq![' '] + more))) + seq![')']
            ||| header@ == product + seq![' ', '('] + (runs + seq![';'] + (seq![' '] + os + seq![
                ';',
            ] + (seq![' '] + more))) + seq![')']
        }),
    ensures
        is_package(info, version, python, os),
{
    lemma_stops();
    let product = "babamul-python"@ + seq!['/'] + version;
    let runs = "Python"@ + seq!['/'] + python;
    let package = Caller {
        client: Some("babamul-python"@),
        client_version: Some(version),
        ..unknown_caller()
    };
    let known = Caller { python_version: Some(python), os: Some(os), ..package };
    assert(runs[0] == 'P');
    if python.len() > 0 {
        assert(runs.last() == python.last());
        assert(!is_space(python[python.len() - 1]));
    } else {
        assert(runs.last() == '/');
    }
    assert(!is_space(os[0]) && !is_space(os[os.len() - 1]));
    assert(!is_space(more[0]) && !is_space(more[more.len() - 1]));
    lemma_trim_blank(runs);
    lemma_trim_blank(os);
    lemma_trim_blank(more);
    assert forall|i: int| 0 <= i < runs.len() implies #[trigger] runs[i] != ';' && runs[i]
        != ')' by {
        if i >= 7 {
            assert(runs[i] == python[i - 7]);
        }
    }
    let blank_os = seq![' '] + os;
    let blank_more = seq![' '] + more;
    let blank_runs = seq![' '] + runs;
    assert forall|i: int| 0 <= i < blank_os.len() implies #[trigger] blank_os[i] != ';'
        && blank_os[i] != ')' by {
        if i > 0 {
            assert(blank_os[i] == os[i - 1]);
        }
    }
    assert forall|i: int| 0 <= i < blank_more.len() implies #[trigger] blank_more[i] != ';'
        && blank_more[i] != ')' by {
        if i > 0 {
            assert(blank_more[i] == more[i - 1]);
        }
    }
    assert forall|i: int| 0 <= i < blank_runs.len() implies #[trigger] blank_runs[i] != ';'
        && blank_runs[i] != ')' by {
        if i > 0 {
            assert(blank_runs[i] == runs[i - 1]);
        }
    }
    if header@ == package_header(version, python, os) {
        let comment = runs + seq![';'] + blank_os;
        assert(header@ =~= product + seq![' ', '('] + comment + seq![')']);
        lemma_package_header(header@, version, comment);
        lemma_comment_part(runs, blank_os, package);
        lemma_read_parts(python, os, package);
        let now = Caller { python_version: Some(python), ..package };
        lemma_comment_part(blank_os, Seq::empty(), now);
        lemma_read_parts(python, os, now);
    } else if header@ == product + seq![' ', '('] + (os + seq![';'] + (blank_runs + seq![';']
        + blank_more)) + seq![')'] {
        let rest = blank_runs + seq![';'] + blank_more;
        let comment = os + seq![';'] + rest;
        lemma_package_header(header@, version, comment);
        lemma_comment_part(os, rest, package);
        lemma_read_parts(python, os, package);
        let now = Caller { os: Some(os), ..package };
        lemma_comment_part(blank_runs, blank_more, now);
        lemma_read_parts(python, more, now);
        lemma_comment_part(blank_more, Seq::empty(), known);
        lemma_read_parts(python, more, known);
    } else {
        let rest = blank_os + seq![';'] + blank_more;
        let comment = runs + seq![';'] + rest;
        lemma_package_header(header@, version, comment);
        lemma_comment_part(runs, rest, package);
        lemma_read_parts(python, os, package);
        let now = Caller { python_version: Some(python), ..package };
        lemma_comment_part(blank_os, blank_more, now);
        lemma_read_parts(python, os, now);
        lemma_comment_part(blank_more, Seq::empty(), known);
        lemma_read_parts(python, more, known);
    }
    lemma_is_package(info, version, python, os);
}

proof fn lemma_product(product: Seq<char>, s: Seq<char>)
    requires
        product.len() >= 14,
        product.take(14) == "babamul-python"@,
        product.len() > 14 ==> product[14] == '/',
        forall|i: int|
            14 < i < product.len() ==> !is_space(#[trigger] product[i]) && product[i] != '(',
        product.is_prefix_of(s),
        s.len() > product.len() ==> s[product.len() as int] == ' ',
        !is_space(s.last()),
    ensures
        trimmed(s) == s,
        product_token(s) == product,
        product_name(product) == "babamul-python"@,
        product_version(product) == if product.len() > 14 {
            Some(product.skip(15))
        } else {
            None
        },
{
    lemma_stops();
    let n = product.len() as int;
    assert forall|k: int| 0 <= k < 14 implies #[trigger] product[k] == "babamul-python"@[k] by {
        assert(product.take(14)[k] == product[k]);
    }
    assert(s.take(n) =~= product);
    assert forall|k: int| 0 <= k < n implies #[trigger] product[k] == s[k] by {
        assert(s.take(n)[k] == s[k]);
    }
    assert(s[0] == 'b');
    trimming_leaves_trimmed_texts(s);
    assert(seq!['(', ' '].contains(' ')) by {
        assert(seq!['(', ' '][1] == ' ');
    }
    assert(seq!['/'].contains('/')) by {
        assert(seq!['/'][0] == '/');
    }
    assert forall|k: int| 0 <= k < n implies !seq!['(', ' '].contains(#[trigger] s[k]) by {
        assert(s[k] == product[k]);
        if k > 14 {
            assert(!is_space(product[k]));
        }
    }
    the_first_stop_is_found(s, "( "@, n);
    assert(before_first(s, "( "@) =~= product);
    assert(product[0] == 'b');
    if n > 15 {
        assert(!is_space(product[n - 1]));
    }
    trimming_leaves_trimmed_texts(product);
    assert forall|k: int| 0 <= k < 14 implies !seq!['/'].contains(#[trigger] product[k]) by {}
    the_first_stop_is_found(product, "/"@, 14);
    assert(before_first(product, "/"@) =~= "babamul-python"@);
    if n > 14 {
        assert(after_first(product, "/"@) =~= product.skip(15));
    }
}

/// Where the package's header has no comment, or one that is not closed, neither the
/// interpreter nor the operating system is known, and without a slash no version is.
pub proof fn what_is_known_without_a_comment(
    header: &str,
    info: ClientInfo,
    version: Seq<char>,
    rest: Seq<char>,
)
    requires
        call_ensures(parse_user_agent, (header,), info),
        is_plain(version),
        forall|i: int| 0 <= i < rest.len() ==> #[trigger] rest[i] != ')',
        rest.len() > 0 ==> !is_space(rest.last()),
        ({
            let product = "babamul-python"@ + seq!['/'] + version;
            ||| header@ == "babamul-python"@
            ||| header@ == product
            ||| header@ == product + seq![' ', '('] + rest
        }),
    ensures
        text_of(info.client) == Some("babamul-python"@),
        text_of(info.client_version) == if header@ == "babamul-python"@ {
            None
        } else {
            Some(version)
        },
        info.python_version is None,
        info.os is None,
{
    lemma_stops();
    let product = "babamul-python"@ + seq!['/'] + version;
    let s = header@;
    assert(product.len() > 14 && "babamul-python"@.len() == 14);
    assert(product.take(14) =~= "babamul-python"@);
    assert("babamul-python"@.take(14) =~= "babamul-python"@);
    assert(product.skip(15) =~= version);
    assert forall|i: int| 14 < i < product.len() implies !is_space(#[trigger] product[i])
        && product[i] != '(' by {
        assert(product[i] == version[i - 15]);
    }
    let token = if s == "babamul-python"@ {
        s
    } else {
        product
    };
    assert(s.take(token.len() as int) =~= token);
    if s == product {
        if version.len() > 0 {
            assert(s.last() == version[version.len() - 1]);
            assert(!is_space(version[version.len() - 1]));
        }
    } else if s != "babamul-python"@ {
        assert(s[product.len() as int] == ' ');
        if rest.len() > 0 {
            assert(s.last() == rest.last());
        } else {
            assert(s.last() == '(');
        }
    }
    lemma_product(token, s);
    assert(seq!['('].contains('(')) by {
        assert(seq!['('][0] == '(');
    }
    let n = token.len() as int;
    assert forall|k: int| 0 <= k < n implies !seq!['('].contains(#[trigger] s[k]) by {
        assert(s[k] == token[k]);
        if k > 14 {
            assert(product[k] != '(');
        }
    }
    if s == token {
        the_first_stop_is_found(s, "("@, n);
    } else {
        assert(s[n] == ' ' && s[n + 1] == '(');
        the_first_stop_is_found(s, "("@, n + 1);
        let tail = after_first(s, "("@);
        assert(tail =~= rest);
        assert forall|k: int| 0 <= k < rest.len() implies !seq![')'].contains(
            #[trigger] tail[k],
        ) by {
            assert(rest[k] != ')');
        }
        the_first_stop_is_found(tail, ")"@, rest.len() as int);
    }
    assert(comment_of(s) is None);
    let known = info.caller();
    assert(known.client == text_of(info.client));
    assert(known.client_version == text_of(info.client_version));
    assert(known.python_version == text_of(info.python_version));
    assert(known.os == text_of(info.os));
}

/// An empty part of the comment does not name an operating system.
pub proof fn empty_parts_say_nothing(
    header: &str,
    info: ClientInfo,
    version: Seq<char>,
    python: Seq<char>,
)
    requires
        call_ensures(parse_user_agent, (header,), info),
        is_plain(version),
        is_plain(python),
        header@ == "babamul-python"@ + seq!['/'] + version + seq![' ', '('] + ("Python"@ + seq!['/']
            + python + seq![';'] + seq![' ']) + seq![')'],
    ensures
        text_of(info.python_version) == Some(python),
        info.os is None,
{
    lemma_stops();
    let runs = "Python"@ + seq!['/'] + python;
    let package = Caller {
        client: Some("babamul-python"@),
        client_version: Some(version),
        ..unknown_caller()
    };
    assert(runs[0] == 'P');
    if python.len() > 0 {
        assert(runs.last() == python.last());
        assert(!is_space(python[python.len() - 1]));
    } else {
        assert(runs.last() == '/');
    }
    lemma_trim_blank(runs);
    let comment = runs + seq![';'] + seq![' '];
    assert forall|i: int| 0 <= i < runs.len() implies #[trigger] runs[i] != ';' && runs[i]
        != ')' by {
        if i >= 7 {
            assert(runs[i] == python[i - 7]);
        }
    }
    lemma_package_header(header@, version, comment);
    lemma_comment_part(runs, seq![' '], package);
    lemma_read_parts(python, "Python"@, package);
    let now = Caller { python_version: Some(python), ..package };
    lemma_comment_part(seq![' '], Seq::empty(), now);
    let blank = seq![' '];
    assert(is_space(blank[0]));
    assert(blank.drop_first() =~= Seq::empty());
    assert(trim_start(blank.drop_first()) =~= Seq::empty());
    assert(trimmed(blank).len() == 0);
    lemma_only_parts_with_a_slash_name_the_interpreter(trimmed(blank), now);
    let known = info.caller();
    assert(known.python_version == text_of(info.python_version));
    assert(known.os == text_of(info.os));
}

proof fn lemma_only_parts_with_a_slash_name_the_interpreter(part: Seq<char>, seen: Caller)
    requires
        part.len() == 0,
    ensures
        read_part(part, seen) == seen,
{
    the_first_stop_is_found(part, "/"@, 0);
}

/// White space round a header says nothing of the caller.
pub proof fn white_space_round_a_header_says_nothing(
    header: &str,
    inner: &str,
    info: ClientInfo,
    told: ClientInfo,
)
    requires
        call_ensures(trim, (header,), inner),
        call_ensures(parse_user_agent, (header,), info),
        call_ensures(parse_user_agent, (inner,), told),
    ensures
        text_of(info.client) == text_of(told.client),
        text_of(info.client_version) == text_of(told.client_version),
        text_of(info.python_version) == text_of(told.python_version),
        text_of(info.os) == text_of(told.os),
{
    trimming_takes_away_white_space(header, inner);
    trimming_leaves_trimmed_texts(inner@);
    let known = info.caller();
    assert(known == told.caller());
    assert(known.client == text_of(info.client));
    assert(known.client_version == text_of(info.client_version));
    assert(known.python_version == text_of(info.python_version));
    assert(known.os == text_of(info.os));
}

/// Whether a text begins with another, the case of ASCII letters aside.
pub open spec fn begins_like(s: Seq<char>, start: Seq<char>) -> bool {
    start.len() <= s.len() && forall|i: int|
        0 <= i < start.len() ==> folded(#[trigger] s[i]) == folded(start[i])
}

proof fn lemma_begins_like(s: Seq<char>, start: Seq<char>)
    ensures
        has_prefix_folded(s, start) == begins_like(s, start),
{
    if start.len() <= s.len() {
        let head = s.subrange(0, start.len() as int);
        if has_prefix_folded(s, start) {
            assert forall|i: int| 0 <= i < start.len() implies folded(#[trigger] s[i]) == folded(
                start[i],
            ) by {
                assert(folded(head[i]) == folded(start[i]));
            }
        }
        if begins_like(s, start) {
            assert forall|i: int| 0 <= i < head.len() implies #[trigger] folded(head[i]) == folded(
                start[i],
            ) by {
                assert(folded(s[i]) == folded(start[i]));
            }
        }
    }
}

/// Every other caller is told by its kind alone: a browser by what browsers say, and the
/// rest by how their name begins. A caller without a name is not known.
pub proof fn other_callers_are_told_by_their_kind(
    header: &str,
    info: ClientInfo,
    name: Seq<char>,
    rest: Seq<char>,
)
    requires
        call_ensures(parse_user_agent, (header,), info),
        header@ == name + rest,
        forall|i: int|
            0 <= i < name.len() ==> {
                let c = #[trigger] name[i];
                !is_space(c) && c != '(' && c != '/'
            },
        rest.len() > 0 ==> rest[0] == '/' || rest[0] == ' ' || rest[0] == '(',
        rest.len() > 0 ==> !is_space(rest.last()),
        name.len() > 0,
        name != "babamul-python"@,
    ensures
        info.client_version is None && info.python_version is None && info.os is None,
        (exists|at: int| occurs_at(header@, "Mozilla"@, at)) ==> text_of(info.client) == Some(
            "browser"@,
        ),
        !(exists|at: int| occurs_at(header@, "Mozilla"@, at)) ==> text_of(info.client) == Some(
            if begins_like(name, "python-httpx"@) {
                "httpx"@
            } else if begins_like(name, "python-requests"@) {
                "requests"@
            } else if begins_like(name, "curl"@) {
                "curl"@
            } else {
                "other"@
            },
        ),
{
    lemma_stops();
    let s = header@;
    assert(s[0] == name[0]);
    if rest.len() > 0 {
        assert(s.last() == rest.last());
    } else {
        assert(s =~= name);
    }
    trimming_leaves_trimmed_texts(s);
    assert(seq!['(', ' '].contains(' ')) by {
        assert(seq!['(', ' '][1] == ' ');
    }
    assert(seq!['(', ' '].contains('(')) by {
        assert(seq!['(', ' '][0] == '(');
    }
    assert(seq!['/'].contains('/')) by {
        assert(seq!['/'][0] == '/');
    }
    let cut = first_of(s, "( "@);
    crate::text::lemma_first_of_bounds(s, "( "@);
    assert(name.len() <= cut) by {
        assert forall|k: int| 0 <= k < name.len() implies !"( "@.contains(#[trigger] s[k]) by {
            assert(s[k] == name[k]);
            assert(!is_space(name[k]));
        }
        lemma_no_stop_before(s, "( "@, name.len() as int);
    }
    let head = before_first(s, "( "@);
    assert(head =~= s.take(cut));
    let product = trimmed(head);
    lemma_trimmed_head(head, name.len() as int);
    assert forall|k: int| 0 <= k < name.len() implies product[k] == name[k] by {
        assert(head[k] == s[k]);
    }
    if name.len() < product.len() {
        assert(product[name.len() as int] == head[name.len() as int]);
        assert(head[name.len() as int] == s[name.len() as int]);
        assert(s[name.len() as int] == rest[0]);
        lemma_no_stop_inside(s, "( "@, name.len() as int);
        assert(product[name.len() as int] == '/');
    }
    assert forall|k: int| 0 <= k < name.len() implies !"/"@.contains(#[trigger] product[k]) by {
        assert(product[k] == name[k]);
    }
    the_first_stop_is_found(product, "/"@, name.len() as int);
    assert(product_name(product) =~= name);
    lemma_begins_like(name, "python-httpx"@);
    lemma_begins_like(name, "python-requests"@);
    lemma_begins_like(name, "curl"@);
    let known = info.caller();
    assert(known.client == text_of(info.client));
    assert(known.client_version == text_of(info.client_version));
    assert(known.python_version == text_of(info.python_version));
    assert(known.os == text_of(info.os));
}

proof fn lemma_no_stop_before(s: Seq<char>, stops: Seq<char>, n: int)
    requires
        0 <= n <= s.len(),
        forall|k: int| 0 <= k < n ==> !stops.contains(#[trigger] s[k]),
    ensures
        n <= first_of(s, stops),
    decreases n,
{
    if n > 0 {
        let rest = s.drop_first();
        assert(!stops.contains(s[0]));
        assert forall|k: int| 0 <= k < n - 1 implies !stops.contains(#[trigger] rest[k]) by {
            assert(rest[k] == s[k + 1]);
        }
        lemma_no_stop_before(rest, stops, n - 1);
    } else {
        crate::text::lemma_first_of_bounds(s, stops);
    }
}

proof fn lemma_no_stop_inside(s: Seq<char>, stops: Seq<char>, k: int)
    requires
        0 <= k < first_of(s, stops),
    ensures
        k < s.len(),
        !stops.contains(s[k]),
    decreases s.len(),
{
    crate::text::lemma_first_of_bounds(s, stops);
    if s.len() > 0 && !stops.contains(s[0]) && k > 0 {
        lemma_no_stop_inside(s.drop_first(), stops, k - 1);
        assert(s.drop_first()[k - 1] == s[k]);
    }
}

proof fn lemma_trimmed_head(s: Seq<char>, n: int)
    requires
        0 < n <= s.len(),
        forall|k: int| 0 <= k < n ==> !is_space(#[trigger] s[k]),
    ensures
        n <= trimmed(s).len() <= s.len(),
        trimmed(s) == s.take(trimmed(s).len() as int),
{
    assert(!is_space(s[0]));
    assert(trim_start(s) == s);
    lemma_trim_end_head(s, n);
}

proof fn lemma_trim_end_head(s: Seq<char>, n: int)
    requires
        0 < n <= s.len(),
        forall|k: int| 0 <= k < n ==> !is_space(#[trigger] s[k]),
    ensures
        n <= trim_end(s).len() <= s.len(),
        trim_end(s) == s.take(trim_end(s).len() as int),
    decreases s.len(),
{
    if is_space(s.last()) {
        let rest = s.drop_last();
        assert(n < s.len()) by {
            if n == s.len() {
                assert(!is_space(s[n - 1]));
            }
        }
        lemma_trim_end_head(rest, n);
        assert(rest.take(trim_end(rest).len() as int) =~= s.take(trim_end(rest).len() as int));
    } else {
        assert(s.take(s.len() as int) =~= s);
    }
}

/// Nothing is known of a caller that sends no header.
pub proof fn nothing_is_known_without_a_header(header: &str, info: ClientInfo)
    requires
        call_ensures(parse_user_agent, (header,), info),
        header@.len() == 0,
    ensures
        info.client is None && info.client_version is None,
        info.python_version is None && info.os is None,
        info.auth_method@ == "none"@,
{
    let known = info.caller();
    trimming_leaves_trimmed_texts(header@);
    assert(known == unknown_caller());
    assert(known.client == text_of(info.client));
    assert(known.client_version == text_of(info.client_version));
    assert(known.python_version == text_of(info.python_version));
    assert(known.os == text_of(info.os));
}

proof fn lemma_prefix(s: Seq<char>, start: Seq<char>)
    ensures
        has_prefix(s, start) == start.is_prefix_of(s),
{
    if start.len() <= s.len() {
        assert(start.is_prefix_of(s) == (s.subrange(0, start.len() as int) =~= start));
    }
}

/// A request authenticates by what follows `Bearer`: a personal access token, which begins
/// with `bbml_`, or else a JWT. The headers of a request say the same together as apart, and
/// only those of the Babamul API are read.
pub proof fn how_requests_authenticate(
    path: &str,
    user_agent: &str,
    authorization: Option<&str>,
    alone: ClientInfo,
    info: ClientInfo,
    asked: Option<ClientInfo>,
)
    requires
        call_ensures(parse_user_agent, (user_agent,), alone),
        call_ensures(ClientInfo::from_request, (Some(user_agent), authorization), info),
        call_ensures(ClientInfo::for_request, (path, Some(user_agent), authorization), asked),
    ensures
        match authorization {
            Some(value) => {
                &&& "Bearer bbml_"@.is_prefix_of(value@) ==> info.auth_method@
                    == "personal_access_token"@
                &&& !"Bearer bbml_"@.is_prefix_of(value@) && "Bearer "@.is_prefix_of(value@)
                    ==> info.auth_method@ == "jwt"@
                &&& !"Bearer bbml_"@.is_prefix_of(value@) && !"Bearer "@.is_prefix_of(value@)
                    ==> info.auth_method@ == "none"@
            },
            None => info.auth_method@ == "none"@,
        },
        text_of(info.client) == text_of(alone.client),
        text_of(info.client_version) == text_of(alone.client_version),
        text_of(info.python_version) == text_of(alone.python_version),
        text_of(info.os) == text_of(alone.os),
        asked is Some <==> "/babamul"@.is_prefix_of(path@),
        asked matches Some(asked) ==> {
            &&& asked.auth_method@ == info.auth_method@
            &&& text_of(asked.client) == text_of(info.client)
            &&& text_of(asked.client_version) == text_of(info.client_version)
            &&& text_of(asked.python_version) == text_of(info.python_version)
            &&& text_of(asked.os) == text_of(info.os)
        },
{
    if let Some(value) = authorization {
        lemma_prefix(value@, "Bearer bbml_"@);
        lemma_prefix(value@, "Bearer "@);
    }
    lemma_prefix(path@, "/babamul"@);
    let a = alone.caller();
    let b = info.caller();
    assert(a == b);
    assert(a.client == text_of(alone.client) && b.client == text_of(info.client));
    assert(a.client_version == text_of(alone.client_version));
    assert(a.python_version == text_of(alone.python_version));
    assert(a.os == text_of(alone.os));
    if let Some(asked) = asked {
        let c = asked.caller();
        assert(c == b);
        assert(c.client == text_of(asked.client));
        assert(c.client_version == text_of(asked.client_version));
        assert(c.python_version == text_of(asked.python_version));
        assert(c.os == text_of(asked.os));
    }
}

/// A request is counted under its API and its caller's name.
pub proof fn requests_are_counted_by_api_and_caller(
    path: &str,
    info: Option<&ClientInfo>,
    api: &'static str,
    label: String,
)
    requires
        call_ensures(api_of, (path,), api),
        call_ensures(client_attribute, (info,), label),
    ensures
        "/babamul"@.is_prefix_of(path@) ==> api@ == "babamul"@,
        !"/babamul"@.is_prefix_of(path@) ==> api@ == "boom"@,
        info matches Some(info) ==> (info.client matches Some(name) ==> label@ == name@),
        (info matches Some(info) ==> info.client is None) ==> label@ == "unknown"@,
{
    lemma_prefix(path@, "/babamul"@);
}

/// Whether a fact is stated exactly where it is known.
pub open spec fn states(
    facts: Map<Seq<char>, Fact>,
    key: Seq<char>,
    value: Option<Seq<char>>,
) -> bool {
    match value {
        Some(text) => facts.contains_key(key) && facts[key] == Fact::Text(text),
        None => !facts.contains_key(key),
    }
}

proof fn lemma_keys()
    ensures
        "endpoint"@.len() == 8 && "method"@.len() == 6 && "status_code"@.len() == 11,
        "success"@.len() == 7 && "duration_ms"@.len() == 11 && "authenticated"@.len() == 13,
        "auth_method"@.len() == 11 && "client"@.len() == 6 && "client_version"@.len() == 14,
        "python_version"@.len() == 14 && "client_os"@.len() == 9,
        "$process_person_profile"@.len() == 23,
        "method"@[0] == 'm' && "client"@[0] == 'c',
        "status_code"@[0] == 's' && "duration_ms"@[0] == 'd' && "auth_method"@[0] == 'a',
        "client_version"@[0] == 'c' && "python_version"@[0] == 'p',
{
    reveal_strlit("$process_person_profile");
    reveal_strlit("endpoint");
    reveal_strlit("method");
    reveal_strlit("status_code");
    reveal_strlit("success");
    reveal_strlit("duration_ms");
    reveal_strlit("authenticated");
    reveal_strlit("auth_method");
    reveal_strlit("client");
    reveal_strlit("client_version");
    reveal_strlit("python_version");
    reveal_strlit("client_os");
}

/// Whether an event reports a request: where it went and how, how it was answered and how
/// fast, whether a user made it, and what is known of the caller. One that no user made is
/// the anonymous actor's and makes no profile.
pub open spec fn reports(
    event: AnalyticsEvent,
    endpoint: Seq<char>,
    method: Seq<char>,
    status: u16,
    duration_ms: u64,
    user: Option<Seq<char>>,
    info: ClientInfo,
) -> bool {
    let facts = event.facts();
    let profile = "$process_person_profile"@;
    &&& event.event@ == "babamul_api_request"@
    &&& event.distinct_id@ == match user {
        Some(id) => id,
        None => "babamul-anonymous"@,
    }
    &&& states(facts, "endpoint"@, Some(endpoint))
    &&& states(facts, "method"@, Some(method))
    &&& facts["status_code"@] == Fact::Number(status as int)
    &&& facts["success"@] == Fact::Flag(200 <= status <= 399)
    &&& facts["duration_ms"@] == Fact::Number(duration_ms as int)
    &&& facts["authenticated"@] == Fact::Flag(user is Some)
    &&& states(facts, "auth_method"@, Some(info.auth_method@))
    &&& states(
        facts,
        "client"@,
        Some(
            match info.client {
                Some(name) => name@,
                None => "unknown"@,
            },
        ),
    )
    &&& states(facts, "client_version"@, text_of(info.client_version))
    &&& states(facts, "python_version"@, text_of(info.python_version))
    &&& states(facts, "client_os"@, text_of(info.os))
    &&& user is Some ==> !facts.contains_key(profile)
    &&& user is None ==> facts.contains_key(profile) && facts[profile] == Fact::Flag(false)
    &&& forall|key: Seq<char>|
        {
            &&& key != "endpoint"@ && key != "method"@ && key != "status_code"@
            &&& key != "success"@ && key != "duration_ms"@ && key != "authenticated"@
            &&& key != "auth_method"@ && key != "client"@ && key != "client_version"@
            &&& key != "python_version"@ && key != "client_os"@ && key != profile
        } ==> !#[trigger] facts.contains_key(key)
}

/// A request makes an event that reports it.
pub proof fn requests_are_reported_as_they_went(
    endpoint: &str,
    method: &str,
    status: u16,
    duration_ms: u64,
    user: Option<&str>,
    info: ClientInfo,
    event: AnalyticsEvent,
)
    requires
        call_ensures(
            build_request_event,
            (endpoint, method, status, duration_ms, user, &info),
            event,
        ),
    ensures
        reports(
            event,
            endpoint@,
            method@,
            status,
            duration_ms,
            match user {
                Some(id) => Some(id@),
                None => None,
            },
            info,
        ),
{
    lemma_keys();
    let known = info.caller();
}

/// A request is reported when analytics are on and it was made to the Babamul API: under the
/// pattern of its route where that is known, and for the user that it was authenticated as.
pub proof fn which_requests_are_reported(
    analytics: Option<&AnalyticsClient>,
    info: Option<&ClientInfo>,
    answered: Option<Answered>,
    path: &str,
    method: &str,
    status: u16,
    duration_ms: u64,
    event: Option<AnalyticsEvent>,
)
    requires
        call_ensures(
            report_request,
            (analytics, info, &answered, path, method, status, duration_ms),
            event,
        ),
    ensures
        event is Some <==> {
            &&& analytics matches Some(client) && client.queue is Some
            &&& info is Some
            &&& "/babamul"@.is_prefix_of(path@)
        },
        event matches Some(event) ==> reports(
            event,
            match answered {
                Some(answered) => match answered.pattern {
                    Some(pattern) => pattern@,
                    None => answered.path@,
                },
                None => path@,
            },
            method@,
            status,
            duration_ms,
            match answered {
                Some(answered) => text_of(answered.user_id),
                None => None,
            },
            *info->0,
        ),
{
    lemma_keys();
    lemma_prefix(path@, "/babamul"@);
    if let Some(info) = info {
        let known = info.caller();
    }
}

/// Analytics are on when there is a key. A queue holds at least one event, waits at least a
/// second, and its host does not end in a slash.
pub proof fn how_analytics_are_configured(config: PostHogConfig, client: AnalyticsClient)
    requires
        call_ensures(AnalyticsClient::from_config, (&config,), client),
    ensures
        client.dropped == 0,
        client.queue is Some <==> config.project_api_key@.len() > 0,
        client.queue matches Some(queue) ==> {
            &&& queue.capacity >= 1 && queue.capacity >= config.queue_capacity
            &&& config.queue_capacity >= 1 ==> queue.capacity == config.queue_capacity
            &&& config.queue_capacity == 0 ==> queue.capacity == 1
            &&& config.flush_interval_seconds >= 1 ==> queue.flush_interval_seconds
                == config.flush_interval_seconds
            &&& config.flush_interval_seconds == 0 ==> queue.flush_interval_seconds == 1
            &&& queue.api_key@ == config.project_api_key@
            &&& queue.host@.is_prefix_of(config.host@)
            &&& queue.host@.len() > 0 ==> queue.host@.last() != '/'
            &&& forall|k: int|
                queue.host@.len() <= k < config.host@.len() ==> #[trigger] config.host@[k] == '/'
        },
{
    if let Some(queue) = client.queue {
        lemma_without_slashes(config.host@);
    }
}

proof fn lemma_without_slashes(s: Seq<char>)
    ensures
        ({
            let kept = crate::text::without_trailing(s, '/');
            &&& kept.is_prefix_of(s)
            &&& kept.len() > 0 ==> kept.last() != '/'
            &&& forall|k: int| kept.len() <= k < s.len() ==> #[trigger] s[k] == '/'
        }),
    decreases s.len(),
{
    if s.len() > 0 && s.last() == '/' {
        lemma_without_slashes(s.drop_last());
        let kept = crate::text::without_trailing(s, '/');
        assert forall|k: int| kept.len() <= k < s.len() implies #[trigger] s[k] == '/' by {
            if k < s.len() - 1 {
                assert(s.drop_last()[k] == s[k]);
            }
        }
        assert(kept.is_prefix_of(s)) by {
            assert(kept =~= s.subrange(0, kept.len() as int));
        }
    } else {
        assert(s =~= s.subrange(0, s.len() as int));
    }
}

/// A batch is sent when it holds 250 events, and on every tick and at the close if it holds
/// any.
pub proof fn when_batches_are_sent(pending: Seq<AnalyticsEvent>, input: FlushInput)
    requires
        pending.len() < 250,
    ensures
        gathered(pending, input).len() <= 250,
        input is Received ==> (sends(pending, input) <==> gathered(pending, input).len() == 250),
        input is Tick || input is Closed ==> {
            &&& gathered(pending, input) == pending
            &&& sends(pending, input) <==> pending.len() > 0
        },
        input matches FlushInput::Received(event) ==> gathered(pending, input) == pending.push(
            event,
        ),
{
}

/// A batch is sent when the reply is a success, and dropped otherwise, with all its events.
pub proof fn how_batches_are_booked(status: Option<u16>, count: u64, delivery: Delivery)
    requires
        call_ensures(book_batch, (status, count), delivery),
    ensures
        match status {
            Some(code) => {
                &&& 200 <= code <= 299 ==> delivery == Delivery::Sent(count)
                &&& !(200 <= code <= 299) ==> (delivery matches Delivery::Dropped(n, reason) && n
                    == count && reason@ == "http_error"@)
            },
            None => delivery matches Delivery::Dropped(n, reason) && n == count && reason@
                == "request_failed"@,
        },
{
}

}
